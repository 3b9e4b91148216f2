//! The states of a connection, what it asks of its caller, and the
//! transitions between the states, as a mathematical model.

use crate::boundary::has_boundary;
use crate::buffer::BufferModel;
use crate::classify::{disposition_of, Disposition, IoErrorKind};
use crate::message::{Request, ResponseModel};
use crate::service::Dispatched;
use vstd::prelude::*;

verus! {

/// Free capacity that the read buffer has before every read.
pub const READ_WATERMARK: usize = 512;

/// The step by which the read buffer grows, and its first capacity.
pub const READ_INCREMENT: usize = 4096 * 8;

/// The step by which the response buffer grows, and its first capacity. The
/// response buffer has no watermark: it grows by what is appended to it.
pub const RESPONSE_INCREMENT: usize = 4096 * 32;

/// Why a connection ended.
#[derive(Clone, Copy, Debug, PartialEq, Eq, Structural)]
pub enum CloseReason {
    /// The peer closed the connection in an orderly way.
    PeerClosed,
    /// The connection was reset or cut off; nothing is reported.
    ConnectionLost,
    /// A read or a write failed in another way; the failure is reported.
    IoFailure,
    /// The request did not decode.
    Malformed,
    /// A buffer or a response could not hold what it had to.
    Exhausted,
}

/// Where a connection stands in its cycle.
#[derive(Clone, Copy, Debug, PartialEq, Eq, Structural)]
pub enum Phase {
    /// Reading until the header terminator is buffered.
    AwaitHeaders,
    /// The terminator is buffered; the bytes await decoding.
    HaveHeaders,
    /// The handler has run; its response awaits encoding.
    Dispatched,
    /// The encoded response is being written.
    Responding,
    /// The connection has ended.
    Closed(CloseReason),
}

/// What the caller does next on behalf of the connection.
#[derive(Clone, Copy, Debug, PartialEq, Eq, Structural)]
pub enum Action {
    /// Read at most `max` bytes and report with `on_read`.
    Read { max: usize },
    /// Suspend until the socket is readable, then read as for `Read`.
    AwaitReadable { max: usize },
    /// Decode the buffered input and report with `on_decoded`.
    Decode,
    /// Encode the response and report with `on_encoded`. `fallback` tells
    /// that the handler failed and the response stands in for its answer.
    Encode { fallback: bool },
    /// Write the pending output and report with `on_write`.
    Write,
    /// Suspend until the socket is writable, then write as for `Write`.
    AwaitWritable,
    /// Drop the connection.
    Close(CloseReason),
}

/// What the decoder made of the buffered input.
pub enum DecodeOutcome {
    /// A whole request.
    Complete(Request),
    /// Not a whole request yet.
    NeedMoreData,
    /// Not a request.
    Malformed,
    /// The decoder read on from the socket, for the rest of a body, and
    /// that read failed.
    Failed(IoErrorKind),
}

/// The reason with which a connection ends after a failed read or write,
/// unless the failure only asks to retry later.
pub open spec fn close_reason_of(kind: IoErrorKind) -> CloseReason {
    match disposition_of(kind) {
        Disposition::Fatal => CloseReason::IoFailure,
        _ => CloseReason::ConnectionLost,
    }
}

/// Whether a failure of this category asks to repeat the operation once the
/// socket is ready.
pub open spec fn asks_retry(kind: IoErrorKind) -> bool {
    disposition_of(kind) == Disposition::RetryLater
}

/// The view of a read's outcome.
pub open spec fn read_outcome_view(outcome: Result<&[u8], IoErrorKind>) -> Result<
    Seq<u8>,
    IoErrorKind,
> {
    match outcome {
        Ok(data) => Ok(data@),
        Err(kind) => Err(kind),
    }
}

/// The mathematical content of a [`Connection`].
pub struct ConnectionModel {
    /// The phase.
    pub phase: Phase,
    /// The read buffer.
    pub input: BufferModel,
    /// The response buffer: the encoded response of the current cycle.
    pub output: BufferModel,
    /// How many bytes of the response buffer the socket has taken.
    pub written: nat,
    /// The response that the handler fills in.
    pub response: ResponseModel,
    /// Whether the response of the current cycle is the fallback.
    pub fallback: bool,
}

impl ConnectionModel {
    /// The invariant of every connection.
    pub open spec fn valid(self) -> bool {
        &&& self.input.valid()
        &&& self.input.increment == READ_INCREMENT
        &&& self.input.watermark == READ_WATERMARK
        &&& self.output.valid()
        &&& self.output.increment == RESPONSE_INCREMENT
        &&& self.output.watermark == 0
        &&& self.written <= self.output.bytes.len()
        &&& match self.phase {
            Phase::AwaitHeaders => self.input.room() >= READ_WATERMARK && self.output.bytes.len()
                == 0,
            Phase::HaveHeaders => has_boundary(self.input.bytes) && self.output.bytes.len() == 0,
            Phase::Dispatched => self.output.bytes.len() == 0,
            Phase::Responding => self.written < self.output.bytes.len(),
            Phase::Closed(_) => true,
        }
    }

    /// A connection that has just been accepted.
    pub open spec fn fresh() -> ConnectionModel {
        ConnectionModel {
            phase: Phase::AwaitHeaders,
            input: BufferModel::fresh(READ_INCREMENT as nat, READ_WATERMARK as nat),
            output: BufferModel::fresh(RESPONSE_INCREMENT as nat, 0),
            written: 0,
            response: ResponseModel::blank(),
            fallback: false,
        }
    }

    /// The bytes of the response that the socket has not taken yet.
    pub open spec fn pending_output(self) -> Seq<u8> {
        self.output.bytes.skip(self.written as int)
    }

    /// What the state asks the caller to do.
    pub open spec fn action(self) -> Action {
        match self.phase {
            Phase::AwaitHeaders => Action::Read { max: self.input.room() as usize },
            Phase::HaveHeaders => Action::Decode,
            Phase::Dispatched => Action::Encode { fallback: self.fallback },
            Phase::Responding => Action::Write,
            Phase::Closed(reason) => Action::Close(reason),
        }
    }

    /// The connection, ended for `reason`.
    pub open spec fn closed(self, reason: CloseReason) -> ConnectionModel {
        ConnectionModel { phase: Phase::Closed(reason), ..self }
    }

    /// The connection as it turns to reading: the read buffer gets its
    /// growth check, and where it still lacks room the connection ends.
    pub open spec fn awaiting(self) -> ConnectionModel {
        let input = self.input.topped_up();
        ConnectionModel {
            phase: if input.room() >= input.watermark {
                Phase::AwaitHeaders
            } else {
                Phase::Closed(CloseReason::Exhausted)
            },
            input,
            ..self
        }
    }

    /// The connection after a whole cycle: both buffers reset, capacity
    /// kept, and reading again.
    pub open spec fn recycled(self) -> ConnectionModel {
        (ConnectionModel {
            input: self.input.cleared(),
            output: self.output.cleared(),
            written: 0,
            ..self
        }).awaiting()
    }

    /// The connection after a read reported its outcome: the bytes read, or
    /// the category of the failure. No bytes mean that the peer has closed.
    pub open spec fn after_read(self, outcome: Result<Seq<u8>, IoErrorKind>) -> ConnectionModel {
        if self.phase != Phase::AwaitHeaders {
            self
        } else {
            match outcome {
                Ok(data) => {
                    if data.len() == 0 {
                        self.closed(CloseReason::PeerClosed)
                    } else if !self.input.accepts(data) {
                        self.closed(CloseReason::Exhausted)
                    } else if has_boundary(self.input.bytes + data) {
                        ConnectionModel {
                            phase: Phase::HaveHeaders,
                            input: self.input.appended(data),
                            ..self
                        }
                    } else {
                        (ConnectionModel { input: self.input.appended(data), ..self }).awaiting()
                    }
                },
                Err(kind) => {
                    if asks_retry(kind) {
                        self
                    } else {
                        self.closed(close_reason_of(kind))
                    }
                },
            }
        }
    }

    /// The connection after the decoder reported that its own read from the
    /// socket failed: as after a failed read, but a failure that asks to
    /// retry leaves the bytes to be decoded again.
    pub open spec fn after_decode_failure(self, kind: IoErrorKind) -> ConnectionModel {
        if self.phase != Phase::HaveHeaders || asks_retry(kind) {
            self
        } else {
            self.closed(close_reason_of(kind))
        }
    }

    /// The connection after the handler was called on a decoded request:
    /// `outcome` tells how the dispatch ended and `response` is the response
    /// it left. Where not even the fallback could be built, the connection
    /// ends.
    pub open spec fn after_dispatch(
        self,
        outcome: Dispatched,
        response: ResponseModel,
    ) -> ConnectionModel {
        ConnectionModel {
            phase: if outcome == Dispatched::Unanswerable {
                Phase::Closed(CloseReason::Exhausted)
            } else {
                Phase::Dispatched
            },
            fallback: outcome != Dispatched::Served,
            response,
            ..self
        }
    }

    /// What the caller is asked to do after a read reported its outcome.
    pub open spec fn read_reply(self, outcome: Result<Seq<u8>, IoErrorKind>) -> Action {
        match outcome {
            Err(kind) => if self.phase == Phase::AwaitHeaders && asks_retry(kind) {
                Action::AwaitReadable { max: self.input.room() as usize }
            } else {
                self.after_read(outcome).action()
            },
            Ok(_) => self.after_read(outcome).action(),
        }
    }

    /// The connection after the encoder reported the bytes of the response.
    pub open spec fn after_encoded(self, bytes: Seq<u8>) -> ConnectionModel {
        if self.phase != Phase::Dispatched {
            self
        } else if bytes.len() == 0 {
            self.recycled()
        } else if !self.output.accepts(bytes) {
            self.closed(CloseReason::Exhausted)
        } else {
            ConnectionModel {
                phase: Phase::Responding,
                output: self.output.appended(bytes),
                written: 0,
                ..self
            }
        }
    }

    /// The connection after a write reported its outcome: the number of
    /// pending bytes that the socket took, or the category of the failure.
    pub open spec fn after_write(self, outcome: Result<usize, IoErrorKind>) -> ConnectionModel {
        if self.phase != Phase::Responding {
            self
        } else {
            match outcome {
                Ok(n) => {
                    if n == 0 {
                        self.closed(CloseReason::PeerClosed)
                    } else if n > self.output.bytes.len() - self.written {
                        self.closed(CloseReason::IoFailure)
                    } else if self.written + n == self.output.bytes.len() {
                        self.recycled()
                    } else {
                        ConnectionModel { written: self.written + n as nat, ..self }
                    }
                },
                Err(kind) => {
                    if asks_retry(kind) {
                        self
                    } else {
                        self.closed(close_reason_of(kind))
                    }
                },
            }
        }
    }

    /// What the caller is asked to do after a write reported its outcome.
    pub open spec fn write_reply(self, outcome: Result<usize, IoErrorKind>) -> Action {
        match outcome {
            Err(kind) => if self.phase == Phase::Responding && asks_retry(kind) {
                Action::AwaitWritable
            } else {
                self.after_write(outcome).action()
            },
            Ok(_) => self.after_write(outcome).action(),
        }
    }
}

} // verus!
