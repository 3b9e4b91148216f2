//! One connection: its buffers, its handler and the steps it takes from each
//! outcome of the work done on its socket. The socket itself, the decoder
//! and the encoder stay with the caller.

use crate::boundary::find_boundary;
use crate::buffer::GrowBuffer;
use crate::classify::{classify, Disposition, IoErrorKind};
use crate::message::{Response, ResponseModel};
use crate::protocol::{
    read_outcome_view, Action, CloseReason, ConnectionModel, DecodeOutcome, Phase, READ_INCREMENT,
    READ_WATERMARK, RESPONSE_INCREMENT,
};
use crate::service::{dispatch, settled, settled_response, Dispatched, HttpService};
use vstd::prelude::*;
use vstd::slice::slice_subrange;

verus! {

/// One accepted connection: its handler, its read buffer, its response
/// buffer and the response with its body buffer.
pub struct Connection<S> {
    service: S,
    phase: Phase,
    read_buf: GrowBuffer,
    rsp_buf: GrowBuffer,
    response: Response,
    written: usize,
    fallback: bool,
}

impl<S> View for Connection<S> {
    type V = ConnectionModel;

    closed spec fn view(&self) -> ConnectionModel {
        ConnectionModel {
            phase: self.phase,
            input: self.read_buf@,
            output: self.rsp_buf@,
            written: self.written as nat,
            response: self.response@,
            fallback: self.fallback,
        }
    }
}

impl<S: HttpService> Connection<S> {
    /// Well-formedness: the model satisfies the connection invariant.
    pub open spec fn wf(&self) -> bool {
        self@.valid()
    }

    /// The handler of this connection.
    pub closed spec fn service(&self) -> S {
        self.service
    }

    /// Creates the connection for a socket that has just been accepted.
    pub fn new(service: S) -> (conn: Connection<S>)
        ensures
            conn.wf(),
            conn@ == ConnectionModel::fresh(),
            conn.service() == service,
    {
        let read_buf = GrowBuffer::new(READ_INCREMENT, READ_WATERMARK).unwrap();
        let rsp_buf = GrowBuffer::new(RESPONSE_INCREMENT, 0).unwrap();
        Connection {
            service,
            phase: Phase::AwaitHeaders,
            read_buf,
            rsp_buf,
            response: Response::new(),
            written: 0,
            fallback: false,
        }
    }

    /// The handler, for the caller to look at.
    pub fn handler(&self) -> (service: &S)
        ensures
            *service == self.service(),
    {
        &self.service
    }

    /// The phase.
    pub fn phase(&self) -> (phase: Phase)
        ensures
            phase == self@.phase,
    {
        self.phase
    }

    /// The read buffer.
    pub fn read_buffer(&self) -> (buf: &GrowBuffer)
        ensures
            buf@ == self@.input,
    {
        &self.read_buf
    }

    /// The response buffer.
    pub fn response_buffer(&self) -> (buf: &GrowBuffer)
        ensures
            buf@ == self@.output,
    {
        &self.rsp_buf
    }

    /// The response of the current cycle, for the encoder.
    pub fn response(&self) -> (rsp: &Response)
        ensures
            rsp@ == self@.response,
    {
        &self.response
    }

    /// The input buffered so far, for the decoder.
    pub fn buffered_input(&self) -> (bytes: &[u8])
        ensures
            bytes@ == self@.input.bytes,
    {
        self.read_buf.as_slice()
    }

    /// The bytes of the response that are still to be written.
    pub fn pending_output(&self) -> (bytes: &[u8])
        requires
            self.wf(),
        ensures
            bytes@ == self@.pending_output(),
    {
        let all = self.rsp_buf.as_slice();
        slice_subrange(all, self.written, all.len())
    }

    /// What the connection asks for as it stands: the first action of a new
    /// connection, and the action to take up again after a suspension.
    pub fn resume(&self) -> (action: Action)
        requires
            self.wf(),
        ensures
            action == self@.action(),
    {
        match self.phase {
            Phase::AwaitHeaders => Action::Read { max: self.read_buf.room() },
            Phase::HaveHeaders => Action::Decode,
            Phase::Dispatched => Action::Encode { fallback: self.fallback },
            Phase::Responding => Action::Write,
            Phase::Closed(reason) => Action::Close(reason),
        }
    }

    /// Ends the connection.
    fn close(&mut self, reason: CloseReason) -> (action: Action)
        requires
            old(self).wf(),
        ensures
            final(self).wf(),
            final(self)@ == old(self)@.closed(reason),
            final(self).service() == old(self).service(),
            action == final(self)@.action(),
    {
        self.phase = Phase::Closed(reason);
        Action::Close(reason)
    }

    /// Turns to reading, with the growth check that precedes every read.
    fn await_headers(&mut self) -> (action: Action)
        requires
            old(self)@.input.valid(),
            old(self)@.output.valid(),
            old(self)@.output.bytes.len() == 0,
            old(self)@.written == 0,
            old(self)@.input.increment == READ_INCREMENT,
            old(self)@.input.watermark == READ_WATERMARK,
            old(self)@.output.increment == RESPONSE_INCREMENT,
            old(self)@.output.watermark == 0,
        ensures
            final(self).wf(),
            final(self)@ == old(self)@.awaiting(),
            final(self).service() == old(self).service(),
            action == final(self)@.action(),
    {
        if self.read_buf.top_up() {
            self.phase = Phase::AwaitHeaders;
            Action::Read { max: self.read_buf.room() }
        } else {
            self.phase = Phase::Closed(CloseReason::Exhausted);
            Action::Close(CloseReason::Exhausted)
        }
    }

    /// Ends a cycle: resets both buffers and turns to reading.
    fn recycle(&mut self) -> (action: Action)
        requires
            old(self).wf(),
        ensures
            final(self).wf(),
            final(self)@ == old(self)@.recycled(),
            final(self).service() == old(self).service(),
            action == final(self)@.action(),
    {
        self.read_buf.reset();
        self.rsp_buf.reset();
        self.written = 0;
        self.await_headers()
    }

    /// Takes the outcome of a read: the bytes read, or the category of the
    /// failure. No bytes mean that the peer has closed. Bytes are appended
    /// to the read buffer and the buffer is scanned for the header
    /// terminator; a read that brought more than the room asked for grows
    /// the buffer in whole increments. Outside the phase `AwaitHeaders`
    /// nothing changes.
    pub fn on_read(&mut self, outcome: Result<&[u8], IoErrorKind>) -> (action: Action)
        requires
            old(self).wf(),
        ensures
            final(self).wf(),
            final(self).service() == old(self).service(),
            final(self)@ == old(self)@.after_read(read_outcome_view(outcome)),
            action == old(self)@.read_reply(read_outcome_view(outcome)),
    {
        if self.phase != Phase::AwaitHeaders {
            return self.resume();
        }
        match outcome {
            Ok(data) => {
                if data.len() == 0 {
                    self.close(CloseReason::PeerClosed)
                } else if !self.read_buf.append(data) {
                    self.close(CloseReason::Exhausted)
                } else if find_boundary(self.read_buf.as_slice()).is_some() {
                    self.phase = Phase::HaveHeaders;
                    Action::Decode
                } else {
                    self.await_headers()
                }
            },
            Err(kind) => {
                match classify(kind) {
                    Disposition::RetryLater => Action::AwaitReadable { max: self.read_buf.room() },
                    Disposition::BenignClose => self.close(CloseReason::ConnectionLost),
                    Disposition::Fatal => self.close(CloseReason::IoFailure),
                }
            },
        }
    }

    /// Takes the outcome of decoding the buffered input. A whole request is
    /// handed to the handler at once, in one call and with a blank response:
    /// where the call succeeds the response is what the handler staged;
    /// where it fails the response becomes the fallback and the connection
    /// goes on. In every other case the handler is not called. A failure of
    /// the decoder's own read is classified as that of any read; where it
    /// asks to retry, the caller waits and decodes again. Outside the phase
    /// `HaveHeaders` nothing changes.
    pub fn on_decoded(&mut self, outcome: DecodeOutcome) -> (action: Action)
        requires
            old(self).wf(),
        ensures
            final(self).wf(),
            action == final(self)@.action(),
            !(old(self)@.phase == Phase::HaveHeaders && outcome is Complete)
                ==> final(self).service() == old(self).service(),
            old(self)@.phase != Phase::HaveHeaders ==> final(self)@ == old(self)@,
            old(self)@.phase == Phase::HaveHeaders ==> match outcome {
                DecodeOutcome::Malformed => final(self)@ == old(self)@.closed(
                    CloseReason::Malformed,
                ),
                DecodeOutcome::NeedMoreData => final(self)@ == old(self)@.awaiting(),
                DecodeOutcome::Failed(kind) => final(self)@ == old(self)@.after_decode_failure(
                    kind,
                ),
                DecodeOutcome::Complete(req) => {
                    ||| {
                        &&& old(self).service().handles(
                            req@,
                            ResponseModel::blank(),
                            &final(self).service(),
                            final(self)@.response,
                            true,
                        )
                        &&& final(self)@ == old(self)@.after_dispatch(
                            Dispatched::Served,
                            final(self)@.response,
                        )
                    }
                    ||| exists|text: Seq<u8>, staged: ResponseModel|
                        {
                            &&& #[trigger] old(self).service().handles(
                                req@,
                                ResponseModel::blank(),
                                &final(self).service(),
                                staged,
                                false,
                            )
                            &&& final(self)@ == old(self)@.after_dispatch(
                                #[trigger] settled(Some(text)),
                                settled_response(ResponseModel::blank(), Some(text)),
                            )
                        }
                },
            },
    {
        if self.phase != Phase::HaveHeaders {
            return self.resume();
        }
        match outcome {
            DecodeOutcome::Malformed => self.close(CloseReason::Malformed),
            DecodeOutcome::NeedMoreData => self.await_headers(),
            DecodeOutcome::Failed(kind) => {
                match classify(kind) {
                    Disposition::RetryLater => Action::Decode,
                    Disposition::BenignClose => self.close(CloseReason::ConnectionLost),
                    Disposition::Fatal => self.close(CloseReason::IoFailure),
                }
            },
            DecodeOutcome::Complete(req) => {
                match dispatch(&mut self.service, req, &mut self.response) {
                    Dispatched::Served => {
                        self.fallback = false;
                        self.phase = Phase::Dispatched;
                        Action::Encode { fallback: false }
                    },
                    Dispatched::Failed => {
                        self.fallback = true;
                        self.phase = Phase::Dispatched;
                        Action::Encode { fallback: true }
                    },
                    Dispatched::Unanswerable => {
                        self.fallback = true;
                        self.close(CloseReason::Exhausted)
                    },
                }
            },
        }
    }

    /// Takes the encoded response. An empty one ends the cycle at once.
    /// Outside the phase `Dispatched` nothing changes.
    pub fn on_encoded(&mut self, bytes: &[u8]) -> (action: Action)
        requires
            old(self).wf(),
        ensures
            final(self).wf(),
            final(self).service() == old(self).service(),
            final(self)@ == old(self)@.after_encoded(bytes@),
            action == final(self)@.action(),
    {
        if self.phase != Phase::Dispatched {
            return self.resume();
        }
        if bytes.len() == 0 {
            self.recycle()
        } else if !self.rsp_buf.append(bytes) {
            self.close(CloseReason::Exhausted)
        } else {
            self.written = 0;
            self.phase = Phase::Responding;
            Action::Write
        }
    }

    /// Takes the outcome of a write of the pending output: how many bytes
    /// the socket took, or the category of the failure. Outside the phase
    /// `Responding` nothing changes.
    pub fn on_write(&mut self, outcome: Result<usize, IoErrorKind>) -> (action: Action)
        requires
            old(self).wf(),
        ensures
            final(self).wf(),
            final(self).service() == old(self).service(),
            final(self)@ == old(self)@.after_write(outcome),
            action == old(self)@.write_reply(outcome),
    {
        if self.phase != Phase::Responding {
            return self.resume();
        }
        match outcome {
            Ok(n) => {
                let remaining = self.rsp_buf.len() - self.written;
                if n == 0 {
                    self.close(CloseReason::PeerClosed)
                } else if n > remaining {
                    self.close(CloseReason::IoFailure)
                } else if n == remaining {
                    self.recycle()
                } else {
                    self.written = self.written + n;
                    Action::Write
                }
            },
            Err(kind) => {
                match classify(kind) {
                    Disposition::RetryLater => Action::AwaitWritable,
                    Disposition::BenignClose => self.close(CloseReason::ConnectionLost),
                    Disposition::Fatal => self.close(CloseReason::IoFailure),
                }
            },
        }
    }
}

} // verus!
