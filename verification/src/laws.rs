//! What holds of every connection: boundary detection, growth of the read
//! buffer, write resumption, the order of write and read, the reset at the
//! end of a cycle, and the containment of a handler's failure.

use crate::boundary::{
    fires_at, gathered, has_boundary, header_terminator, law_boundary_fires_when_complete,
    law_boundary_persists, law_boundary_stays_found, occurs_at,
};
use crate::buffer::{
    increments_for, law_append_grows_in_increments, law_reset_is_idempotent,
    law_top_up_grows_one_increment, lemma_growth_steps_bounded, MAX_CAPACITY,
};
use crate::classify::IoErrorKind;
use crate::message::ResponseModel;
use crate::protocol::{
    Action, CloseReason, ConnectionModel, Phase, READ_INCREMENT, RESPONSE_INCREMENT,
};
use crate::service::{settled, settled_response};
use vstd::arithmetic::div_mod::*;
use vstd::prelude::*;

verus! {

/// The number of turns at which the socket takes bytes.
pub open spec fn accepting_turns(turns: Seq<Option<usize>>) -> nat
    decreases turns.len(),
{
    if turns.len() == 0 {
        0
    } else {
        accepting_turns(turns.drop_last()) + if turns.last() is Some {
            1nat
        } else {
            0nat
        }
    }
}

/// A connection and the bytes that its socket has taken in a run of writes.
pub struct Drain {
    pub state: ConnectionModel,
    pub sent: Seq<u8>,
}

impl ConnectionModel {
    /// The write phase run against a socket that, turn by turn, either takes
    /// up to so many of the bytes offered (`Some`) or would block (`None`).
    /// Each turn offers the pending output; the run ends with the phase.
    pub open spec fn drained(self, turns: Seq<Option<usize>>) -> Drain
        decreases turns.len(),
    {
        if turns.len() == 0 {
            Drain { state: self, sent: Seq::empty() }
        } else {
            let before = self.drained(turns.drop_last());
            if before.state.phase != Phase::Responding {
                before
            } else {
                match turns.last() {
                    None => Drain {
                        state: before.state.after_write(Err(IoErrorKind::WouldBlock)),
                        sent: before.sent,
                    },
                    Some(chunk) => {
                        let offered = before.state.pending_output();
                        let taken = if chunk <= offered.len() {
                            chunk
                        } else {
                            offered.len() as usize
                        };
                        Drain {
                            state: before.state.after_write(Ok(taken)),
                            sent: before.sent + offered.take(taken as int),
                        }
                    },
                }
            }
        }
    }

    /// The connection after the first `n` of `chunks` were read, one chunk
    /// per read.
    pub open spec fn after_reads(self, chunks: Seq<Seq<u8>>, n: nat) -> ConnectionModel
        decreases n,
    {
        if n == 0 {
            self
        } else {
            self.after_reads(chunks, (n - 1) as nat).after_read(Ok(chunks[n - 1]))
        }
    }
}

/// Whether both buffers of `later` have the capacity they have in `earlier`
/// or a whole number of increments more.
pub open spec fn grown_in_increments(earlier: ConnectionModel, later: ConnectionModel) -> bool {
    &&& earlier.input.capacity <= later.input.capacity
    &&& (later.input.capacity - earlier.input.capacity) % (READ_INCREMENT as int) == 0
    &&& earlier.output.capacity <= later.output.capacity
    &&& (later.output.capacity - earlier.output.capacity) % (RESPONSE_INCREMENT as int) == 0
}

/// What holds of a new connection after `n` reads that brought bytes.
proof fn lemma_after_reads(chunks: Seq<Seq<u8>>, n: nat)
    requires
        n <= chunks.len(),
        forall|i: int| 0 <= i < chunks.len() ==> chunks[i].len() > 0,
    ensures
        ({
            let c = ConnectionModel::fresh().after_reads(chunks, n);
            &&& c.valid()
            &&& c.phase == Phase::HaveHeaders || c.phase == Phase::AwaitHeaders || c.phase
                == Phase::Closed(CloseReason::Exhausted)
            &&& c.phase == Phase::HaveHeaders ==> has_boundary(gathered(chunks, n))
            &&& c.phase == Phase::HaveHeaders ==> forall|k: nat|
                k <= n && fires_at(chunks, k) ==> c.input.bytes == gathered(chunks, k)
            &&& c.phase == Phase::AwaitHeaders ==> !has_boundary(gathered(chunks, n))
                && c.input.bytes == gathered(chunks, n)
            &&& gathered(chunks, n).len() + 2 * READ_INCREMENT <= MAX_CAPACITY ==> c.phase
                != Phase::Closed(CloseReason::Exhausted)
            &&& c.input.capacity == READ_INCREMENT || c.input.capacity < c.input.bytes.len() + 2
                * READ_INCREMENT
            &&& c.input.bytes.len() <= gathered(chunks, n).len()
            &&& n > 0 ==> {
                let before = ConnectionModel::fresh().after_reads(chunks, (n - 1) as nat);
                &&& before.input.capacity <= c.input.capacity
                &&& (c.input.capacity - before.input.capacity) % (READ_INCREMENT as int) == 0
            }
        }),
    decreases n,
{
    let start = ConnectionModel::fresh();
    let c = start.after_reads(chunks, n);
    lemma_mod_self_0(READ_INCREMENT as int);
    lemma_mod_self_0(RESPONSE_INCREMENT as int);
    lemma_small_mod(0, READ_INCREMENT as nat);
    if n == 0 {
        assert(c == start);
        assert(gathered(chunks, 0).len() == 0);
        if has_boundary(gathered(chunks, 0)) {
            let i = choose|i: int| occurs_at(gathered(chunks, 0), header_terminator(), i);
            assert(header_terminator().len() == 4);
            assert(false);
        }
        assert(c.input.bytes =~= gathered(chunks, 0));
    } else {
        let m = (n - 1) as nat;
        let before = start.after_reads(chunks, m);
        let data = chunks[n - 1];
        assert(gathered(chunks, n) == gathered(chunks, m) + data);
        assert(c == before.after_read(Ok(data)));
        lemma_after_reads(chunks, m);
        if before.phase == Phase::HaveHeaders {
            assert(c == before);
            law_boundary_persists(gathered(chunks, m), data);
            assert forall|k: nat| k <= n && fires_at(chunks, k) implies c.input.bytes == gathered(
                chunks,
                k,
            ) by {
                if k == n {
                    assert(!has_boundary(gathered(chunks, m)));
                } else {
                    assert(k <= m);
                }
            }
        } else if before.phase == Phase::AwaitHeaders {
            assert(before.input.bytes == gathered(chunks, m));
            law_append_grows_in_increments(before.input, data);
            let fed = before.input.appended(data);
            if before.input.accepts(data) {
                assert(fed.bytes == gathered(chunks, n));
                law_top_up_grows_one_increment(fed);
                assert(fed.capacity == READ_INCREMENT || fed.capacity < fed.bytes.len() + 2
                    * READ_INCREMENT);
                if has_boundary(gathered(chunks, n)) {
                    assert(c.phase == Phase::HaveHeaders);
                    assert(c.input == fed);
                    assert(fires_at(chunks, n));
                } else {
                    assert(c.input == fed.topped_up());
                    lemma_mod_adds(
                        fed.capacity - before.input.capacity,
                        READ_INCREMENT as int,
                        READ_INCREMENT as int,
                    );
                }
                assert forall|k: nat| k <= n && fires_at(chunks, k) implies c.input.bytes
                    == gathered(chunks, k) by {
                    if k < n {
                        law_boundary_stays_found(chunks, k, m);
                        assert(false);
                    }
                }
            } else {
                assert(c == before.closed(CloseReason::Exhausted));
            }
        } else {
            assert(c == before);
        }
    }
}

/// Boundary detection: however a stream is split into reads, a new
/// connection holds `HaveHeaders` only once the terminator is complete in
/// the bytes that have arrived, and then since the one read at which the
/// boundary fired, with the bytes up to that read and no later ones
/// buffered. While the terminator is not complete it keeps reading, holds
/// all bytes and has nothing to write. Nothing else happens, unless the
/// bytes come within two increments of the largest allocation.
pub proof fn law_boundary_detection(chunks: Seq<Seq<u8>>, n: nat)
    requires
        n <= chunks.len(),
        forall|i: int| 0 <= i < chunks.len() ==> chunks[i].len() > 0,
    ensures
        ({
            let c = ConnectionModel::fresh().after_reads(chunks, n);
            &&& c.phase == Phase::HaveHeaders || c.phase == Phase::AwaitHeaders || c.phase
                == Phase::Closed(CloseReason::Exhausted)
            &&& c.phase == Phase::HaveHeaders ==> has_boundary(gathered(chunks, n))
            &&& c.phase == Phase::HaveHeaders ==> exists|k: nat|
                k <= n && fires_at(chunks, k) && c.input.bytes == gathered(chunks, k)
            &&& c.phase == Phase::HaveHeaders ==> c.action() == Action::Decode
            &&& c.phase == Phase::AwaitHeaders ==> {
                &&& !has_boundary(gathered(chunks, n))
                &&& c.input.bytes == gathered(chunks, n)
                &&& c.action() == Action::Read { max: c.input.room() as usize }
                &&& c.pending_output().len() == 0
            }
            &&& c.phase == Phase::Closed(CloseReason::Exhausted) ==> gathered(chunks, n).len() + 2
                * READ_INCREMENT > MAX_CAPACITY
        }),
{
    let c = ConnectionModel::fresh().after_reads(chunks, n);
    lemma_after_reads(chunks, n);
    if c.phase == Phase::HaveHeaders {
        law_boundary_fires_when_complete(chunks, n);
        let k = choose|k: nat| k <= n && fires_at(chunks, k);
        assert(k <= n && fires_at(chunks, k) && c.input.bytes == gathered(chunks, k));
    }
}

/// Growth of the read buffer: with every read its capacity stays or grows by
/// whole increments, and after any number of reads the growth steps taken
/// are no more than the number of increments that the bytes held would fill.
pub proof fn law_read_buffer_growth(chunks: Seq<Seq<u8>>, n: nat)
    requires
        n <= chunks.len(),
        forall|i: int| 0 <= i < chunks.len() ==> chunks[i].len() > 0,
    ensures
        ({
            let start = ConnectionModel::fresh();
            let c = start.after_reads(chunks, n);
            &&& c.input.valid()
            &&& c.input.capacity == READ_INCREMENT + READ_INCREMENT * start.input.growth_events(
                c.input,
            )
            &&& start.input.growth_events(c.input) <= increments_for(
                c.input.bytes.len(),
                READ_INCREMENT as nat,
            )
            &&& n > 0 ==> {
                let before = start.after_reads(chunks, (n - 1) as nat);
                &&& before.input.capacity <= c.input.capacity
                &&& (c.input.capacity - before.input.capacity) % (READ_INCREMENT as int) == 0
            }
        }),
{
    let start = ConnectionModel::fresh();
    let c = start.after_reads(chunks, n);
    lemma_after_reads(chunks, n);
    lemma_growth_steps_bounded(start.input, c.input, c.input.bytes.len());
}

/// A handler's failure is answered and goes no further: the connection
/// stays open in the phase `Dispatched`, its buffers untouched, and asks for
/// the encoding of a response with status 500 whose body is the failure's
/// text; once that is encoded the cycle goes on as after any other response.
/// Only a text or an encoding too long for one allocation ends the
/// connection instead, without a response.
pub proof fn law_failed_handler_is_answered(c: ConnectionModel, text: Seq<u8>, encoded: Seq<u8>)
    requires
        c.valid(),
        c.phase == Phase::HaveHeaders,
        0 < encoded.len(),
    ensures
        ({
            let after = c.after_dispatch(
                settled(Some(text)),
                settled_response(ResponseModel::blank(), Some(text)),
            );
            let next = after.after_encoded(encoded);
            &&& after.valid()
            &&& after.input == c.input
            &&& after.output == c.output
            &&& after.response.status == 500
            &&& text.len() > MAX_CAPACITY ==> after.phase == Phase::Closed(CloseReason::Exhausted)
            &&& text.len() <= MAX_CAPACITY ==> {
                &&& after.phase == Phase::Dispatched
                &&& after.action() == Action::Encode { fallback: true }
                &&& after.response == ResponseModel::internal_error(text)
                &&& next.phase == Phase::Responding || next.phase == Phase::Closed(
                    CloseReason::Exhausted,
                )
                &&& next.phase == Phase::Responding ==> next.pending_output() == encoded
                &&& encoded.len() + RESPONSE_INCREMENT <= MAX_CAPACITY ==> next.phase
                    == Phase::Responding
            }
        }),
{
    let after = c.after_dispatch(
        settled(Some(text)),
        settled_response(ResponseModel::blank(), Some(text)),
    );
    law_append_grows_in_increments(after.output, encoded);
    assert(after.output.bytes + encoded =~= encoded);
    assert(encoded.skip(0) =~= encoded);
}

/// Every transition keeps the connection invariant.
pub proof fn law_transitions_keep_invariant(
    c: ConnectionModel,
    read: Result<Seq<u8>, IoErrorKind>,
    decode_failure: IoErrorKind,
    encoded: Seq<u8>,
    write: Result<usize, IoErrorKind>,
)
    requires
        c.valid(),
    ensures
        c.after_read(read).valid(),
        c.after_decode_failure(decode_failure).valid(),
        c.after_encoded(encoded).valid(),
        c.after_write(write).valid(),
{
    law_cycle_end_resets_buffers(c);
    if let Ok(data) = read {
        law_append_grows_in_increments(c.input, data);
        law_top_up_grows_one_increment(c.input.appended(data));
    }
    law_append_grows_in_increments(c.output, encoded);
}

/// No transition shrinks a buffer: the capacity of the read buffer and of
/// the response buffer stays or grows, by whole increments.
pub proof fn law_capacity_never_shrinks(
    c: ConnectionModel,
    read: Result<Seq<u8>, IoErrorKind>,
    decode_failure: IoErrorKind,
    encoded: Seq<u8>,
    write: Result<usize, IoErrorKind>,
)
    requires
        c.valid(),
    ensures
        grown_in_increments(c, c.after_read(read)),
        grown_in_increments(c, c.after_decode_failure(decode_failure)),
        grown_in_increments(c, c.after_encoded(encoded)),
        grown_in_increments(c, c.after_write(write)),
        grown_in_increments(c, c.awaiting()),
        grown_in_increments(c, c.recycled()),
{
    lemma_small_mod(0, READ_INCREMENT as nat);
    lemma_small_mod(0, RESPONSE_INCREMENT as nat);
    lemma_mod_self_0(READ_INCREMENT as int);
    law_cycle_end_resets_buffers(c);
    law_top_up_grows_one_increment(c.input);
    if let Ok(data) = read {
        law_append_grows_in_increments(c.input, data);
        let fed = c.input.appended(data);
        law_top_up_grows_one_increment(fed);
        lemma_mod_adds(
            fed.capacity - c.input.capacity,
            READ_INCREMENT as int,
            READ_INCREMENT as int,
        );
    }
    law_append_grows_in_increments(c.output, encoded);
}

/// The end of a cycle leaves both buffers empty with their capacity as it
/// was, returns the connection to reading, and is idempotent.
pub proof fn law_cycle_end_resets_buffers(c: ConnectionModel)
    requires
        c.valid(),
    ensures
        c.recycled().valid(),
        c.recycled().phase == Phase::AwaitHeaders,
        c.recycled().input.bytes.len() == 0,
        c.recycled().input.capacity == c.input.capacity,
        c.recycled().output.bytes.len() == 0,
        c.recycled().output.capacity == c.output.capacity,
        c.recycled().written == 0,
        c.recycled().recycled() == c.recycled(),
{
    law_reset_is_idempotent(c.input);
    law_reset_is_idempotent(c.output);
}

/// While a response is being written no read begins: the connection leaves
/// the phase `Responding` for `AwaitHeaders` only by the write that takes the
/// last pending byte; a write that would block changes nothing, and so does
/// any outcome of a read or of the encoder reported meanwhile.
pub proof fn law_write_completes_before_next_read(
    c: ConnectionModel,
    write: Result<usize, IoErrorKind>,
    read: Result<Seq<u8>, IoErrorKind>,
    encoded: Seq<u8>,
)
    requires
        c.valid(),
        c.phase == Phase::Responding,
    ensures
        c.after_write(write).phase == Phase::AwaitHeaders <==> write == Ok::<
            usize,
            IoErrorKind,
        >((c.output.bytes.len() - c.written) as usize),
        c.after_write(Err(IoErrorKind::WouldBlock)) == c,
        c.write_reply(Err(IoErrorKind::WouldBlock)) == Action::AwaitWritable,
        c.after_read(read) == c,
        c.after_encoded(encoded) == c,
{
    law_cycle_end_resets_buffers(c);
}

/// Write resumption: against a socket that takes the response in any chunks
/// with any number of turns on which it would block, the bytes taken are at
/// every moment the pending bytes from the start up to the write cursor, in
/// order and with none twice or missing; once the phase ends they are all of
/// them; and it ends after at most as many taking turns as there are bytes.
pub proof fn law_write_resumption(c: ConnectionModel, turns: Seq<Option<usize>>)
    requires
        c.valid(),
        c.phase == Phase::Responding,
        forall|i: int| 0 <= i < turns.len() ==> turns[i] != Some(0usize),
    ensures
        ({
            let end = c.drained(turns);
            &&& end.state.valid()
            &&& end.state.phase == Phase::Responding ==> {
                &&& end.state.output == c.output
                &&& c.written + accepting_turns(turns) <= end.state.written
                &&& end.sent == c.output.bytes.subrange(
                    c.written as int,
                    end.state.written as int,
                )
            }
            &&& end.state.phase != Phase::Responding ==> {
                &&& end.state.phase == Phase::AwaitHeaders
                &&& end.sent == c.pending_output()
                &&& end.state.output.bytes.len() == 0
            }
            &&& accepting_turns(turns) >= c.pending_output().len() ==> end.state.phase
                != Phase::Responding
        }),
    decreases turns.len(),
{
    let end = c.drained(turns);
    if turns.len() == 0 {
        assert(end.sent =~= c.output.bytes.subrange(c.written as int, c.written as int));
    } else {
        let before = c.drained(turns.drop_last());
        law_write_resumption(c, turns.drop_last());
        if before.state.phase == Phase::Responding {
            let s = before.state;
            law_cycle_end_resets_buffers(s);
            match turns.last() {
                None => {},
                Some(chunk) => {
                    assert(turns[turns.len() - 1] != Some(0usize));
                    let offered = s.pending_output();
                    let taken = if chunk <= offered.len() {
                        chunk
                    } else {
                        offered.len() as usize
                    };
                    let all = c.output.bytes;
                    assert(before.sent + offered.take(taken as int) =~= all.subrange(
                        c.written as int,
                        s.written + taken,
                    ));
                    assert(all.subrange(c.written as int, all.len() as int) =~= c.pending_output());
                },
            }
        }
    }
}

} // verus!
