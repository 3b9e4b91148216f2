//! Growable byte buffers with watermark-triggered growth in fixed increments.
//!
//! A [`GrowBuffer`] keeps its bytes in a `bytes::BytesMut` and keeps a
//! capacity of its own beside it: the number of bytes it has agreed to hold.
//! That capacity changes by whole increments only, never falls, and survives
//! a reset. Whenever it grows, storage up to it is reserved, so that bytes
//! appended within it find their place ready.

use bytes::BytesMut;
use vstd::arithmetic::div_mod::*;
use vstd::prelude::*;

verus! {

/// `bytes::BytesMut`, of which nothing is known but what the items below
/// state.
#[verifier::external_type_specification]
#[verifier::external_body]
pub struct ExBytesMut(bytes::BytesMut);

/// The bytes that a `BytesMut` holds, in order.
pub uninterp spec fn stored(buf: BytesMut) -> Seq<u8>;

/// `BytesMut::with_capacity` returns a buffer that holds no bytes. It builds
/// a `Vec` of that capacity, which panics above `isize::MAX`. Taken on
/// trust, as are the four specifications that follow.
pub assume_specification[ BytesMut::with_capacity ](capacity: usize) -> (buf: BytesMut)
    requires
        capacity <= isize::MAX,
    ensures
        stored(buf) == Seq::<u8>::empty(),
;

/// `BytesMut::len` returns the number of bytes held.
pub assume_specification[ BytesMut::len ](buf: &BytesMut) -> (n: usize)
    ensures
        n == stored(*buf).len(),
;

/// `BytesMut::reserve` makes room for more bytes and leaves the bytes held
/// as they are. It panics where the length and the room asked for together
/// exceed what a `Vec` may allocate.
pub assume_specification[ BytesMut::reserve ](buf: &mut BytesMut, additional: usize)
    requires
        stored(*old(buf)).len() + additional <= isize::MAX,
    ensures
        stored(*final(buf)) == stored(*old(buf)),
;

/// `BytesMut::extend_from_slice` appends the given bytes after those held,
/// reserving room first as `BytesMut::reserve` does.
pub assume_specification[ BytesMut::extend_from_slice ](buf: &mut BytesMut, extend: &[u8])
    requires
        stored(*old(buf)).len() + extend@.len() <= isize::MAX,
    ensures
        stored(*final(buf)) == stored(*old(buf)) + extend@,
;

/// `BytesMut::clear` removes all bytes.
pub assume_specification[ BytesMut::clear ](buf: &mut BytesMut)
    ensures
        stored(*final(buf)) == Seq::<u8>::empty(),
;

/// Borrows the bytes held, through `BytesMut`'s `AsRef<[u8]>`, which hands
/// out the slice from the start of the buffer to its length. Taken on trust.
#[verifier::external_body]
pub(crate) fn stored_slice(buf: &BytesMut) -> (bytes: &[u8])
    ensures
        bytes@ == stored(*buf),
{
    buf.as_ref()
}

/// The largest capacity a buffer may reach: what one allocation can hold.
pub const MAX_CAPACITY: usize = isize::MAX as usize;

/// How many steps of size `increment` it takes to cover `deficit` bytes.
pub open spec fn increments_for(deficit: nat, increment: nat) -> nat {
    if deficit == 0 {
        0
    } else {
        ((deficit - 1) / (increment as int) + 1) as nat
    }
}

/// `increments_for` is the least number of steps that covers the deficit.
pub proof fn lemma_increments_for(deficit: nat, increment: nat)
    requires
        0 < increment,
    ensures
        deficit <= increment * increments_for(deficit, increment),
        increment * increments_for(deficit, increment) < deficit + increment,
        deficit > 0 ==> increments_for(deficit, increment) >= 1,
        0 < deficit <= increment ==> increments_for(deficit, increment) == 1,
{
    if deficit > 0 {
        let d = deficit - 1;
        let q = d / (increment as int);
        lemma_fundamental_div_mod(d, increment as int);
        lemma_mod_bound(d, increment as int);
        lemma_div_pos_is_pos(d, increment as int);
        assert(increment * (q + 1) == increment * q + increment) by (nonlinear_arith);
        if deficit <= increment {
            lemma_basic_div(d, increment as int);
        }
    } else {
        assert(increment * 0 == 0);
    }
}

/// The mathematical content of a [`GrowBuffer`].
pub struct BufferModel {
    /// The bytes held, oldest first.
    pub bytes: Seq<u8>,
    /// How many bytes the buffer may hold before it has to grow.
    pub capacity: nat,
    /// Free capacity below which the buffer grows before a read.
    pub watermark: nat,
    /// The step by which capacity grows.
    pub increment: nat,
}

impl BufferModel {
    /// The invariant of every buffer.
    pub open spec fn valid(self) -> bool {
        &&& 0 < self.increment
        &&& self.watermark <= self.increment
        &&& self.increment <= self.capacity <= MAX_CAPACITY
        &&& self.bytes.len() <= self.capacity
        &&& self.capacity % self.increment == 0
    }

    /// Free capacity.
    pub open spec fn room(self) -> nat {
        if self.bytes.len() <= self.capacity {
            (self.capacity - self.bytes.len()) as nat
        } else {
            0
        }
    }

    /// The least capacity, reached from the present one in whole increments,
    /// that holds `needed` bytes.
    pub open spec fn fitted_capacity(self, needed: nat) -> nat {
        if needed <= self.capacity {
            self.capacity
        } else {
            self.capacity + self.increment * increments_for(
                (needed - self.capacity) as nat,
                self.increment,
            )
        }
    }

    /// A new buffer: empty, with one increment of capacity.
    pub open spec fn fresh(increment: nat, watermark: nat) -> BufferModel {
        BufferModel { bytes: Seq::empty(), capacity: increment, watermark, increment }
    }

    /// The buffer after the growth check that precedes a read: one increment
    /// more where free capacity is below the watermark and the limit allows it.
    pub open spec fn topped_up(self) -> BufferModel {
        if self.room() < self.watermark && self.capacity + self.increment <= MAX_CAPACITY {
            BufferModel { capacity: self.capacity + self.increment, ..self }
        } else {
            self
        }
    }

    /// Whether `data` can be appended without passing the limit.
    pub open spec fn accepts(self, data: Seq<u8>) -> bool {
        self.fitted_capacity(self.bytes.len() + data.len()) <= MAX_CAPACITY
    }

    /// The buffer after appending `data`, grown in whole increments as far as
    /// needed; unchanged where that would pass the limit.
    pub open spec fn appended(self, data: Seq<u8>) -> BufferModel {
        if self.accepts(data) {
            BufferModel {
                bytes: self.bytes + data,
                capacity: self.fitted_capacity(self.bytes.len() + data.len()),
                ..self
            }
        } else {
            self
        }
    }

    /// The buffer after a reset: no bytes, capacity kept.
    pub open spec fn cleared(self) -> BufferModel {
        BufferModel { bytes: Seq::empty(), ..self }
    }

    /// The buffer after `bytes` arrived one byte per read, each read preceded
    /// by the growth check.
    pub open spec fn fed_bytewise(self, bytes: Seq<u8>) -> BufferModel
        decreases bytes.len(),
    {
        if bytes.len() == 0 {
            self
        } else {
            self.fed_bytewise(bytes.drop_last()).topped_up().appended(seq![bytes.last()])
        }
    }

    /// How many growth steps lie between this buffer and a later state of it.
    pub open spec fn growth_events(self, later: BufferModel) -> nat {
        if later.capacity <= self.capacity {
            0
        } else {
            ((later.capacity - self.capacity) / (self.increment as int)) as nat
        }
    }
}

/// The growth check keeps the bytes, never shrinks the buffer, and adds either
/// nothing or exactly one increment. Afterwards free capacity reaches the
/// watermark unless the limit stood in the way.
pub proof fn law_top_up_grows_one_increment(b: BufferModel)
    requires
        b.valid(),
    ensures
        b.topped_up().valid(),
        b.topped_up().bytes == b.bytes,
        b.topped_up().capacity == b.capacity || b.topped_up().capacity == b.capacity
            + b.increment,
        b.topped_up().capacity == b.capacity + b.increment <==> b.room() < b.watermark
            && b.capacity + b.increment <= MAX_CAPACITY,
        b.capacity + b.increment <= MAX_CAPACITY ==> b.topped_up().room() >= b.watermark,
{
    lemma_mod_adds(b.capacity as int, b.increment as int, b.increment as int);
    lemma_mod_self_0(b.increment as int);
}

/// Appending never shrinks the buffer and grows it only by whole increments,
/// and by no more than the new bytes need. Bytes that fit into free capacity
/// leave the capacity as it is.
pub proof fn law_append_grows_in_increments(b: BufferModel, data: Seq<u8>)
    requires
        b.valid(),
    ensures
        b.appended(data).valid(),
        b.appended(data).capacity >= b.capacity,
        (b.appended(data).capacity - b.capacity) % (b.increment as int) == 0,
        b.appended(data).capacity > b.capacity ==> b.appended(data).capacity < b.bytes.len()
            + data.len() + b.increment,
        data.len() <= b.room() ==> b.accepts(data) && b.appended(data).capacity == b.capacity,
        b.bytes.len() + data.len() + b.increment <= MAX_CAPACITY ==> b.accepts(data),
        b.accepts(data) ==> b.appended(data).bytes == b.bytes + data,
        !b.accepts(data) ==> b.appended(data) == b,
{
    let needed = b.bytes.len() + data.len();
    lemma_small_mod(0, b.increment);
    if needed > b.capacity {
        let deficit = (needed - b.capacity) as nat;
        let steps = increments_for(deficit, b.increment);
        lemma_increments_for(deficit, b.increment);
        lemma_mod_multiples_vanish(steps as int, b.capacity as int, b.increment as int);
        lemma_mod_multiples_basic(steps as int, b.increment as int);
        assert(b.increment * steps == steps * b.increment) by (nonlinear_arith);
    }
}

/// A reset leaves no bytes and keeps the capacity, and resetting again
/// changes nothing.
pub proof fn law_reset_is_idempotent(b: BufferModel)
    requires
        b.valid(),
    ensures
        b.cleared().valid(),
        b.cleared().bytes.len() == 0,
        b.cleared().capacity == b.capacity,
        b.cleared().room() == b.capacity,
        b.cleared().topped_up() == b.cleared(),
        b.cleared().cleared() == b.cleared(),
{
}

/// Feeding a new buffer one byte per read grows it only in whole increments,
/// never shrinks it, and takes no more growth steps than the number of
/// increments that the bytes fed would fill.
pub proof fn law_bytewise_growth_is_bounded(increment: nat, watermark: nat, bytes: Seq<u8>)
    requires
        0 < increment <= MAX_CAPACITY,
        watermark <= increment,
    ensures
        ({
            let start = BufferModel::fresh(increment, watermark);
            let end = start.fed_bytewise(bytes);
            &&& end.valid()
            &&& end.bytes.len() <= bytes.len()
            &&& end.capacity == start.capacity + increment * start.growth_events(end)
            &&& start.growth_events(end) <= increments_for(bytes.len(), increment)
        }),
{
    let start = BufferModel::fresh(increment, watermark);
    let end = start.fed_bytewise(bytes);
    lemma_bytewise_capacity(increment, watermark, bytes);
    lemma_growth_steps_bounded(start, end, bytes.len());
}

/// A buffer that began with one increment and now has a whole number of
/// increments, and that, if it has grown at all, has less than two
/// increments more than `held` bytes, has taken no more growth steps than
/// the number of increments that `held` bytes would fill.
pub proof fn lemma_growth_steps_bounded(start: BufferModel, end: BufferModel, held: nat)
    requires
        0 < start.increment,
        start.capacity == start.increment,
        start.increment <= end.capacity,
        end.capacity % start.increment == 0,
        end.capacity == start.increment || end.capacity < held + 2 * start.increment,
    ensures
        end.capacity == start.capacity + start.increment * start.growth_events(end),
        start.growth_events(end) <= increments_for(held, start.increment),
{
    let inc = start.increment as int;
    let grown = end.capacity - inc;
    lemma_fundamental_div_mod(grown, inc);
    lemma_mod_sub_multiples_vanish(end.capacity as int, inc);
    let steps = grown / inc;
    lemma_increments_for(held, start.increment);
    if grown > 0 {
        let bound = increments_for(held, start.increment) as int;
        assert(steps <= bound) by (nonlinear_arith)
            requires
                inc * steps == grown,
                grown < held + inc,
                held <= inc * bound,
                inc > 0,
        ;
    } else {
        assert(inc * 0 == 0);
    }
}

/// The capacity reached by bytewise feeding: a whole number of increments,
/// and, once grown, less than two increments above the bytes held.
proof fn lemma_bytewise_capacity(increment: nat, watermark: nat, bytes: Seq<u8>)
    requires
        0 < increment <= MAX_CAPACITY,
        watermark <= increment,
    ensures
        ({
            let end = BufferModel::fresh(increment, watermark).fed_bytewise(bytes);
            &&& end.valid()
            &&& end.increment == increment
            &&& end.watermark == watermark
            &&& end.bytes.len() <= bytes.len()
            &&& end.capacity >= increment
            &&& end.capacity == increment || end.capacity < end.bytes.len() + 2 * increment
        }),
    decreases bytes.len(),
{
    let start = BufferModel::fresh(increment, watermark);
    lemma_mod_self_0(increment as int);
    if bytes.len() > 0 {
        let before = start.fed_bytewise(bytes.drop_last());
        lemma_bytewise_capacity(increment, watermark, bytes.drop_last());
        law_top_up_grows_one_increment(before);
        let ready = before.topped_up();
        let one = seq![bytes.last()];
        law_append_grows_in_increments(ready, one);
    }
}

/// A byte buffer whose capacity grows only in fixed increments and is kept
/// across resets.
pub struct GrowBuffer {
    data: BytesMut,
    capacity: usize,
    watermark: usize,
    increment: usize,
}

impl View for GrowBuffer {
    type V = BufferModel;

    closed spec fn view(&self) -> BufferModel {
        BufferModel {
            bytes: stored(self.data),
            capacity: self.capacity as nat,
            watermark: self.watermark as nat,
            increment: self.increment as nat,
        }
    }
}

impl GrowBuffer {
    /// Well-formedness: the model satisfies the buffer invariant.
    pub open spec fn wf(&self) -> bool {
        self@.valid()
    }

    /// Creates an empty buffer with one increment of capacity, or `None`
    /// where the parameters admit no valid buffer.
    pub fn new(increment: usize, watermark: usize) -> (made: Option<GrowBuffer>)
        ensures
            made.is_some() <==> 0 < increment <= MAX_CAPACITY && watermark <= increment,
            made matches Some(buf) ==> buf.wf() && buf@ == BufferModel::fresh(
                increment as nat,
                watermark as nat,
            ),
    {
        if increment == 0 || increment > MAX_CAPACITY || watermark > increment {
            return None;
        }
        let data = BytesMut::with_capacity(increment);
        assert(increment as int % increment as int == 0) by (nonlinear_arith)
            requires
                increment > 0,
        ;
        Some(GrowBuffer { data, capacity: increment, watermark, increment })
    }

    /// The number of bytes held.
    pub fn len(&self) -> (n: usize)
        ensures
            n == self@.bytes.len(),
    {
        self.data.len()
    }

    /// Whether no bytes are held.
    pub fn is_empty(&self) -> (empty: bool)
        ensures
            empty == (self@.bytes.len() == 0),
    {
        self.data.len() == 0
    }

    /// The capacity.
    pub fn capacity(&self) -> (n: usize)
        ensures
            n == self@.capacity,
    {
        self.capacity
    }

    /// The watermark.
    pub fn watermark(&self) -> (n: usize)
        ensures
            n == self@.watermark,
    {
        self.watermark
    }

    /// The growth increment.
    pub fn increment(&self) -> (n: usize)
        ensures
            n == self@.increment,
    {
        self.increment
    }

    /// Free capacity.
    pub fn room(&self) -> (n: usize)
        requires
            self.wf(),
        ensures
            n == self@.room(),
    {
        self.capacity - self.data.len()
    }

    /// The bytes held.
    pub fn as_slice(&self) -> (bytes: &[u8])
        ensures
            bytes@ == self@.bytes,
    {
        stored_slice(&self.data)
    }

    /// The growth check that precedes a read: where free capacity is below
    /// the watermark, capacity grows by one increment, unless the limit
    /// forbids it. Returns whether free capacity now reaches the watermark.
    pub fn top_up(&mut self) -> (ok: bool)
        requires
            old(self).wf(),
        ensures
            final(self).wf(),
            final(self)@ == old(self)@.topped_up(),
            ok == (final(self)@.room() >= final(self)@.watermark),
    {
        let len = self.data.len();
        if self.capacity - len >= self.watermark {
            return true;
        }
        if self.increment > MAX_CAPACITY - self.capacity {
            return false;
        }
        proof {
            lemma_mod_adds(
                self.capacity as int,
                self.increment as int,
                self.increment as int,
            );
            lemma_mod_self_0(self.increment as int);
        }
        self.capacity = self.capacity + self.increment;
        self.data.reserve(self.capacity - len);
        true
    }

    /// Appends `data`, growing capacity in whole increments as far as needed.
    /// Where that would pass the limit the buffer stays as it is and the
    /// result is `false`.
    pub fn append(&mut self, data: &[u8]) -> (ok: bool)
        requires
            old(self).wf(),
        ensures
            final(self).wf(),
            ok == old(self)@.accepts(data@),
            final(self)@ == old(self)@.appended(data@),
    {
        let len = self.data.len();
        let ghost pre = self@;
        let ghost needed = (len + data.len()) as nat;
        let ghost deficit = if needed <= pre.capacity {
            0nat
        } else {
            (needed - pre.capacity) as nat
        };
        proof {
            lemma_increments_for(deficit, pre.increment);
        }
        if data.len() > MAX_CAPACITY - len {
            return false;
        }
        let needed_len = len + data.len();
        if needed_len > self.capacity {
            let steps = (needed_len - self.capacity - 1) / self.increment + 1;
            if steps > (MAX_CAPACITY - self.capacity) / self.increment {
                proof {
                    let free = (MAX_CAPACITY - pre.capacity) as int;
                    let inc = pre.increment as int;
                    lemma_fundamental_div_mod(free, inc);
                    lemma_mod_bound(free, inc);
                    assert(inc * (steps as int) >= inc * (free / inc + 1)) by (nonlinear_arith)
                        requires
                            steps as int >= free / inc + 1,
                            inc > 0,
                    ;
                    assert(inc * (free / inc + 1) == inc * (free / inc) + inc)
                        by (nonlinear_arith);
                }
                return false;
            }
            proof {
                let free = (MAX_CAPACITY - pre.capacity) as int;
                let inc = pre.increment as int;
                lemma_fundamental_div_mod(free, inc);
                lemma_mod_bound(free, inc);
                assert(inc * (steps as int) <= inc * (free / inc)) by (nonlinear_arith)
                    requires
                        steps as int <= free / inc,
                        inc > 0,
                ;
                lemma_mod_multiples_vanish(steps as int, pre.capacity as int, inc);
                assert(inc * (steps as int) == (steps as int) * inc) by (nonlinear_arith);
                assert(steps == increments_for(deficit, pre.increment));
            }
            self.capacity = self.capacity + steps * self.increment;
            self.data.reserve(self.capacity - len);
        }
        self.data.extend_from_slice(data);
        true
    }

    /// Empties the buffer and keeps its capacity.
    pub fn reset(&mut self)
        requires
            old(self).wf(),
        ensures
            final(self).wf(),
            final(self)@ == old(self)@.cleared(),
    {
        self.data.clear();
    }
}

} // verus!
