//! Detection of the end of an HTTP header block inside buffered input.

use vstd::prelude::*;

verus! {

/// Whether `needle` occurs in `haystack` starting at index `i`.
pub open spec fn occurs_at(haystack: Seq<u8>, needle: Seq<u8>, i: int) -> bool {
    &&& 0 <= i
    &&& i + needle.len() <= haystack.len()
    &&& haystack.subrange(i, i + needle.len()) == needle
}

/// The four bytes that end a header block: CR LF CR LF.
pub open spec fn header_terminator() -> Seq<u8> {
    seq![13u8, 10u8, 13u8, 10u8]
}

/// Whether the complete header terminator is present somewhere in `bytes`.
pub open spec fn has_boundary(bytes: Seq<u8>) -> bool {
    exists|i: int| occurs_at(bytes, header_terminator(), i)
}

/// Whether `i` is the start of the last occurrence of the terminator in `bytes`.
pub open spec fn is_last_boundary(bytes: Seq<u8>, i: int) -> bool {
    &&& occurs_at(bytes, header_terminator(), i)
    &&& forall|j: int| i < j ==> !occurs_at(bytes, header_terminator(), j)
}

/// Calls `memchr::memmem::rfind`, which returns the index of the last
/// occurrence of `needle` in `haystack`, or `None` when there is none.
/// The contract restates that for a needle that is not empty; it is taken
/// on trust.
#[verifier::external_body]
fn rfind_bytes(haystack: &[u8], needle: &[u8]) -> (found: Option<usize>)
    requires
        needle@.len() > 0,
    ensures
        match found {
            Some(i) => occurs_at(haystack@, needle@, i as int) && forall|j: int|
                i < j ==> !occurs_at(haystack@, needle@, j),
            None => forall|j: int| !occurs_at(haystack@, needle@, j),
        },
{
    memchr::memmem::rfind(haystack, needle)
}

/// Scans `buf` from its end for the header terminator and returns where its
/// last occurrence starts.
pub fn find_boundary(buf: &[u8]) -> (found: Option<usize>)
    ensures
        found.is_some() == has_boundary(buf@),
        found matches Some(i) ==> is_last_boundary(buf@, i as int),
{
    let needle: [u8; 4] = [13, 10, 13, 10];
    assert(needle@ =~= header_terminator());
    assert(needle@.len() == 4);
    rfind_bytes(buf, needle.as_slice())
}

/// The bytes buffered once the first `n` of `chunks` have been read.
pub open spec fn gathered(chunks: Seq<Seq<u8>>, n: nat) -> Seq<u8>
    decreases n,
{
    if n == 0 {
        Seq::empty()
    } else {
        gathered(chunks, (n - 1) as nat) + chunks[n - 1]
    }
}

/// Whether the boundary is found by the scan after the `n`-th read and was
/// not found after the read before it.
pub open spec fn fires_at(chunks: Seq<Seq<u8>>, n: nat) -> bool {
    &&& 1 <= n <= chunks.len()
    &&& has_boundary(gathered(chunks, n))
    &&& !has_boundary(gathered(chunks, (n - 1) as nat))
}

/// A terminator that is present stays present when more bytes arrive.
pub proof fn law_boundary_persists(buffered: Seq<u8>, more: Seq<u8>)
    requires
        has_boundary(buffered),
    ensures
        has_boundary(buffered + more),
{
    let t = header_terminator();
    let i = choose|i: int| occurs_at(buffered, t, i);
    assert((buffered + more).subrange(i, i + t.len()) =~= buffered.subrange(i, i + t.len()));
    assert(occurs_at(buffered + more, t, i));
}

/// Once found, the boundary is found after every later read.
pub proof fn law_boundary_stays_found(chunks: Seq<Seq<u8>>, m: nat, n: nat)
    requires
        m <= n,
        has_boundary(gathered(chunks, m)),
    ensures
        has_boundary(gathered(chunks, n)),
    decreases n,
{
    if m < n {
        law_boundary_stays_found(chunks, m, (n - 1) as nat);
        law_boundary_persists(gathered(chunks, (n - 1) as nat), chunks[n - 1]);
    }
}

/// However the stream is split into reads, the boundary fires at one read
/// only.
pub proof fn law_boundary_fires_once(chunks: Seq<Seq<u8>>, m: nat, n: nat)
    requires
        fires_at(chunks, m),
        fires_at(chunks, n),
    ensures
        m == n,
{
    if m < n {
        law_boundary_stays_found(chunks, m, (n - 1) as nat);
    } else if n < m {
        law_boundary_stays_found(chunks, n, (m - 1) as nat);
    }
}

/// Where the bytes read so far hold the terminator, the boundary has fired
/// at one of the reads so far.
pub proof fn law_boundary_fires_when_complete(chunks: Seq<Seq<u8>>, n: nat)
    requires
        n <= chunks.len(),
        has_boundary(gathered(chunks, n)),
    ensures
        exists|k: nat| k <= n && fires_at(chunks, k),
    decreases n,
{
    if n == 0 {
        let i = choose|i: int| occurs_at(gathered(chunks, 0), header_terminator(), i);
        assert(header_terminator().len() == 4);
        assert(false);
    } else if has_boundary(gathered(chunks, (n - 1) as nat)) {
        law_boundary_fires_when_complete(chunks, (n - 1) as nat);
    } else {
        assert(fires_at(chunks, n));
    }
}

/// The boundary never fires early: at the read where it fires, every
/// terminator in the buffer ends inside the bytes of that read.
pub proof fn law_boundary_fires_on_last_byte(chunks: Seq<Seq<u8>>, n: nat, i: int)
    requires
        fires_at(chunks, n),
        occurs_at(gathered(chunks, n), header_terminator(), i),
    ensures
        gathered(chunks, (n - 1) as nat).len() < i + header_terminator().len(),
{
    let t = header_terminator();
    let before = gathered(chunks, (n - 1) as nat);
    let after = gathered(chunks, n);
    if i + t.len() <= before.len() {
        assert(before.subrange(i, i + t.len()) =~= after.subrange(i, i + t.len()));
        assert(occurs_at(before, t, i));
    }
}

} // verus!
