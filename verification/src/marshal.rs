//! Byte-for-byte marshaling of syscall records into user memory.
//!
//! A record written into a user buffer may straddle a page boundary, so the
//! platform's buffer-marshaling collaborator hands back a sequence of
//! contiguous fragments of the caller's buffer.  The functions here produce
//! the record's exact byte image (field order and widths are part of the
//! syscall contract) and split it over such fragments, each fragment
//! receiving the next contiguous run of bytes.

use vstd::prelude::*;

use crate::syscall::TimeVal;

verus! {

/// The `n`-byte little-endian image of `x`.
pub open spec fn le_bytes(x: nat, n: nat) -> Seq<u8>
    decreases n,
{
    if n == 0 {
        Seq::empty()
    } else {
        seq![(x % 256) as u8] + le_bytes(x / 256, (n - 1) as nat)
    }
}

/// A little-endian image has exactly its requested width.
pub proof fn lemma_le_bytes_len(x: nat, n: nat)
    ensures
        le_bytes(x, n).len() == n,
    decreases n,
{
    if n > 0 {
        lemma_le_bytes_len(x / 256, (n - 1) as nat);
    }
}

/// The byte image of a machine word, least significant byte first.
pub fn word_to_le_bytes(x: usize) -> (r: Vec<u8>)
    ensures
        r@ == le_bytes(x as nat, 8),
        r@.len() == 8,
{
    let mut out: Vec<u8> = Vec::new();
    let mut rest = x;
    let mut i: usize = 0;
    while i < 8
        invariant
            i <= 8,
            out@.len() == i,
            le_bytes(x as nat, 8) == out@ + le_bytes(rest as nat, (8 - i) as nat),
        decreases 8 - i,
    {
        let b = (rest % 256) as u8;
        proof {
            assert(le_bytes(rest as nat, (8 - i) as nat) == seq![b] + le_bytes(
                rest as nat / 256,
                (8 - (i + 1)) as nat,
            ));
            assert(out@ + le_bytes(rest as nat, (8 - i) as nat) =~= out@.push(b) + le_bytes(
                rest as nat / 256,
                (8 - (i + 1)) as nat,
            ));
        }
        out.push(b);
        rest = rest / 256;
        i = i + 1;
    }
    proof {
        assert(out@ + le_bytes(rest as nat, 0) =~= out@);
        lemma_le_bytes_len(x as nat, 8);
    }
    out
}

/// The byte image of a time record: seconds, then microseconds, each an
/// eight-byte little-endian word.
pub open spec fn time_val_bytes_spec(t: TimeVal) -> Seq<u8> {
    le_bytes(t.sec as nat, 8) + le_bytes(t.usec as nat, 8)
}

/// Serialises a time record exactly as it is written into user memory.
pub fn time_val_bytes(t: &TimeVal) -> (r: Vec<u8>)
    ensures
        r@ == time_val_bytes_spec(*t),
        r@.len() == 16,
{
    let mut out = word_to_le_bytes(t.sec);
    let mut tail = word_to_le_bytes(t.usec);
    out.append(&mut tail);
    out
}

/// Sum of the fragment lengths before fragment `i`: the offset into the
/// record at which fragment `i` starts.
pub open spec fn frag_offset(frags: Seq<usize>, i: int) -> int
    decreases i,
{
    if i <= 0 {
        0
    } else {
        frag_offset(frags, i - 1) + frags[i - 1]
    }
}

/// Splits a record over contiguous buffer fragments: fragment `i` receives
/// the `frags[i]` bytes of the record starting at the sum of the earlier
/// fragment lengths, so the fragments together are exactly the record.
pub fn scatter_record(record: &Vec<u8>, frags: &Vec<usize>) -> (out: Vec<Vec<u8>>)
    requires
        frag_offset(frags@, frags@.len() as int) == record@.len(),
    ensures
        out@.len() == frags@.len(),
        forall|i: int|
            0 <= i < frags@.len() ==> (#[trigger] out@[i])@ == record@.subrange(
                frag_offset(frags@, i),
                frag_offset(frags@, i) + frags@[i],
            ),
{
    let mut out: Vec<Vec<u8>> = Vec::new();
    let rlen = record.len();
    let mut offset: usize = 0;
    let mut i: usize = 0;
    proof {
        lemma_frag_offset_grows(frags@, 0, frags@.len() as int);
    }
    while i < frags.len()
        invariant
            i <= frags@.len(),
            out@.len() == i,
            rlen == record@.len(),
            offset == frag_offset(frags@, i as int),
            frag_offset(frags@, frags@.len() as int) == record@.len(),
            forall|j: int|
                0 <= j < i ==> (#[trigger] out@[j])@ == record@.subrange(
                    frag_offset(frags@, j),
                    frag_offset(frags@, j) + frags@[j],
                ),
        decreases frags@.len() - i,
    {
        proof {
            lemma_frag_offset_grows(frags@, i as int + 1, frags@.len() as int);
        }
        let flen = frags[i];
        let mut piece: Vec<u8> = Vec::new();
        let mut j: usize = 0;
        while j < flen
            invariant
                j <= flen,
                piece@.len() == j,
                rlen == record@.len(),
                offset + flen <= rlen,
                piece@ == record@.subrange(offset as int, offset as int + j as int),
            decreases flen - j,
        {
            let b = record[offset + j];
            proof {
                assert(record@.subrange(offset as int, offset as int + j as int + 1)
                    =~= record@.subrange(offset as int, offset as int + j as int).push(b));
            }
            piece.push(b);
            j = j + 1;
        }
        out.push(piece);
        offset = offset + flen;
        i = i + 1;
    }
    out
}

/// Fragment offsets only grow: the offset of fragment `i` never exceeds the
/// offset of any later fragment.
pub proof fn lemma_frag_offset_grows(frags: Seq<usize>, i: int, j: int)
    requires
        0 <= i <= j <= frags.len(),
    ensures
        frag_offset(frags, i) <= frag_offset(frags, j),
        frag_offset(frags, i) >= 0,
    decreases j,
{
    if j > i {
        lemma_frag_offset_grows(frags, i, j - 1);
    } else if i > 0 {
        lemma_frag_offset_grows(frags, i - 1, i - 1);
    }
}

} // verus!
