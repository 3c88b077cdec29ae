//! Small helpers for moving bytes between buffers.

use vstd::prelude::*;

verus! {

/// Appends `src` to `dst`.
pub fn append(dst: &mut Vec<u8>, src: &[u8])
    ensures
        final(dst)@ == old(dst)@ + src@,
{
    let mut i: usize = 0;
    while i < src.len()
        invariant
            i <= src@.len(),
            dst@ == old(dst)@ + src@.take(i as int),
        decreases src@.len() - i,
    {
        dst.push(src[i]);
        i += 1;
        assert(src@.take(i as int) == src@.take(i - 1).push(src@[i - 1]));
    }
    assert(src@.take(i as int) == src@);
}

/// A copy of `src` from index `start` on; empty when `start` is past the end.
pub fn tail(src: &[u8], start: usize) -> (out: Vec<u8>)
    ensures
        start <= src@.len() ==> out@ == src@.skip(start as int),
        start > src@.len() ==> out@.len() == 0,
{
    let mut out: Vec<u8> = Vec::new();
    let mut i: usize = start;
    while i < src.len()
        invariant
            start <= i,
            start <= src@.len() ==> i <= src@.len() && out@ == src@.subrange(
                start as int,
                i as int,
            ),
            start > src@.len() ==> out@.len() == 0,
        decreases src@.len() - i,
    {
        out.push(src[i]);
        i += 1;
        assert(src@.subrange(start as int, i as int) == src@.subrange(start as int, i - 1).push(
            src@[i - 1],
        ));
    }
    assert(start <= src@.len() ==> src@.subrange(start as int, src@.len() as int) == src@.skip(
        start as int,
    ));
    out
}

} // verus!
