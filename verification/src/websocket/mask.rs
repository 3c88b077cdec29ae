//! Payload masking: byte `i` of a frame's payload is XORed with byte
//! `i mod 4` of the frame's key.

use vstd::prelude::*;

verus! {

/// `data` masked with `key`, where `data` starts at byte `offset` of its
/// frame's payload.
pub open spec fn spec_mask(key: [u8; 4], offset: int, data: Seq<u8>) -> Seq<u8> {
    Seq::new(data.len(), |i: int| data[i] ^ key@[(offset + i) % 4])
}

/// `data` as it crosses the wire: masked when there is a key, unchanged
/// when there is none.
pub open spec fn spec_transfer(mask: Option<[u8; 4]>, offset: int, data: Seq<u8>) -> Seq<u8> {
    match mask {
        Some(key) => spec_mask(key, offset, data),
        None => data,
    }
}

/// Appends `src[start..end]` to `out` as it crosses the wire, where
/// `src[start]` is byte `offset` of its frame's payload. Masking and
/// unmasking are the same operation.
pub fn copy_masked(
    mask: &Option<[u8; 4]>,
    offset: u64,
    src: &[u8],
    start: usize,
    end: usize,
    out: &mut Vec<u8>,
)
    requires
        start <= end <= src@.len(),
    ensures
        final(out)@ == old(out)@ + spec_transfer(
            *mask,
            offset as int,
            src@.subrange(start as int, end as int),
        ),
{
    let ghost data = src@.subrange(start as int, end as int);
    let phase: usize = (offset % 4) as usize;
    let mut i: usize = start;
    while i < end
        invariant
            start <= i <= end <= src@.len(),
            phase == offset % 4,
            data == src@.subrange(start as int, end as int),
            out@ == old(out)@ + spec_transfer(*mask, offset as int, data.take(i - start)),
        decreases end - i,
    {
        let ghost done = spec_transfer(*mask, offset as int, data.take(i - start));
        let b: u8 = src[i];
        let at: usize = (phase + (i - start) % 4) % 4;
        assert(at == (offset + (i - start)) % 4);
        let w: u8 = match mask {
            Some(key) => b ^ key[at],
            None => b,
        };
        out.push(w);
        i += 1;
        assert(data.take(i - start) == data.take(i - start - 1).push(b));
        assert(spec_transfer(*mask, offset as int, data.take(i - start)) == done.push(w));
    }
    assert(data.take(end - start) == data);
}

/// Masking twice with the same key, from the same offset, restores the
/// bytes as they were.
pub proof fn lemma_mask_involution(key: [u8; 4], offset: int, data: Seq<u8>)
    ensures
        spec_mask(key, offset, spec_mask(key, offset, data)) == data,
{
    let once = spec_mask(key, offset, data);
    let twice = spec_mask(key, offset, once);
    assert forall|i: int| 0 <= i < data.len() implies twice[i] == data[i] by {
        let a = data[i];
        let k = key@[(offset + i) % 4];
        assert((a ^ k) ^ k == a) by (bit_vector);
    }
    assert(twice =~= data);
}

/// Sending bytes across the wire twice under the same mask restores them.
pub proof fn lemma_transfer_involution(mask: Option<[u8; 4]>, offset: int, data: Seq<u8>)
    ensures
        spec_transfer(mask, offset, spec_transfer(mask, offset, data)) == data,
        spec_transfer(mask, offset, data).len() == data.len(),
{
    match mask {
        Some(key) => lemma_mask_involution(key, offset, data),
        None => {},
    }
}

/// Masking a payload in two pieces gives the same bytes as masking it
/// whole, as long as the second piece carries on at the offset where the
/// first one stopped.
pub proof fn lemma_transfer_split(mask: Option<[u8; 4]>, offset: int, a: Seq<u8>, b: Seq<u8>)
    ensures
        spec_transfer(mask, offset, a + b) == spec_transfer(mask, offset, a) + spec_transfer(
            mask,
            offset + a.len(),
            b,
        ),
{
    match mask {
        Some(key) => {
            let whole = spec_mask(key, offset, a + b);
            let parts = spec_mask(key, offset, a) + spec_mask(key, offset + a.len(), b);
            assert forall|i: int| 0 <= i < whole.len() implies whole[i] == parts[i] by {
                if i >= a.len() {
                    assert((a + b)[i] == b[i - a.len()]);
                    assert(offset + i == offset + a.len() + (i - a.len()));
                }
            }
            assert(whole =~= parts);
        },
        None => {},
    }
}

} // verus!
