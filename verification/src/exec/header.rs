//! The fixed request header that opens every stream.

use vstd::prelude::*;
use std::ops::Range;
use crate::error::DbError;

verus! {

/// Bytes in a request header.
pub const HEADER_LEN: usize = 8;

/// The 16-bit value whose little-endian encoding is `lo`, `hi`.
pub open spec fn le_u16(lo: u8, hi: u8) -> u16 {
    (lo as int + 256 * (hi as int)) as u16
}

/// The 32-bit value whose little-endian encoding is `b0`, `b1`, `b2`, `b3`.
pub open spec fn le_u32(b0: u8, b1: u8, b2: u8, b3: u8) -> u32 {
    (b0 as int + 256 * (b1 as int) + 65536 * (b2 as int) + 16777216 * (b3 as int)) as u32
}

/// Whether `start..end` selects exactly `width` bytes that lie inside `len`.
pub open spec fn selects(start: usize, end: usize, width: int, len: int) -> bool {
    start + width == end && end <= len
}

/// Reads the little-endian `u16` at `range`, which must select two bytes of `input`.
pub fn read_u16(input: &[u8], range: Range<usize>) -> (r: Result<u16, DbError>)
    ensures
        match r {
            Ok(v) => selects(range.start, range.end, 2, input@.len() as int)
                && v == le_u16(input@[range.start as int], input@[range.start + 1]),
            Err(e) => e is InvalidArgument
                && !selects(range.start, range.end, 2, input@.len() as int),
        },
{
    let start: usize = range.start;
    let end: usize = range.end;
    if end > input.len() || end < 2 || end - 2 != start {
        return Err(DbError::InvalidArgument);
    }
    let lo: u16 = input[start] as u16;
    let hi: u16 = input[start + 1] as u16;
    Ok(lo + 256 * hi)
}

/// Reads the little-endian `u32` at `range`, which must select four bytes of `input`.
pub fn read_u32(input: &[u8], range: Range<usize>) -> (r: Result<u32, DbError>)
    ensures
        match r {
            Ok(v) => selects(range.start, range.end, 4, input@.len() as int)
                && v == le_u32(
                input@[range.start as int],
                input@[range.start + 1],
                input@[range.start + 2],
                input@[range.start + 3],
            ),
            Err(e) => e is InvalidArgument
                && !selects(range.start, range.end, 4, input@.len() as int),
        },
{
    let start: usize = range.start;
    let end: usize = range.end;
    if end > input.len() || end < 4 || end - 4 != start {
        return Err(DbError::InvalidArgument);
    }
    let b0: u32 = input[start] as u32;
    let b1: u32 = input[start + 1] as u32;
    let b2: u32 = input[start + 2] as u32;
    let b3: u32 = input[start + 3] as u32;
    Ok(b0 + 256 * b1 + 65536 * b2 + 16777216 * b3)
}

/// The header at the start of a stream: which procedure to run, addressed
/// through the connection's environment, and the transaction flags.
#[derive(Clone, Copy, Debug, PartialEq, Eq, Structural)]
pub struct StreamHeader {
    pub env: u16,
    pub iface: u16,
    pub procid: u16,
    pub continues: u16,
}

/// The header that the first eight bytes of `nb` encode.
pub open spec fn spec_header(nb: Seq<u8>) -> StreamHeader {
    StreamHeader {
        env: le_u16(nb[0], nb[1]),
        iface: le_u16(nb[2], nb[3]),
        procid: le_u16(nb[4], nb[5]),
        continues: le_u16(nb[6], nb[7]),
    }
}

/// The eight bytes that encode `h`.
pub open spec fn spec_header_bytes(h: StreamHeader) -> Seq<u8> {
    seq![
        (h.env % 256) as u8,
        (h.env / 256) as u8,
        (h.iface % 256) as u8,
        (h.iface / 256) as u8,
        (h.procid % 256) as u8,
        (h.procid / 256) as u8,
        (h.continues % 256) as u8,
        (h.continues / 256) as u8,
    ]
}

impl StreamHeader {
    /// Parses the header from the first packet of a stream. A packet shorter
    /// than eight bytes is rejected; bytes after the header are not looked at.
    pub fn new(nb: &[u8]) -> (r: Result<Self, DbError>)
        ensures
            match r {
                Ok(h) => nb@.len() >= HEADER_LEN && h == spec_header(nb@),
                Err(e) => e is InvalidArgument && nb@.len() < HEADER_LEN,
            },
    {
        if nb.len() < HEADER_LEN {
            return Err(DbError::InvalidArgument);
        }
        let env = read_u16(nb, 0..2)?;
        let iface = read_u16(nb, 2..4)?;
        let procid = read_u16(nb, 4..6)?;
        let continues = read_u16(nb, 6..8)?;
        Ok(StreamHeader { env, iface, procid, continues })
    }

    /// Whether this statement begins or continues a multi-statement
    /// transaction: bit 0 of the flags.
    pub fn will_continue(&self) -> (b: bool)
        ensures
            b == (self.continues % 2 == 1),
    {
        self.continues % 2 == 1
    }

    /// The wire encoding of this header.
    pub fn to_bytes(&self) -> (out: Vec<u8>)
        ensures
            out@ == spec_header_bytes(*self),
    {
        let mut out: Vec<u8> = Vec::new();
        out.push((self.env % 256) as u8);
        out.push((self.env / 256) as u8);
        out.push((self.iface % 256) as u8);
        out.push((self.iface / 256) as u8);
        out.push((self.procid % 256) as u8);
        out.push((self.procid / 256) as u8);
        out.push((self.continues % 256) as u8);
        out.push((self.continues / 256) as u8);
        out
    }
}

/// Whether a handle asks for its transaction to be carried on. The
/// server hands out even handles only; a client that wants to extend the
/// transaction a handle names sends the handle back with its low bit set.
pub fn is_continuation(handle: u64) -> (b: bool)
    ensures
        b == (handle % 2 == 1),
{
    handle % 2 == 1
}

/// The handle as the server handed it out: with its low bit clear.
pub fn transaction_of(handle: u64) -> (t: u64)
    ensures
        t == handle - handle % 2,
        t % 2 == 0,
{
    handle - handle % 2
}

/// The handle that asks for the transaction of `handle` to be carried on:
/// the same handle with its low bit set.
pub fn continuing(handle: u64) -> (c: u64)
    ensures
        c == handle - handle % 2 + 1,
        c % 2 == 1,
        c - c % 2 == handle - handle % 2,
{
    handle - handle % 2 + 1
}

/// Encoding a header and parsing the bytes gives the header back.
pub proof fn lemma_header_round_trip(h: StreamHeader)
    ensures
        spec_header_bytes(h).len() == HEADER_LEN,
        spec_header(spec_header_bytes(h)) == h,
{
}

} // verus!
