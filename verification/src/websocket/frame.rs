//! The wire format of a frame header.
//!
//! A header is two base bytes (fin bit, 4-bit opcode; mask bit, 7-bit
//! length), then a 16-bit big-endian length if the 7-bit length is 126 or
//! a 64-bit big-endian length if it is 127, then a 4-byte mask key if the
//! mask bit is set.

use vstd::prelude::*;

verus! {

/// The longest a header can be: base, 64-bit length and mask key.
pub const MAX_HEADER_LEN: usize = 14;

/// The kinds of frame that carry message data.
#[derive(Clone, Copy, Debug, PartialEq, Eq, Structural)]
pub enum Opcode {
    /// A further frame of the message in progress.
    Continuation,
    /// The first frame of a text message.
    Text,
    /// The first frame of a binary message.
    Binary,
}

impl Opcode {
    /// The opcode's number on the wire.
    pub open spec fn code(self) -> u8 {
        match self {
            Opcode::Continuation => 0,
            Opcode::Text => 1,
            Opcode::Binary => 2,
        }
    }

    /// The opcode's number on the wire.
    pub fn to_u8(self) -> (c: u8)
        ensures
            c == self.code(),
    {
        match self {
            Opcode::Continuation => 0,
            Opcode::Text => 1,
            Opcode::Binary => 2,
        }
    }
}

/// A frame header.
#[derive(Clone, Copy, Debug)]
pub struct FrameHeader {
    /// Whether this is the last frame of its message.
    pub fin: bool,
    pub opcode: Opcode,
    /// The key the payload is masked with, if it is masked.
    pub mask: Option<[u8; 4]>,
    /// The payload's length in bytes.
    pub len: u64,
}

/// What the bytes at the start of a frame amount to.
#[derive(Clone, Copy, Debug)]
pub enum HeaderParse {
    /// The header is not all there yet.
    Incomplete,
    /// The frame is a close frame.
    Closed,
    /// The frame has an opcode other than continuation, text and binary.
    Unsupported,
    /// A header, and the number of bytes it takes up.
    Header(FrameHeader, usize),
}

/// The 7-bit length field for a payload of `len` bytes.
pub open spec fn len7(len: u64) -> u8 {
    if len <= 125 {
        len as u8
    } else if len <= 65535 {
        126
    } else {
        127
    }
}

/// The number of extended-length bytes that follow a 7-bit length field.
pub open spec fn ext_len(field: u8) -> int {
    if field == 126 {
        2
    } else if field == 127 {
        8
    } else {
        0
    }
}

/// `v` as two big-endian bytes.
pub open spec fn be16(v: u64) -> Seq<u8> {
    seq![(v / 0x100 % 0x100) as u8, (v % 0x100) as u8]
}

/// `v` as eight big-endian bytes.
pub open spec fn be64(v: u64) -> Seq<u8> {
    seq![
        (v / 0x100_0000_0000_0000 % 0x100) as u8,
        (v / 0x1_0000_0000_0000 % 0x100) as u8,
        (v / 0x100_0000_0000 % 0x100) as u8,
        (v / 0x1_0000_0000 % 0x100) as u8,
        (v / 0x100_0000 % 0x100) as u8,
        (v / 0x1_0000 % 0x100) as u8,
        (v / 0x100 % 0x100) as u8,
        (v % 0x100) as u8,
    ]
}

/// The value of the two big-endian bytes of `b` at `at`.
pub open spec fn from_be16(b: Seq<u8>, at: int) -> u64 {
    (b[at] as int * 0x100 + b[at + 1] as int) as u64
}

/// The value of the eight big-endian bytes of `b` at `at`.
pub open spec fn from_be64(b: Seq<u8>, at: int) -> u64 {
    (b[at] as int * 0x100_0000_0000_0000 + b[at + 1] as int * 0x1_0000_0000_0000 + b[at + 2] as int
        * 0x100_0000_0000 + b[at + 3] as int * 0x1_0000_0000 + b[at + 4] as int * 0x100_0000 + b[at
        + 5] as int * 0x1_0000 + b[at + 6] as int * 0x100 + b[at + 7] as int) as u64
}

/// The extended-length bytes for a payload of `len` bytes: none up to 125,
/// two up to 65535, eight beyond.
pub open spec fn spec_extended(len: u64) -> Seq<u8> {
    if len <= 125 {
        Seq::empty()
    } else if len <= 65535 {
        be16(len)
    } else {
        be64(len)
    }
}

/// The bytes a mask key takes up in a header.
pub open spec fn spec_key_bytes(mask: Option<[u8; 4]>) -> Seq<u8> {
    match mask {
        Some(key) => key@,
        None => Seq::empty(),
    }
}

/// The two base bytes of header `h`.
pub open spec fn spec_base(h: FrameHeader) -> Seq<u8> {
    seq![
        ((if h.fin {
            128int
        } else {
            0int
        }) + h.opcode.code()) as u8,
        ((if h.mask is Some {
            128int
        } else {
            0int
        }) + len7(h.len)) as u8,
    ]
}

/// The wire encoding of header `h`.
pub open spec fn spec_encode_header(h: FrameHeader) -> Seq<u8> {
    spec_base(h) + spec_extended(h.len) + spec_key_bytes(h.mask)
}

/// The number of bytes the wire encoding of `h` takes up.
pub open spec fn spec_header_len(h: FrameHeader) -> int {
    2 + ext_len(len7(h.len)) + if h.mask is Some {
        4int
    } else {
        0int
    }
}

/// The payload length a header that starts `b` announces, given its 7-bit
/// length field.
pub open spec fn spec_payload_len(b: Seq<u8>, field: u8) -> u64 {
    if field == 126 {
        from_be16(b, 2)
    } else if field == 127 {
        from_be64(b, 2)
    } else {
        field as u64
    }
}

/// What the bytes `b`, taken from the start of a frame, amount to.
///
/// The opcode is judged as soon as the two base bytes are there. The
/// three reserved bits of the first byte are not looked at.
pub open spec fn spec_parse_header(b: Seq<u8>) -> HeaderParse {
    if b.len() < 2 {
        HeaderParse::Incomplete
    } else {
        let code = b[0] % 16;
        let field = b[1] % 128;
        let masked = b[1] >= 128;
        let need = 2 + ext_len(field) + if masked {
            4int
        } else {
            0int
        };
        if code == 8 {
            HeaderParse::Closed
        } else if code > 2 {
            HeaderParse::Unsupported
        } else if b.len() < need {
            HeaderParse::Incomplete
        } else {
            let at = 2 + ext_len(field);
            HeaderParse::Header(
                FrameHeader {
                    fin: b[0] >= 128,
                    opcode: if code == 0 {
                        Opcode::Continuation
                    } else if code == 1 {
                        Opcode::Text
                    } else {
                        Opcode::Binary
                    },
                    mask: if masked {
                        Some([b[at], b[at + 1], b[at + 2], b[at + 3]])
                    } else {
                        None
                    },
                    len: spec_payload_len(b, field),
                },
                need as usize,
            )
        }
    }
}

/// Appends the wire encoding of `h` to `out`.
pub fn encode_header(h: &FrameHeader, out: &mut Vec<u8>)
    ensures
        final(out)@ == old(out)@ + spec_encode_header(*h),
{
    let fin_bit: u8 = if h.fin {
        128
    } else {
        0
    };
    let mask_bit: u8 = if h.mask.is_some() {
        128
    } else {
        0
    };
    let len: u64 = h.len;
    out.push(fin_bit + h.opcode.to_u8());
    if len <= 125 {
        out.push(mask_bit + len as u8);
        assert(out@ == old(out)@ + (spec_base(*h) + spec_extended(len)));
    } else if len <= 65535 {
        out.push(mask_bit + 126);
        out.push((len / 0x100 % 0x100) as u8);
        out.push((len % 0x100) as u8);
        assert(out@ == old(out)@ + (spec_base(*h) + spec_extended(len)));
    } else {
        out.push(mask_bit + 127);
        out.push((len / 0x100_0000_0000_0000 % 0x100) as u8);
        out.push((len / 0x1_0000_0000_0000 % 0x100) as u8);
        out.push((len / 0x100_0000_0000 % 0x100) as u8);
        out.push((len / 0x1_0000_0000 % 0x100) as u8);
        out.push((len / 0x100_0000 % 0x100) as u8);
        out.push((len / 0x1_0000 % 0x100) as u8);
        out.push((len / 0x100 % 0x100) as u8);
        out.push((len % 0x100) as u8);
        assert(out@ == old(out)@ + (spec_base(*h) + spec_extended(len)));
    }
    let ghost mid = out@;
    match h.mask {
        Some(key) => {
            out.push(key[0]);
            out.push(key[1]);
            out.push(key[2]);
            out.push(key[3]);
            assert(out@ == mid + key@);
        },
        None => {
            assert(out@ == mid + Seq::<u8>::empty());
        },
    }
    assert(out@ == old(out)@ + spec_encode_header(*h));
}

/// Judges the bytes at the start of a frame.
pub fn parse_header(b: &[u8]) -> (r: HeaderParse)
    ensures
        r == spec_parse_header(b@),
{
    if b.len() < 2 {
        return HeaderParse::Incomplete;
    }
    let code: u8 = b[0] % 16;
    let field: u8 = b[1] % 128;
    let masked: bool = b[1] >= 128;
    if code == 8 {
        return HeaderParse::Closed;
    }
    if code > 2 {
        return HeaderParse::Unsupported;
    }
    let ext: usize = if field == 126 {
        2
    } else if field == 127 {
        8
    } else {
        0
    };
    let key_len: usize = if masked {
        4
    } else {
        0
    };
    let need: usize = 2 + ext + key_len;
    if b.len() < need {
        return HeaderParse::Incomplete;
    }
    let len: u64 = if field == 126 {
        (b[2] as u64) * 0x100 + (b[3] as u64)
    } else if field == 127 {
        (b[2] as u64) * 0x100_0000_0000_0000 + (b[3] as u64) * 0x1_0000_0000_0000 + (b[4] as u64)
            * 0x100_0000_0000 + (b[5] as u64) * 0x1_0000_0000 + (b[6] as u64) * 0x100_0000 + (
        b[7] as u64) * 0x1_0000 + (b[8] as u64) * 0x100 + (b[9] as u64)
    } else {
        field as u64
    };
    let at: usize = 2 + ext;
    let mask: Option<[u8; 4]> = if masked {
        Some([b[at], b[at + 1], b[at + 2], b[at + 3]])
    } else {
        None
    };
    let opcode = if code == 0 {
        Opcode::Continuation
    } else if code == 1 {
        Opcode::Text
    } else {
        Opcode::Binary
    };
    HeaderParse::Header(FrameHeader { fin: b[0] >= 128, opcode, mask, len }, need)
}

/// The length of an encoded header: lengths up to 125 fit the base header,
/// lengths from 126 to 65535 take the 16-bit extension, and lengths from
/// 65536 on take the 64-bit extension.
pub proof fn lemma_header_len(h: FrameHeader)
    ensures
        spec_encode_header(h).len() == spec_header_len(h),
        spec_header_len(h) <= MAX_HEADER_LEN,
        h.len <= 125 ==> len7(h.len) == h.len && spec_extended(h.len).len() == 0,
        126 <= h.len <= 65535 ==> len7(h.len) == 126 && spec_extended(h.len).len() == 2,
        65536 <= h.len ==> len7(h.len) == 127 && spec_extended(h.len).len() == 8,
{
}

/// The eight base-256 digits of a 64-bit value add up to the value.
pub proof fn lemma_digits(v: u64)
    ensures
        v <= 65535 ==> (v / 0x100 % 0x100) * 0x100 + v % 0x100 == v,
        (v / 0x100_0000_0000_0000 % 0x100) * 0x100_0000_0000_0000 + (v / 0x1_0000_0000_0000
            % 0x100) * 0x1_0000_0000_0000 + (v / 0x100_0000_0000 % 0x100) * 0x100_0000_0000 + (v
            / 0x1_0000_0000 % 0x100) * 0x1_0000_0000 + (v / 0x100_0000 % 0x100) * 0x100_0000 + (v
            / 0x1_0000 % 0x100) * 0x1_0000 + (v / 0x100 % 0x100) * 0x100 + v % 0x100 == v,
{
    let q1 = v / 0x100;
    let q2 = q1 / 0x100;
    let q3 = q2 / 0x100;
    let q4 = q3 / 0x100;
    let q5 = q4 / 0x100;
    let q6 = q5 / 0x100;
    let q7 = q6 / 0x100;
    assert(q2 == v / 0x1_0000);
    assert(q3 == v / 0x100_0000);
    assert(q4 == v / 0x1_0000_0000);
    assert(q5 == v / 0x100_0000_0000);
    assert(q6 == v / 0x1_0000_0000_0000);
    assert(q7 == v / 0x100_0000_0000_0000);
    assert(q7 < 0x100);
    assert(v == q1 * 0x100 + v % 0x100);
    assert(q1 == q2 * 0x100 + q1 % 0x100);
    assert(q2 == q3 * 0x100 + q2 % 0x100);
    assert(q3 == q4 * 0x100 + q3 % 0x100);
    assert(q4 == q5 * 0x100 + q4 % 0x100);
    assert(q5 == q6 * 0x100 + q5 % 0x100);
    assert(q6 == q7 * 0x100 + q6 % 0x100);
}

/// A value written as two or eight big-endian bytes reads back as itself.
pub proof fn lemma_be_round_trip(v: u64, before: Seq<u8>, after: Seq<u8>)
    ensures
        v <= 65535 ==> from_be16(before + be16(v) + after, before.len() as int) == v,
        from_be64(before + be64(v) + after, before.len() as int) == v,
{
    let at = before.len() as int;
    let s = before + be16(v) + after;
    assert(s[at] == be16(v)[0]);
    assert(s[at + 1] == be16(v)[1]);
    let t = before + be64(v) + after;
    assert(t[at] == be64(v)[0]);
    assert(t[at + 1] == be64(v)[1]);
    assert(t[at + 2] == be64(v)[2]);
    assert(t[at + 3] == be64(v)[3]);
    assert(t[at + 4] == be64(v)[4]);
    assert(t[at + 5] == be64(v)[5]);
    assert(t[at + 6] == be64(v)[6]);
    assert(t[at + 7] == be64(v)[7]);
    lemma_digits(v);
}

/// Parsing an encoded header gives the header back, whatever follows it.
pub proof fn lemma_parse_encoded(h: FrameHeader, rest: Seq<u8>)
    ensures
        spec_parse_header(spec_encode_header(h) + rest) matches HeaderParse::Header(g, n) && g.fin
            == h.fin && g.opcode == h.opcode && g.len == h.len && g.mask == h.mask && n
            == spec_header_len(h),
{
    let e = spec_encode_header(h);
    let b = e + rest;
    lemma_header_len(h);
    assert(b[0] == spec_base(h)[0]);
    assert(b[1] == spec_base(h)[1]);
    let field = b[1] % 128;
    assert(field == len7(h.len));
    lemma_be_round_trip(h.len, spec_base(h), spec_key_bytes(h.mask) + rest);
    if 126 <= h.len <= 65535 {
        assert(b =~= spec_base(h) + be16(h.len) + (spec_key_bytes(h.mask) + rest));
    } else if h.len > 65535 {
        assert(b =~= spec_base(h) + be64(h.len) + (spec_key_bytes(h.mask) + rest));
    }
    assert(spec_payload_len(b, field) == h.len);
    match h.mask {
        Some(key) => {
            let at = 2 + ext_len(field);
            assert(b[at] == key@[0]);
            assert(b[at + 1] == key@[1]);
            assert(b[at + 2] == key@[2]);
            assert(b[at + 3] == key@[3]);
            let got = [b[at], b[at + 1], b[at + 2], b[at + 3]];
            assert(got@ =~= key@);
            assert(got == key);
        },
        None => {},
    }
}

/// Judging a header needs no more than its own bytes: bytes after the
/// first fourteen never matter, and a header once complete stays the same
/// when more bytes follow.
pub proof fn lemma_parse_prefix(b: Seq<u8>, n: int)
    requires
        0 <= n <= b.len(),
        n >= MAX_HEADER_LEN || !(spec_parse_header(b.take(n)) is Incomplete),
    ensures
        spec_parse_header(b.take(n)) == spec_parse_header(b),
{
    let p = b.take(n);
    if n >= 2 {
        assert(p[0] == b[0]);
        assert(p[1] == b[1]);
        let field = b[1] % 128;
        let at = 2 + ext_len(field);
        if spec_parse_header(p) is Header {
            assert(p[2] == b[2] || field < 126);
            assert(field == 127 ==> p[3] == b[3] && p[4] == b[4] && p[5] == b[5] && p[6] == b[6]
                && p[7] == b[7] && p[8] == b[8] && p[9] == b[9]);
            assert(field == 126 ==> p[3] == b[3]);
            assert(b[1] >= 128 ==> p[at] == b[at] && p[at + 1] == b[at + 1] && p[at
                + 2] == b[at + 2] && p[at + 3] == b[at + 3]);
        }
    }
}

/// A header that is complete within `b` is already complete within any
/// prefix of `b` that holds all of its bytes.
pub proof fn lemma_parse_complete(b: Seq<u8>, k: int)
    requires
        0 <= k <= b.len(),
        spec_parse_header(b) matches HeaderParse::Header(h, n) && n <= k,
    ensures
        spec_parse_header(b.take(k)) == spec_parse_header(b),
{
    let p = b.take(k);
    assert(p[0] == b[0]);
    assert(p[1] == b[1]);
    let field = b[1] % 128;
    let at = 2 + ext_len(field);
    assert(p[2] == b[2] || field < 126);
    assert(field == 127 ==> p[3] == b[3] && p[4] == b[4] && p[5] == b[5] && p[6] == b[6] && p[7]
        == b[7] && p[8] == b[8] && p[9] == b[9]);
    assert(field == 126 ==> p[3] == b[3]);
    assert(b[1] >= 128 ==> p[at] == b[at] && p[at + 1] == b[at + 1] && p[at + 2] == b[at + 2]
        && p[at + 3] == b[at + 3]);
}

} // verus!
