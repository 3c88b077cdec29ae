//! How a response travels back to the peer: tagged with the id of the
//! stream it answers, so that the peer can tell its answers apart.
//!
//! A response is the stream id as eight little-endian bytes, one byte
//! that tells what follows, and then either result bytes or an error
//! code as four little-endian bytes in two's complement.

use vstd::prelude::*;
use crate::bytes::append;
use crate::exec::model::{Response, ResponseModel};
use crate::websocket::frame::{lemma_digits, Opcode};
use crate::websocket::framer::{spec_write_message, FrameError, Framer};

verus! {

/// Marks result bytes that do not complete their stream.
pub const REPLY_PART: u8 = 0;

/// Marks the result bytes that complete their stream.
pub const REPLY_LAST: u8 = 1;

/// Marks an error code.
pub const REPLY_ERROR: u8 = 2;

/// The bytes in front of a response's payload: stream id and mark.
pub const REPLY_HEAD: usize = 9;

/// `v` as eight little-endian bytes.
pub open spec fn le64(v: u64) -> Seq<u8> {
    seq![
        (v % 0x100) as u8,
        (v / 0x100 % 0x100) as u8,
        (v / 0x1_0000 % 0x100) as u8,
        (v / 0x100_0000 % 0x100) as u8,
        (v / 0x1_0000_0000 % 0x100) as u8,
        (v / 0x100_0000_0000 % 0x100) as u8,
        (v / 0x1_0000_0000_0000 % 0x100) as u8,
        (v / 0x100_0000_0000_0000 % 0x100) as u8,
    ]
}

/// The value of the first eight bytes of `b`, read as little-endian.
pub open spec fn from_le64(b: Seq<u8>) -> u64 {
    (b[0] as int + b[1] as int * 0x100 + b[2] as int * 0x1_0000 + b[3] as int * 0x100_0000 + b[4] as int
        * 0x1_0000_0000 + b[5] as int * 0x100_0000_0000 + b[6] as int * 0x1_0000_0000_0000 + b[7] as int
        * 0x100_0000_0000_0000) as u64
}

/// An error code as an unsigned 32-bit word, in two's complement.
pub open spec fn spec_code_word(code: i32) -> u64 {
    if code >= 0 {
        code as u64
    } else {
        (code + 0x1_0000_0000) as u64
    }
}

/// `v`, which is below 2^32, as four little-endian bytes.
pub open spec fn le32(v: u64) -> Seq<u8> {
    seq![
        (v % 0x100) as u8,
        (v / 0x100 % 0x100) as u8,
        (v / 0x1_0000 % 0x100) as u8,
        (v / 0x100_0000 % 0x100) as u8,
    ]
}

/// The mark of a response.
pub open spec fn spec_mark(r: ResponseModel) -> u8 {
    match r {
        ResponseModel::Data { complete, .. } => if complete {
            REPLY_LAST
        } else {
            REPLY_PART
        },
        ResponseModel::Error { .. } => REPLY_ERROR,
    }
}

/// The stream a response answers.
pub open spec fn spec_stream(r: ResponseModel) -> u64 {
    match r {
        ResponseModel::Data { streamid, .. } => streamid,
        ResponseModel::Error { streamid, .. } => streamid,
    }
}

/// What follows the mark of a response.
pub open spec fn spec_payload(r: ResponseModel) -> Seq<u8> {
    match r {
        ResponseModel::Data { bytes, .. } => bytes,
        ResponseModel::Error { code, .. } => le32(spec_code_word(code)),
    }
}

/// The bytes a response is sent as.
pub open spec fn spec_encode_response(r: ResponseModel) -> Seq<u8> {
    le64(spec_stream(r)).push(spec_mark(r)) + spec_payload(r)
}

/// Appends `v` as eight little-endian bytes.
fn push_le64(out: &mut Vec<u8>, v: u64)
    ensures
        final(out)@ == old(out)@ + le64(v),
{
    out.push((v % 0x100) as u8);
    out.push((v / 0x100 % 0x100) as u8);
    out.push((v / 0x1_0000 % 0x100) as u8);
    out.push((v / 0x100_0000 % 0x100) as u8);
    out.push((v / 0x1_0000_0000 % 0x100) as u8);
    out.push((v / 0x100_0000_0000 % 0x100) as u8);
    out.push((v / 0x1_0000_0000_0000 % 0x100) as u8);
    out.push((v / 0x100_0000_0000_0000 % 0x100) as u8);
    assert(out@ =~= old(out)@ + le64(v));
}

/// The bytes a response is sent as.
pub fn encode_response(r: &Response) -> (out: Vec<u8>)
    ensures
        out@ == spec_encode_response(r@),
{
    let mut out: Vec<u8> = Vec::new();
    match r {
        Response::Data { connection: _, streamid, bytes, complete } => {
            push_le64(&mut out, *streamid);
            out.push(
                if *complete {
                    REPLY_LAST
                } else {
                    REPLY_PART
                },
            );
            append(&mut out, bytes.as_slice());
            assert(out@ =~= spec_encode_response(r@));
        },
        Response::Error { connection: _, streamid, code } => {
            push_le64(&mut out, *streamid);
            out.push(REPLY_ERROR);
            let wide: i64 = *code as i64;
            let word: u64 = if wide >= 0 {
                wide as u64
            } else {
                (wide + 0x1_0000_0000) as u64
            };
            assert(word == spec_code_word(*code));
            out.push((word % 0x100) as u8);
            out.push((word / 0x100 % 0x100) as u8);
            out.push((word / 0x1_0000 % 0x100) as u8);
            out.push((word / 0x100_0000 % 0x100) as u8);
            assert(out@ =~= spec_encode_response(r@));
        },
    }
    out
}

/// The stream that a received response answers and its mark; `None` when
/// the bytes are too few to hold them.
pub fn response_head(bytes: &[u8]) -> (r: Option<(u64, u8)>)
    ensures
        match r {
            Some((stream, mark)) => bytes@.len() >= REPLY_HEAD && stream == from_le64(bytes@)
                && mark == bytes@[8],
            None => bytes@.len() < REPLY_HEAD,
        },
{
    if bytes.len() < REPLY_HEAD {
        return None;
    }
    let stream: u64 = (bytes[0] as u64) + (bytes[1] as u64) * 0x100 + (bytes[2] as u64) * 0x1_0000
        + (bytes[3] as u64) * 0x100_0000 + (bytes[4] as u64) * 0x1_0000_0000 + (bytes[5] as u64)
        * 0x100_0000_0000 + (bytes[6] as u64) * 0x1_0000_0000_0000 + (bytes[7] as u64)
        * 0x100_0000_0000_0000;
    Some((stream, bytes[8]))
}

/// A response read back names the stream it answers, carries its mark,
/// and holds its payload after the head.
pub proof fn lemma_response_round_trip(r: ResponseModel)
    ensures
        spec_encode_response(r).len() == REPLY_HEAD + spec_payload(r).len(),
        from_le64(spec_encode_response(r)) == spec_stream(r),
        spec_encode_response(r)[8] == spec_mark(r),
        spec_encode_response(r).skip(REPLY_HEAD as int) == spec_payload(r),
{
    let e = spec_encode_response(r);
    let v = spec_stream(r);
    lemma_digits(v);
    assert(e[0] == le64(v)[0] && e[1] == le64(v)[1] && e[2] == le64(v)[2] && e[3] == le64(v)[3]);
    assert(e[4] == le64(v)[4] && e[5] == le64(v)[5] && e[6] == le64(v)[6] && e[7] == le64(v)[7]);
    assert(e.skip(REPLY_HEAD as int) =~= spec_payload(r));
}

/// Writes a response as one whole binary message: its bytes, tagged
/// with its stream, in one final frame.
pub fn frame_response(f: &mut Framer, r: &Response, mask: Option<[u8; 4]>, out: &mut Vec<u8>) -> (res:
    Result<(), FrameError>)
    requires
        old(f).wf(),
    ensures
        final(f).wf(),
        final(f)@ == spec_write_message(
            old(f)@,
            Opcode::Binary,
            spec_encode_response(r@),
            mask,
        ).next,
        final(out)@ == old(out)@ + spec_write_message(
            old(f)@,
            Opcode::Binary,
            spec_encode_response(r@),
            mask,
        ).sent,
        res == spec_write_message(old(f)@, Opcode::Binary, spec_encode_response(r@), mask).outcome,
{
    let bytes = encode_response(r);
    f.write_message(Opcode::Binary, bytes.as_slice(), mask, out)
}

} // verus!
