//! What holds of the framer on every input.

use vstd::prelude::*;
use crate::websocket::frame::{
    lemma_header_len, lemma_parse_complete, lemma_parse_encoded, spec_encode_header,
    spec_header_len, spec_parse_header, FrameHeader, HeaderParse, Opcode,
};
use crate::websocket::framer::{
    min3, spec_encode_frame, spec_read, spec_write_message, valid, FrameError, FramerModel,
    OpenFrame, ReadResult,
};
use crate::websocket::mask::{lemma_transfer_involution, lemma_transfer_split, spec_transfer};

verus! {

/// Reading an encoded frame gives back its payload and its opcode.
///
/// For every payload, masked or not, and for the text and binary opcodes:
/// a framer that is between frames, given the frame's encoding and room
/// for the whole payload, delivers exactly the payload's bytes, uses up
/// exactly the frame, reports the frame's opcode, and reports the end of
/// a message just when the frame was final. Bytes that follow the frame
/// are left alone.
pub proof fn lemma_round_trip(
    m: FramerModel,
    h: FrameHeader,
    payload: Seq<u8>,
    rest: Seq<u8>,
    capacity: int,
)
    requires
        !m.failed,
        m.open is None,
        m.pending.len() == 0,
        h.opcode == Opcode::Text || h.opcode == Opcode::Binary,
        payload.len() == h.len,
        capacity >= payload.len(),
        spec_header_len(h) + payload.len() <= usize::MAX,
    ensures
        ({
            let step = spec_read(m, spec_encode_frame(h, payload) + rest, capacity);
            &&& step.data == payload
            &&& step.outcome == Ok::<ReadResult, FrameError>(
                ReadResult {
                    consumed: (spec_header_len(h) + payload.len()) as usize,
                    bytes_read: payload.len() as usize,
                    message_ended: h.fin,
                    opcode: h.opcode,
                },
            )
            &&& step.next.open is None
            &&& step.next.pending.len() == 0
            &&& !step.next.failed
        }),
{
    let wire = spec_transfer(h.mask, 0, payload);
    let input = spec_encode_frame(h, payload) + rest;
    lemma_header_len(h);
    lemma_transfer_involution(h.mask, 0, payload);
    lemma_parse_encoded(h, wire + rest);
    assert(m.pending + input =~= spec_encode_header(h) + (wire + rest));
    let n = spec_header_len(h);
    assert(input.subrange(n, n + payload.len()) =~= wire);
}

/// A message written by one framer is read back whole by another.
pub proof fn lemma_written_message_reads_back(
    writer: FramerModel,
    reader: FramerModel,
    opcode: Opcode,
    payload: Seq<u8>,
    mask: Option<[u8; 4]>,
)
    requires
        spec_write_message(writer, opcode, payload, mask).outcome is Ok,
        !reader.failed,
        reader.open is None,
        reader.pending.len() == 0,
        payload.len() + 14 <= usize::MAX,
    ensures
        ({
            let sent = spec_write_message(writer, opcode, payload, mask).sent;
            let step = spec_read(reader, sent, payload.len() as int);
            &&& step.data == payload
            &&& step.outcome matches Ok(res) && res.message_ended && res.opcode == opcode
                && res.bytes_read == payload.len() && res.consumed == sent.len()
        }),
{
    let h = FrameHeader { fin: true, opcode, mask, len: payload.len() as u64 };
    lemma_header_len(h);
    lemma_transfer_involution(mask, 0, payload);
    lemma_round_trip(reader, h, payload, Seq::empty(), payload.len() as int);
    assert(spec_encode_frame(h, payload) + Seq::<u8>::empty() =~= spec_encode_frame(h, payload));
}

/// A header may arrive in pieces. If the bytes handed in do not complete
/// the header, they are kept, and the read that brings the rest delivers
/// what a single read of all the bytes would have delivered, ends as it
/// would have ended and, unless it fails, leaves the framer in the same
/// state.
pub proof fn lemma_header_in_pieces(m: FramerModel, a: Seq<u8>, b: Seq<u8>, capacity: int)
    requires
        !m.failed,
        m.open is None,
        spec_parse_header(m.pending + a) is Incomplete,
        capacity >= 0,
    ensures
        ({
            let kept = spec_read(m, a, capacity);
            let pieces = spec_read(kept.next, b, capacity);
            let whole = spec_read(m, a + b, capacity);
            &&& kept.data.len() == 0
            &&& kept.outcome matches Ok(r) && r.bytes_read == 0 && !r.message_ended
            &&& pieces.data == whole.data
            &&& whole.outcome is Ok ==> pieces.next == whole.next
            &&& pieces.next.failed == whole.next.failed
            &&& whole.outcome matches Err(e) ==> pieces.outcome == Err::<ReadResult, FrameError>(e)
            &&& whole.outcome matches Ok(w) ==> pieces.outcome matches Ok(p) && p.bytes_read
                == w.bytes_read && p.message_ended == w.message_ended && p.opcode == w.opcode
        }),
{
    let kept = spec_read(m, a, capacity);
    let all = m.pending + (a + b);
    assert((m.pending + a) + b =~= all);
    match spec_parse_header(all) {
        HeaderParse::Header(h, n) => {
            if n <= (m.pending + a).len() {
                lemma_parse_complete(all, (m.pending + a).len() as int);
                assert(all.take((m.pending + a).len() as int) =~= m.pending + a);
            }
            let used_whole = n - m.pending.len();
            let used_pieces = n - (m.pending + a).len();
            let f = OpenFrame { mask: h.mask, remaining: h.len, consumed: 0, fin: h.fin };
            let k = min3(capacity, f.remaining as int, b.len() - used_pieces);
            assert(k == min3(capacity, f.remaining as int, (a + b).len() - used_whole));
            assert(b.subrange(used_pieces, used_pieces + k) =~= (a + b).subrange(
                used_whole,
                used_whole + k,
            ));
        },
        HeaderParse::Incomplete => {
            let pieces = spec_read(kept.next, b, capacity);
            let whole = spec_read(m, a + b, capacity);
            assert(pieces.next.pending =~= whole.next.pending);
        },
        _ => {},
    }
}

/// A payload may arrive in pieces. With a frame open and room for all of
/// it, reading the first piece and then the second delivers the bytes
/// that reading both at once delivers, and leaves the framer in the same
/// state.
pub proof fn lemma_payload_in_pieces(m: FramerModel, a: Seq<u8>, b: Seq<u8>, capacity: int)
    requires
        !m.failed,
        m.open matches Some(f) && a.len() < f.remaining && f.consumed + f.remaining <= u64::MAX,
        capacity >= a.len() + b.len(),
    ensures
        ({
            let first = spec_read(m, a, capacity);
            let second = spec_read(first.next, b, capacity);
            let whole = spec_read(m, a + b, capacity);
            &&& first.data + second.data == whole.data
            &&& second.next == whole.next
            &&& second.outcome matches Ok(s) && whole.outcome matches Ok(w) && s.message_ended
                == w.message_ended
        }),
{
    let f = m.open->Some_0;
    let first = spec_read(m, a, capacity);
    let second = spec_read(first.next, b, capacity);
    let whole = spec_read(m, a + b, capacity);
    let n1 = min3(capacity, f.remaining as int, a.len() as int);
    assert(n1 == a.len());
    let g = first.next.open->Some_0;
    let n2 = min3(capacity, g.remaining as int, b.len() as int);
    let n = min3(capacity, f.remaining as int, (a + b).len() as int);
    assert(n == n1 + n2);
    assert(a.subrange(0, n1) =~= a);
    assert((a + b).subrange(0, n) =~= a + b.subrange(0, n2));
    lemma_transfer_split(f.mask, f.consumed as int, a, b.subrange(0, n2));
}

/// Every read makes progress: a framer in a consistent state that is
/// handed at least one byte, with room for at least one, either fails or
/// uses up at least one byte of its input, and never more than it was
/// handed.
pub proof fn lemma_read_progress(m: FramerModel, input: Seq<u8>, capacity: int)
    requires
        valid(m),
        !m.failed,
        0 < input.len() <= usize::MAX,
        capacity > 0,
    ensures
        spec_read(m, input, capacity).outcome matches Ok(r) ==> 0 < r.consumed <= input.len(),
{
    match m.open {
        Some(f) => {
            let n = min3(capacity, f.remaining as int, input.len() as int);
            assert(1 <= n <= input.len());
        },
        None => {
            let all = m.pending + input;
            match spec_parse_header(all) {
                HeaderParse::Header(h, n) => {
                    if n <= m.pending.len() {
                        lemma_parse_complete(all, m.pending.len() as int);
                        assert(all.take(m.pending.len() as int) =~= m.pending);
                    }
                    let used = n - m.pending.len();
                    let k = min3(capacity, h.len as int, input.len() - used);
                    assert(0 < used <= input.len());
                    assert(0 <= k <= input.len() - used);
                },
                _ => {},
            }
        },
    }
}

/// What reading a message to its end comes to: the bytes delivered, in
/// order, and the result of every read.
pub struct ReadRun {
    pub data: Seq<u8>,
    pub reads: Seq<ReadResult>,
}

/// Reading from `input` again and again, each time handing in what the
/// read before left over, until a read ends a message, fails, or uses
/// up nothing.
pub open spec fn spec_read_run(m: FramerModel, input: Seq<u8>, capacity: int) -> ReadRun
    decreases input.len(),
{
    let step = spec_read(m, input, capacity);
    match step.outcome {
        Err(_) => ReadRun { data: Seq::empty(), reads: Seq::empty() },
        Ok(r) => if r.message_ended || r.consumed == 0 || r.consumed > input.len() {
            ReadRun { data: step.data, reads: seq![r] }
        } else {
            let rest = spec_read_run(step.next, input.skip(r.consumed as int), capacity);
            ReadRun { data: step.data + rest.data, reads: seq![r] + rest.reads }
        },
    }
}

/// The number of bytes that a run of reads delivered.
pub open spec fn spec_total(reads: Seq<ReadResult>) -> int
    decreases reads.len(),
{
    if reads.len() == 0 {
        0
    } else {
        reads[0].bytes_read + spec_total(reads.skip(1))
    }
}

/// Whether the last read of a run, and no read before it, ended a message.
pub open spec fn ends_at_last(reads: Seq<ReadResult>) -> bool {
    &&& reads.len() > 0
    &&& reads.last().message_ended
    &&& forall|i: int| 0 <= i < reads.len() - 1 ==> !(#[trigger] reads[i]).message_ended
}

/// The rest of a final frame's payload is read to its end whatever the
/// room of each read: the reads deliver exactly the bytes that are left,
/// and only the last of them ends the message.
pub proof fn lemma_open_frame_in_pieces(m: FramerModel, rest: Seq<u8>, capacity: int)
    requires
        !m.failed,
        m.open matches Some(f) && f.fin && f.remaining == rest.len() && f.consumed + f.remaining
            <= u64::MAX,
        0 < rest.len() <= usize::MAX,
        capacity >= 1,
    ensures
        ({
            let f = m.open->Some_0;
            let run = spec_read_run(m, spec_transfer(f.mask, f.consumed as int, rest), capacity);
            &&& run.data == rest
            &&& ends_at_last(run.reads)
            &&& spec_total(run.reads) == rest.len()
        }),
    decreases rest.len(),
{
    let f = m.open->Some_0;
    let c = f.consumed as int;
    let input = spec_transfer(f.mask, c, rest);
    lemma_transfer_involution(f.mask, c, rest);
    assert(input.len() == rest.len());
    let step = spec_read(m, input, capacity);
    let n = min3(capacity, f.remaining as int, input.len() as int);
    assert(1 <= n <= rest.len());
    let head = rest.take(n);
    let tail = rest.skip(n);
    assert(rest =~= head + tail);
    lemma_transfer_split(f.mask, c, head, tail);
    lemma_transfer_involution(f.mask, c, head);
    lemma_transfer_involution(f.mask, c + n, tail);
    assert(input.subrange(0, n) =~= spec_transfer(f.mask, c, head));
    assert(input.skip(n) =~= spec_transfer(f.mask, c + n, tail));
    assert(step.data == head);
    let r = step.outcome->Ok_0;
    assert(r.consumed == n && r.bytes_read == n);
    let run = spec_read_run(m, input, capacity);
    if n == rest.len() {
        assert(r.message_ended);
        assert(head =~= rest);
        assert(run.reads =~= seq![r]);
        assert(spec_total(run.reads.skip(1)) == 0);
    } else {
        assert(!r.message_ended);
        let next = step.next;
        lemma_open_frame_in_pieces(next, tail, capacity);
        let after = spec_read_run(next, input.skip(n), capacity);
        assert(run.data == head + after.data);
        assert(run.reads == seq![r] + after.reads);
        assert(run.reads.skip(1) =~= after.reads);
        assert(run.reads.last() == after.reads.last());
        assert forall|i: int| 0 <= i < run.reads.len() - 1 implies !(#[trigger] run.reads[i]).message_ended by {
            if i > 0 {
                assert(run.reads[i] == after.reads[i - 1]);
            }
        }
    }
}

/// Reading an encoded message in pieces gives back its payload.
///
/// For every payload, masked or not, for the text and binary opcodes and
/// for every room of at least one byte: a framer that is between frames
/// and reads the encoding of one final frame again and again, each time
/// from what the read before left over, delivers exactly the payload's
/// bytes, as many as the payload has, and reports the end of the message
/// on the read that delivers the last of them and on no read before. An
/// empty payload is one read of no bytes that ends the message.
pub proof fn lemma_message_in_pieces(
    m: FramerModel,
    h: FrameHeader,
    payload: Seq<u8>,
    capacity: int,
)
    requires
        !m.failed,
        m.open is None,
        m.pending.len() == 0,
        h.opcode == Opcode::Text || h.opcode == Opcode::Binary,
        h.fin,
        payload.len() == h.len,
        capacity >= 1,
        spec_header_len(h) + payload.len() <= usize::MAX,
    ensures
        ({
            let run = spec_read_run(m, spec_encode_frame(h, payload), capacity);
            &&& run.data == payload
            &&& ends_at_last(run.reads)
            &&& spec_total(run.reads) == payload.len()
            &&& run.reads[0].opcode == h.opcode
            &&& payload.len() == 0 ==> run.reads.len() == 1 && run.reads[0].bytes_read == 0
        }),
{
    let wire = spec_transfer(h.mask, 0, payload);
    let input = spec_encode_frame(h, payload);
    let hl = spec_header_len(h);
    lemma_header_len(h);
    lemma_transfer_involution(h.mask, 0, payload);
    lemma_parse_encoded(h, wire);
    assert(m.pending + input =~= spec_encode_header(h) + wire);
    let step = spec_read(m, input, capacity);
    let n = min3(capacity, h.len as int, input.len() - hl);
    assert(0 <= n <= payload.len());
    let head = payload.take(n);
    let tail = payload.skip(n);
    assert(payload =~= head + tail);
    lemma_transfer_split(h.mask, 0, head, tail);
    lemma_transfer_involution(h.mask, 0, head);
    lemma_transfer_involution(h.mask, n, tail);
    assert(input.subrange(hl, hl + n) =~= spec_transfer(h.mask, 0, head));
    assert(input.skip(hl + n) =~= spec_transfer(h.mask, n, tail));
    assert(step.data == head);
    let r = step.outcome->Ok_0;
    assert(r.consumed == hl + n && r.bytes_read == n && r.opcode == h.opcode);
    let run = spec_read_run(m, input, capacity);
    if n == payload.len() {
        assert(r.message_ended);
        assert(head =~= payload);
        assert(run.reads =~= seq![r]);
        assert(spec_total(run.reads.skip(1)) == 0);
    } else {
        assert(!r.message_ended);
        let next = step.next;
        lemma_open_frame_in_pieces(next, tail, capacity);
        let after = spec_read_run(next, input.skip(hl + n), capacity);
        assert(run.data == head + after.data);
        assert(run.reads == seq![r] + after.reads);
        assert(run.reads.skip(1) =~= after.reads);
        assert(run.reads.last() == after.reads.last());
        assert forall|i: int| 0 <= i < run.reads.len() - 1 implies !(#[trigger] run.reads[i]).message_ended by {
            if i > 0 {
                assert(run.reads[i] == after.reads[i - 1]);
            }
        }
    }
}

} // verus!
