//! The framer: reads messages out of a byte stream, frame by frame, and
//! writes messages as frames.
//!
//! The framer does no I/O. The caller hands it the bytes that the stream
//! delivered and takes from it the bytes to send. Where a read on the
//! stream would have to wait, the caller simply comes back with more bytes.

use vstd::prelude::*;
use crate::bytes::tail;
use crate::websocket::frame::{
    encode_header, lemma_parse_complete, lemma_parse_prefix, parse_header, spec_encode_header,
    spec_parse_header, FrameHeader, HeaderParse, Opcode, MAX_HEADER_LEN,
};
use crate::websocket::mask::{copy_masked, spec_transfer};

verus! {

/// Why a read or write did not go through.
#[derive(Clone, Copy, Debug, PartialEq, Eq, Structural)]
pub enum FrameError {
    /// The peer sent a close frame: the stream has ended.
    Closed,
    /// The peer broke the protocol, or the caller asked for a frame that
    /// cannot be sent now.
    Protocol,
    /// The deadline passed before the read was tried.
    Timeout,
    /// The framer was invalidated by an earlier failure.
    Failed,
}

/// A frame whose header has been read and whose payload is being delivered.
#[derive(Clone, Copy, Debug)]
pub struct OpenFrame {
    pub mask: Option<[u8; 4]>,
    /// Payload bytes not yet delivered.
    pub remaining: u64,
    /// Payload bytes already delivered.
    pub consumed: u64,
    pub fin: bool,
}

/// What one read achieved.
#[derive(Clone, Copy, Debug, PartialEq, Eq, Structural)]
pub struct ReadResult {
    /// How many bytes of the input were used up.
    pub consumed: usize,
    /// How many payload bytes were delivered.
    pub bytes_read: usize,
    /// Whether the last of them ended a message.
    pub message_ended: bool,
    /// The kind of the message being read: text or binary once a message
    /// has begun, continuation before that.
    pub opcode: Opcode,
}

/// The model of a framer.
pub struct FramerModel {
    /// Header bytes received for a frame that is not open yet.
    pub pending: Seq<u8>,
    /// The frame being delivered, if any.
    pub open: Option<OpenFrame>,
    /// The kind of the message being read.
    pub opcode: Opcode,
    /// Whether a failure has invalidated the framer.
    pub failed: bool,
    /// Whether a streamed message is being written.
    pub writing: bool,
}

/// A framer: the state of one stream's reading and writing.
pub struct Framer {
    pending: Vec<u8>,
    open: Option<OpenFrame>,
    opcode: Opcode,
    failed: bool,
    writing: bool,
}

/// What a read does: the framer afterwards, the payload bytes delivered,
/// and the result handed to the caller.
pub struct ReadStep {
    pub next: FramerModel,
    pub data: Seq<u8>,
    pub outcome: Result<ReadResult, FrameError>,
}

/// What a write does: the framer afterwards, the bytes to send, and the
/// result handed to the caller.
pub struct WriteStep {
    pub next: FramerModel,
    pub sent: Seq<u8>,
    pub outcome: Result<(), FrameError>,
}

/// What reading a header came to.
enum Opening {
    /// The header is not all there yet.
    Wait,
    /// The stream cannot go on.
    Fail(FrameError),
    /// A frame is open; the header took this many bytes of the input.
    Open(OpenFrame, usize),
}

/// The least of three.
pub open spec fn min3(a: int, b: int, c: int) -> int {
    if a <= b && a <= c {
        a
    } else if b <= c {
        b
    } else {
        c
    }
}

/// A framer that has read and written nothing.
pub open spec fn fresh() -> FramerModel {
    FramerModel {
        pending: Seq::empty(),
        open: None,
        opcode: Opcode::Continuation,
        failed: false,
        writing: false,
    }
}

/// Delivers payload of the open frame `f` from `input`, starting at byte
/// `used` of the input: as many bytes as the caller's capacity, the
/// frame's remaining payload and the input allow. The message ends when
/// the frame's payload is exhausted and the frame was marked final.
pub open spec fn deliver(m: FramerModel, f: OpenFrame, input: Seq<u8>, used: int, capacity: int) -> ReadStep {
    let n = min3(capacity, f.remaining as int, input.len() - used);
    let left = f.remaining - n;
    ReadStep {
        next: FramerModel {
            pending: Seq::empty(),
            open: if left == 0 {
                None
            } else {
                Some(
                    OpenFrame {
                        mask: f.mask,
                        remaining: left as u64,
                        consumed: (f.consumed + n) as u64,
                        fin: f.fin,
                    },
                )
            },
            ..m
        },
        data: spec_transfer(f.mask, f.consumed as int, input.subrange(used, used + n)),
        outcome: Ok(
            ReadResult {
                consumed: (used + n) as usize,
                bytes_read: n as usize,
                message_ended: left == 0 && f.fin,
                opcode: m.opcode,
            },
        ),
    }
}

/// A failure that invalidates the framer.
pub open spec fn fail(m: FramerModel, e: FrameError) -> ReadStep {
    ReadStep { next: FramerModel { failed: true, ..m }, data: Seq::empty(), outcome: Err(e) }
}

/// What reading from `input` does to framer `m`, with room for `capacity`
/// payload bytes.
///
/// With no frame open, the header is read first, from the bytes kept from
/// earlier reads followed by the input. If it is not all there, the input
/// is kept and nothing is delivered. A close frame ends the stream; any
/// opcode other than continuation, text and binary is a protocol error.
/// With a frame open, its payload is delivered.
pub open spec fn spec_read(m: FramerModel, input: Seq<u8>, capacity: int) -> ReadStep {
    if m.failed {
        ReadStep { next: m, data: Seq::empty(), outcome: Err(FrameError::Failed) }
    } else {
        match m.open {
            Some(f) => deliver(m, f, input, 0, capacity),
            None => match spec_parse_header(m.pending + input) {
                HeaderParse::Incomplete => ReadStep {
                    next: FramerModel { pending: m.pending + input, ..m },
                    data: Seq::empty(),
                    outcome: Ok(
                        ReadResult {
                            consumed: input.len() as usize,
                            bytes_read: 0,
                            message_ended: false,
                            opcode: m.opcode,
                        },
                    ),
                },
                HeaderParse::Closed => fail(m, FrameError::Closed),
                HeaderParse::Unsupported => fail(m, FrameError::Protocol),
                HeaderParse::Header(h, n) => deliver(
                    FramerModel {
                        opcode: if h.opcode == Opcode::Continuation {
                            m.opcode
                        } else {
                            h.opcode
                        },
                        ..m
                    },
                    OpenFrame { mask: h.mask, remaining: h.len, consumed: 0, fin: h.fin },
                    input,
                    n - m.pending.len(),
                    capacity,
                ),
            },
        }
    }
}

/// One whole frame on the wire: the header, then the payload, masked if
/// the header carries a key.
pub open spec fn spec_encode_frame(h: FrameHeader, payload: Seq<u8>) -> Seq<u8> {
    spec_encode_header(h) + spec_transfer(h.mask, 0, payload)
}

/// A write that is refused: nothing is sent and the framer is as it was.
pub open spec fn refuse(m: FramerModel, e: FrameError) -> WriteStep {
    WriteStep { next: m, sent: Seq::empty(), outcome: Err(e) }
}

/// What sending a whole message in one final frame does. It is refused
/// while a streamed message is being written, and for the continuation
/// opcode, which cannot begin a message.
pub open spec fn spec_write_message(
    m: FramerModel,
    opcode: Opcode,
    payload: Seq<u8>,
    mask: Option<[u8; 4]>,
) -> WriteStep {
    if m.failed {
        refuse(m, FrameError::Failed)
    } else if m.writing || opcode == Opcode::Continuation {
        refuse(m, FrameError::Protocol)
    } else {
        WriteStep {
            next: m,
            sent: spec_encode_frame(
                FrameHeader { fin: true, opcode, mask, len: payload.len() as u64 },
                payload,
            ),
            outcome: Ok(()),
        }
    }
}

/// What sending a non-final frame of a streamed message does. The first
/// chunk carries the message's opcode, which must be text or binary; the
/// chunks after it are continuation frames, whatever opcode is named.
pub open spec fn spec_write_chunk(
    m: FramerModel,
    opcode: Opcode,
    payload: Seq<u8>,
    mask: Option<[u8; 4]>,
) -> WriteStep {
    if m.failed {
        refuse(m, FrameError::Failed)
    } else if !m.writing && opcode == Opcode::Continuation {
        refuse(m, FrameError::Protocol)
    } else {
        WriteStep {
            next: FramerModel { writing: true, ..m },
            sent: spec_encode_frame(
                FrameHeader {
                    fin: false,
                    opcode: if m.writing {
                        Opcode::Continuation
                    } else {
                        opcode
                    },
                    mask,
                    len: payload.len() as u64,
                },
                payload,
            ),
            outcome: Ok(()),
        }
    }
}

/// What closing a streamed message with a final continuation frame does.
/// It is refused when no streamed message is being written.
pub open spec fn spec_write_finish(m: FramerModel, payload: Seq<u8>, mask: Option<[u8; 4]>) -> WriteStep {
    if m.failed {
        refuse(m, FrameError::Failed)
    } else if !m.writing {
        refuse(m, FrameError::Protocol)
    } else {
        WriteStep {
            next: FramerModel { writing: false, ..m },
            sent: spec_encode_frame(
                FrameHeader {
                    fin: true,
                    opcode: Opcode::Continuation,
                    mask,
                    len: payload.len() as u64,
                },
                payload,
            ),
            outcome: Ok(()),
        }
    }
}

/// Whether a framer model can be the state of a framer: header bytes are
/// kept only while they do not make up a header, and never beside an open
/// frame; an open frame has payload left.
pub open spec fn valid(m: FramerModel) -> bool {
    &&& m.pending.len() < MAX_HEADER_LEN
    &&& spec_parse_header(m.pending) is Incomplete
    &&& m.open matches Some(f) ==> m.pending.len() == 0 && f.remaining > 0 && f.consumed
        + f.remaining <= u64::MAX
}

/// Appends one whole frame to `out`.
pub fn write_frame(h: &FrameHeader, payload: &[u8], out: &mut Vec<u8>)
    ensures
        final(out)@ == old(out)@ + spec_encode_frame(*h, payload@),
{
    encode_header(h, out);
    copy_masked(&h.mask, 0, payload, 0, payload.len(), out);
    assert(payload@.subrange(0, payload@.len() as int) == payload@);
}

impl Framer {
    pub closed spec fn view(&self) -> FramerModel {
        FramerModel {
            pending: self.pending@,
            open: self.open,
            opcode: self.opcode,
            failed: self.failed,
            writing: self.writing,
        }
    }

    /// Whether the framer's state is consistent. Every framer made by
    /// `new` is, and every operation keeps it so.
    pub open spec fn wf(&self) -> bool {
        valid(self@)
    }

    /// A framer that has read and written nothing.
    pub fn new() -> (f: Framer)
        ensures
            f.wf(),
            f@ == fresh(),
    {
        Framer {
            pending: Vec::new(),
            open: None,
            opcode: Opcode::Continuation,
            failed: false,
            writing: false,
        }
    }

    /// Whether a failure has invalidated the framer.
    pub fn is_failed(&self) -> (b: bool)
        ensures
            b == self@.failed,
    {
        self.failed
    }

    /// Whether a frame's payload is being delivered.
    pub fn in_frame(&self) -> (b: bool)
        ensures
            b == self@.open is Some,
    {
        self.open.is_some()
    }

    /// Reads the header of the next frame from the bytes kept so far
    /// followed by `input`.
    fn open_next(&mut self, input: &[u8]) -> (r: Opening)
        requires
            old(self).wf(),
            !old(self)@.failed,
            old(self)@.open is None,
        ensures
            final(self).wf(),
            final(self)@.writing == old(self)@.writing,
            final(self)@.open is None,
            match spec_parse_header(old(self)@.pending + input@) {
                HeaderParse::Incomplete => r is Wait && final(self)@ == (FramerModel {
                    pending: old(self)@.pending + input@,
                    ..old(self)@
                }),
                HeaderParse::Closed => r is Fail && r->Fail_0 == FrameError::Closed && final(self)@
                    == (FramerModel { failed: true, ..old(self)@ }),
                HeaderParse::Unsupported => r is Fail && r->Fail_0 == FrameError::Protocol
                    && final(self)@ == (FramerModel { failed: true, ..old(self)@ }),
                HeaderParse::Header(h, n) => r is Open && r->Open_0 == (OpenFrame {
                    mask: h.mask,
                    remaining: h.len,
                    consumed: 0,
                    fin: h.fin,
                }) && r->Open_1 == n - old(self)@.pending.len() && 0 < r->Open_1 <= input@.len()
                    && final(self)@ == (FramerModel {
                    pending: Seq::empty(),
                    opcode: if h.opcode == Opcode::Continuation {
                        old(self)@.opcode
                    } else {
                        h.opcode
                    },
                    ..old(self)@
                }),
            },
    {
        let room: usize = MAX_HEADER_LEN - self.pending.len();
        let take: usize = if input.len() < room {
            input.len()
        } else {
            room
        };
        let mut scratch: Vec<u8> = tail(self.pending.as_slice(), 0);
        let ghost kept = self.pending@;
        let ghost whole = kept + input@;
        copy_masked(&None, 0, input, 0, take, &mut scratch);
        proof {
            assert(scratch@ =~= whole.take(kept.len() + take));
            if take == input@.len() {
                assert(whole.take(kept.len() + take) =~= whole);
            } else {
                lemma_parse_prefix(whole, kept.len() + take);
            }
            assert(spec_parse_header(scratch@) == spec_parse_header(whole));
        }
        match parse_header(scratch.as_slice()) {
            HeaderParse::Incomplete => {
                assert(take == input@.len());
                self.pending = scratch;
                assert(self.pending@ =~= whole);
                Opening::Wait
            },
            HeaderParse::Closed => {
                self.failed = true;
                Opening::Fail(FrameError::Closed)
            },
            HeaderParse::Unsupported => {
                self.failed = true;
                Opening::Fail(FrameError::Protocol)
            },
            HeaderParse::Header(h, n) => {
                proof {
                    if n <= kept.len() {
                        lemma_parse_complete(whole, kept.len() as int);
                        assert(whole.take(kept.len() as int) =~= kept);
                    }
                }
                let used: usize = n - self.pending.len();
                self.pending.clear();
                match h.opcode {
                    Opcode::Continuation => {},
                    Opcode::Text => {
                        self.opcode = Opcode::Text;
                    },
                    Opcode::Binary => {
                        self.opcode = Opcode::Binary;
                    },
                }
                assert(self.pending@ =~= Seq::<u8>::empty());
                Opening::Open(
                    OpenFrame { mask: h.mask, remaining: h.len, consumed: 0, fin: h.fin },
                    used,
                )
            },
        }
    }

    /// Delivers payload of frame `frame` from `input[used..]`.
    fn deliver(
        &mut self,
        frame: OpenFrame,
        input: &[u8],
        used: usize,
        buf: &mut Vec<u8>,
        capacity: usize,
    ) -> (r: ReadResult)
        requires
            used <= input@.len(),
            frame.consumed + frame.remaining <= u64::MAX,
            old(self)@.pending.len() == 0,
        ensures
            final(self)@ == deliver(old(self)@, frame, input@, used as int, capacity as int).next,
            final(buf)@ == old(buf)@ + deliver(
                old(self)@,
                frame,
                input@,
                used as int,
                capacity as int,
            ).data,
            Ok::<ReadResult, FrameError>(r) == deliver(
                old(self)@,
                frame,
                input@,
                used as int,
                capacity as int,
            ).outcome,
            final(self).wf(),
    {
        let avail: usize = input.len() - used;
        let mut n: usize = capacity;
        if frame.remaining < n as u64 {
            n = frame.remaining as usize;
        }
        if avail < n {
            n = avail;
        }
        assert(n == min3(capacity as int, frame.remaining as int, input@.len() - used));
        copy_masked(&frame.mask, frame.consumed, input, used, used + n, buf);
        let left: u64 = frame.remaining - n as u64;
        self.open = if left == 0 {
            None
        } else {
            Some(
                OpenFrame {
                    mask: frame.mask,
                    remaining: left,
                    consumed: frame.consumed + n as u64,
                    fin: frame.fin,
                },
            )
        };
        assert(self.pending@ =~= Seq::<u8>::empty());
        ReadResult {
            consumed: used + n,
            bytes_read: n,
            message_ended: left == 0 && frame.fin,
            opcode: self.opcode,
        }
    }

    /// Reads from `input`, the bytes the stream has delivered since the
    /// last read, and appends at most `capacity` payload bytes to `buf`.
    ///
    /// The result says how much of the input was used up; what was not
    /// must be handed in again, first, on the next read.
    pub fn read_some(&mut self, input: &[u8], buf: &mut Vec<u8>, capacity: usize) -> (r: Result<
        ReadResult,
        FrameError,
    >)
        requires
            old(self).wf(),
        ensures
            final(self).wf(),
            final(self)@ == spec_read(old(self)@, input@, capacity as int).next,
            final(buf)@ == old(buf)@ + spec_read(old(self)@, input@, capacity as int).data,
            r == spec_read(old(self)@, input@, capacity as int).outcome,
    {
        if self.failed {
            return Err(FrameError::Failed);
        }
        match self.open {
            Some(f) => Ok(self.deliver(f, input, 0, buf, capacity)),
            None => match self.open_next(input) {
                Opening::Wait => Ok(
                    ReadResult {
                        consumed: input.len(),
                        bytes_read: 0,
                        message_ended: false,
                        opcode: self.opcode,
                    },
                ),
                Opening::Fail(e) => Err(e),
                Opening::Open(f, used) => Ok(self.deliver(f, input, used, buf, capacity)),
            },
        }
    }

    /// Reads as `read_some` does, unless the deadline has passed: then
    /// the read fails with `Timeout` and nothing changes, so the same
    /// read can be tried again later.
    pub fn read_some_timed(
        &mut self,
        input: &[u8],
        buf: &mut Vec<u8>,
        capacity: usize,
        now: u64,
        deadline: u64,
    ) -> (r: Result<ReadResult, FrameError>)
        requires
            old(self).wf(),
        ensures
            final(self).wf(),
            now >= deadline ==> r == Err::<ReadResult, FrameError>(FrameError::Timeout) && final(self)@ == old(self)@ && final(buf)@ == old(buf)@,
            now < deadline ==> final(self)@ == spec_read(old(self)@, input@, capacity as int).next
                && final(buf)@ == old(buf)@ + spec_read(old(self)@, input@, capacity as int).data
                && r == spec_read(old(self)@, input@, capacity as int).outcome,
    {
        if now >= deadline {
            return Err(FrameError::Timeout);
        }
        self.read_some(input, buf, capacity)
    }

    /// Tells the framer that the stream has ended. An end in the middle
    /// of a header or of a frame's payload is a protocol error and
    /// invalidates the framer; an end between frames is accepted.
    pub fn end_of_input(&mut self) -> (r: Result<(), FrameError>)
        requires
            old(self).wf(),
        ensures
            final(self).wf(),
            old(self)@.failed ==> r == Err::<(), FrameError>(FrameError::Failed) && final(self)@
                == old(self)@,
            !old(self)@.failed && (old(self)@.pending.len() > 0 || old(self)@.open is Some) ==> r
                == Err::<(), FrameError>(FrameError::Protocol) && final(self)@ == (FramerModel {
                failed: true,
                ..old(self)@
            }),
            !old(self)@.failed && old(self)@.pending.len() == 0 && old(self)@.open is None ==> r
                is Ok && final(self)@ == old(self)@,
    {
        if self.failed {
            return Err(FrameError::Failed);
        }
        if self.pending.len() > 0 || self.open.is_some() {
            self.failed = true;
            return Err(FrameError::Protocol);
        }
        Ok(())
    }

    /// Sends a whole message as one final frame.
    pub fn write_message(
        &mut self,
        opcode: Opcode,
        payload: &[u8],
        mask: Option<[u8; 4]>,
        out: &mut Vec<u8>,
    ) -> (r: Result<(), FrameError>)
        requires
            old(self).wf(),
        ensures
            final(self).wf(),
            final(self)@ == spec_write_message(old(self)@, opcode, payload@, mask).next,
            final(out)@ == old(out)@ + spec_write_message(old(self)@, opcode, payload@, mask).sent,
            r == spec_write_message(old(self)@, opcode, payload@, mask).outcome,
    {
        if self.failed {
            return Err(FrameError::Failed);
        }
        let starts = match opcode {
            Opcode::Continuation => false,
            _ => true,
        };
        if self.writing || !starts {
            return Err(FrameError::Protocol);
        }
        let h = FrameHeader { fin: true, opcode, mask, len: payload.len() as u64 };
        write_frame(&h, payload, out);
        Ok(())
    }

    /// Sends a non-final frame, which begins or carries on a streamed message.
    pub fn write_message_chunk(
        &mut self,
        opcode: Opcode,
        payload: &[u8],
        mask: Option<[u8; 4]>,
        out: &mut Vec<u8>,
    ) -> (r: Result<(), FrameError>)
        requires
            old(self).wf(),
        ensures
            final(self).wf(),
            final(self)@ == spec_write_chunk(old(self)@, opcode, payload@, mask).next,
            final(out)@ == old(out)@ + spec_write_chunk(old(self)@, opcode, payload@, mask).sent,
            r == spec_write_chunk(old(self)@, opcode, payload@, mask).outcome,
    {
        if self.failed {
            return Err(FrameError::Failed);
        }
        let starts = match opcode {
            Opcode::Continuation => false,
            _ => true,
        };
        if !self.writing && !starts {
            return Err(FrameError::Protocol);
        }
        let sent_as = if self.writing {
            Opcode::Continuation
        } else {
            opcode
        };
        let h = FrameHeader { fin: false, opcode: sent_as, mask, len: payload.len() as u64 };
        write_frame(&h, payload, out);
        self.writing = true;
        Ok(())
    }

    /// Sends the final continuation frame that closes a streamed message.
    pub fn write_message_finish(&mut self, payload: &[u8], mask: Option<[u8; 4]>, out: &mut Vec<u8>) -> (r:
        Result<(), FrameError>)
        requires
            old(self).wf(),
        ensures
            final(self).wf(),
            final(self)@ == spec_write_finish(old(self)@, payload@, mask).next,
            final(out)@ == old(out)@ + spec_write_finish(old(self)@, payload@, mask).sent,
            r == spec_write_finish(old(self)@, payload@, mask).outcome,
    {
        if self.failed {
            return Err(FrameError::Failed);
        }
        if !self.writing {
            return Err(FrameError::Protocol);
        }
        let h = FrameHeader {
            fin: true,
            opcode: Opcode::Continuation,
            mask,
            len: payload.len() as u64,
        };
        write_frame(&h, payload, out);
        self.writing = false;
        Ok(())
    }
}

} // verus!
