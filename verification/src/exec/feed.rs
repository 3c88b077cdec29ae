//! From decrypted bytes to dispatched requests.
//!
//! The bytes a connection delivers are frames. Their payloads are joined
//! into messages, and every message that ends is one request: a stream of
//! one final packet, whose id is the number of messages the connection
//! has delivered before it. Ids start again at zero after the largest.

use vstd::prelude::*;
use vstd::slice::slice_subrange;
use crate::exec::dispatch::{dispatched_reporting, plan};
use crate::exec::model::{Connection, Db, Procedure, ThreadModel};
use crate::exec::table::Ptr;
use crate::exec::thread::DbThread;
use crate::websocket::framer::{spec_read, Framer, FramerModel};

verus! {

/// What a connection holds above its session: the thread's dispatcher
/// state, the framer, the message being joined and the id of the next
/// stream.
pub struct Feed {
    pub thread: ThreadModel,
    pub framer: FramerModel,
    pub message: Seq<u8>,
    pub next_stream: u64,
}

/// The id of the stream after stream `n`.
pub open spec fn spec_next_id(n: u64) -> u64 {
    if n == u64::MAX {
        0
    } else {
        (n + 1) as u64
    }
}

/// The room left for the message being joined.
pub open spec fn spec_room(message: Seq<u8>) -> int {
    usize::MAX - message.len()
}

/// Whether feeding `input` to a connection in state `pre` leaves it in
/// state `post`, to be kept or not.
///
/// The framer reads from the input until it is used up. What a read
/// delivers is added to the message. A read that fails, or uses up
/// nothing, ends the feeding, and the connection is not to be kept. A
/// read that ends a message hands the message on as a request, and
/// feeding goes on with an empty message and the next stream id.
pub open spec fn fed<P: Procedure>(
    db: Db<P>,
    cn: usize,
    pre: Feed,
    input: Seq<u8>,
    post: Feed,
    keep: bool,
) -> bool
    decreases input.len(), 0int,
{
    if input.len() == 0 {
        keep && post == pre
    } else {
        let step = spec_read(pre.framer, input, spec_room(pre.message));
        match step.outcome {
            Err(_) => !keep && post == (Feed { framer: step.next, ..pre }),
            Ok(r) => {
                let joined = Feed { framer: step.next, message: pre.message + step.data, ..pre };
                if r.consumed == 0 || r.consumed > input.len() {
                    !keep && post == joined
                } else if r.message_ended {
                    handed_on(db, cn, joined, input.skip(r.consumed as int), post, keep)
                } else {
                    fed(db, cn, joined, input.skip(r.consumed as int), post, keep)
                }
            },
        }
    }
}

/// Whether handing on the message of `pre` as a request, and then
/// feeding `rest`, leaves the connection in state `post`. The request is
/// one final packet on the next stream; a refusal is reported on that
/// stream and the connection goes on.
pub open spec fn handed_on<P: Procedure>(
    db: Db<P>,
    cn: usize,
    pre: Feed,
    rest: Seq<u8>,
    post: Feed,
    keep: bool,
) -> bool
    decreases rest.len(), 1int,
{
    exists|mid: ThreadModel|
        #[trigger] dispatched_reporting(
            db,
            pre.thread,
            mid,
            plan(db.shape(), pre.thread, cn, pre.next_stream, pre.message, true),
            cn,
            pre.next_stream,
        ) && fed(
            db,
            cn,
            Feed {
                thread: mid,
                framer: pre.framer,
                message: Seq::empty(),
                next_stream: spec_next_id(pre.next_stream),
            },
            rest,
            post,
            keep,
        )
}

/// Feeds decrypted bytes to a connection: frames are read from `input`,
/// their payloads are joined in `message`, and every message that ends
/// is dispatched as a request on stream `next_stream`, which then moves
/// on. Tells whether the connection is to be kept: it is not once the
/// framer has failed or cannot go on.
pub fn on_plaintext<P: Procedure>(
    db: &Db<P>,
    thread: &mut DbThread,
    cn: Ptr<Connection>,
    f: &mut Framer,
    message: &mut Vec<u8>,
    next_stream: &mut u64,
    input: &[u8],
) -> (keep: bool)
    requires
        old(f).wf(),
    ensures
        final(f).wf(),
        fed(
            *db,
            cn@,
            (Feed {
                thread: old(thread)@,
                framer: old(f)@,
                message: old(message)@,
                next_stream: *old(next_stream),
            }),
            input@,
            (Feed {
                thread: final(thread)@,
                framer: final(f)@,
                message: final(message)@,
                next_stream: *final(next_stream),
            }),
            keep,
        ),
        final(thread).env == old(thread).env,
        final(thread).is_uring == old(thread).is_uring,
    decreases input@.len(),
{
    let ghost pre = Feed {
        thread: thread@,
        framer: f@,
        message: message@,
        next_stream: *next_stream,
    };
    if input.len() == 0 {
        return true;
    }
    let room: usize = usize::MAX - message.len();
    match f.read_some(input, message, room) {
        Err(_) => false,
        Ok(r) => {
            if r.consumed == 0 || r.consumed > input.len() {
                return false;
            }
            let rest = slice_subrange(input, r.consumed, input.len());
            assert(rest@ == input@.skip(r.consumed as int));
            let ghost joined = Feed { framer: f@, message: message@, ..pre };
            if r.message_ended {
                let sid: u64 = *next_stream;
                let _ = db.handle_read(thread, cn, sid, message.as_slice(), true);
                *next_stream = if sid == u64::MAX {
                    0
                } else {
                    sid + 1
                };
                message.clear();
                let ghost mid = thread@;
                let keep = on_plaintext(db, thread, cn, f, message, next_stream, rest);
                proof {
                    let post = Feed {
                        thread: thread@,
                        framer: f@,
                        message: message@,
                        next_stream: *next_stream,
                    };
                    assert(dispatched_reporting(
                        *db,
                        joined.thread,
                        mid,
                        plan(db.shape(), joined.thread, cn@, joined.next_stream, joined.message, true),
                        cn@,
                        joined.next_stream,
                    ));
                    assert(handed_on(*db, cn@, joined, rest@, post, keep));
                }
                keep
            } else {
                on_plaintext(db, thread, cn, f, message, next_stream, rest)
            }
        },
    }
}

} // verus!
