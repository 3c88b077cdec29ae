//! Handing messages from one thread to another through a bounded
//! single-producer, single-consumer queue (`heapless::spsc::Queue`).

use vstd::prelude::*;
use crate::websocket::frame::Opcode;

verus! {

/// The size of the queue's ring. The queue holds one message less.
pub const QUEUE_CAPACITY: usize = 128;

/// The most messages the queue holds.
pub const QUEUE_ROOM: usize = 127;

/// One logical application payload, reassembled from one or more frames.
pub struct Message {
    /// Whether the message is text or binary.
    pub opcode: Opcode,
    pub payload: Vec<u8>,
}

#[verifier::external_type_specification]
#[verifier::external_body]
#[verifier::reject_recursive_types(T)]
pub struct ExQueue<T, const N: usize>(heapless::spsc::Queue<T, N>);

/// What a queue holds: its messages, the one to be dequeued next first.
pub uninterp spec fn queue_items(q: heapless::spsc::Queue<Message, 128>) -> Seq<Message>;

/// A queue that holds nothing.
pub open spec fn no_items() -> Seq<Message> {
    Seq::empty()
}

/// `Queue::new`: an empty queue.
#[verifier::external_body]
fn queue_new() -> (q: heapless::spsc::Queue<Message, 128>)
    ensures
        queue_items(q) == no_items(),
{
    heapless::spsc::Queue::new()
}

/// `Queue::enqueue`: adds the message at the back, unless the queue
/// already holds as many as it can; then the message is handed back and
/// the queue is as it was.
#[verifier::external_body]
fn queue_enqueue(q: &mut heapless::spsc::Queue<Message, 128>, msg: Message) -> (r: Result<
    (),
    Message,
>)
    ensures
        match r {
            Ok(_) => queue_items(*old(q)).len() < QUEUE_ROOM && queue_items(*final(q))
                == queue_items(*old(q)).push(msg),
            Err(back) => queue_items(*old(q)).len() >= QUEUE_ROOM && back == msg && queue_items(
                *final(q),
            ) == queue_items(*old(q)),
        },
{
    q.enqueue(msg)
}

/// `Queue::dequeue`: takes the message at the front, if there is one.
#[verifier::external_body]
fn queue_dequeue(q: &mut heapless::spsc::Queue<Message, 128>) -> (r: Option<Message>)
    ensures
        match r {
            Some(msg) => queue_items(*old(q)).len() > 0 && msg == queue_items(*old(q))[0]
                && queue_items(*final(q)) == queue_items(*old(q)).skip(1),
            None => queue_items(*old(q)).len() == 0 && queue_items(*final(q)) == queue_items(
                *old(q),
            ),
        },
{
    q.dequeue()
}

/// `Queue::len`: the number of messages held, which is never more than
/// the queue has room for.
#[verifier::external_body]
fn queue_len(q: &heapless::spsc::Queue<Message, 128>) -> (n: usize)
    ensures
        n == queue_items(*q).len(),
        n <= QUEUE_ROOM,
{
    q.len()
}

/// The queue between a sending and a receiving thread.
pub struct SpscMatrix {
    queue: heapless::spsc::Queue<Message, 128>,
}

/// The sending end.
pub struct Sender {}

/// The receiving end.
pub struct Receiver {}

/// A message on its way into the queue. It is polled until the queue
/// has taken the message.
pub struct SendFuture {
    msg: Option<Message>,
}

impl SpscMatrix {
    /// The messages in the queue, the one to be received next first.
    pub closed spec fn view(&self) -> Seq<Message> {
        queue_items(self.queue)
    }

    /// An empty queue.
    pub fn new() -> (m: SpscMatrix)
        ensures
            m@ == no_items(),
    {
        SpscMatrix { queue: queue_new() }
    }

    /// The number of messages waiting.
    pub fn len(&self) -> (n: usize)
        ensures
            n == self@.len(),
            n <= QUEUE_ROOM,
    {
        queue_len(&self.queue)
    }
}

impl Sender {
    /// Starts sending `msg`. Nothing happens until the result is polled.
    pub fn send(&self, msg: Message) -> (f: SendFuture)
        ensures
            f.pending() == Some(msg),
    {
        SendFuture { msg: Some(msg) }
    }
}

impl SendFuture {
    /// The message that is still to be put in the queue, if any.
    pub closed spec fn pending(&self) -> Option<Message> {
        self.msg
    }

    /// Tries to put the message in the queue. The result is `true` once
    /// the queue has taken it. While the queue is full the message is
    /// kept, the queue is as it was, and the result is `false`.
    pub fn poll(&mut self, matrix: &mut SpscMatrix) -> (ready: bool)
        ensures
            match old(self).pending() {
                None => ready && final(self).pending() is None && final(matrix)@ == old(matrix)@,
                Some(msg) => if old(matrix)@.len() < QUEUE_ROOM {
                    ready && final(self).pending() is None && final(matrix)@ == old(matrix)@.push(
                        msg,
                    )
                } else {
                    !ready && final(self).pending() == Some(msg) && final(matrix)@ == old(matrix)@
                },
            },
    {
        match self.msg.take() {
            None => true,
            Some(msg) => match queue_enqueue(&mut matrix.queue, msg) {
                Ok(()) => true,
                Err(back) => {
                    self.msg = Some(back);
                    false
                },
            },
        }
    }
}

impl Receiver {
    /// Takes the next message out of the queue, if there is one.
    pub fn recv(&self, matrix: &mut SpscMatrix) -> (r: Option<Message>)
        ensures
            match r {
                Some(msg) => old(matrix)@.len() > 0 && msg == old(matrix)@[0] && final(matrix)@
                    == old(matrix)@.skip(1),
                None => old(matrix)@.len() == 0 && final(matrix)@ == old(matrix)@,
            },
    {
        queue_dequeue(&mut matrix.queue)
    }
}

} // verus!
