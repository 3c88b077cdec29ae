//! The reactor's decisions: what to do with a readiness event, which
//! interest to ask for, and how workers and their tasks are addressed.
//!
//! The notification mechanism itself is outside: the worker's loop polls,
//! accepts and reads, and asks these functions what each outcome means.

use vstd::prelude::*;
use std::ops::Range;
use crate::exec::model::Connection;
use crate::exec::table::Ptr;
use crate::exec::thread::{without_connection, DbThread};

verus! {

/// The token of the listening socket.
pub const SERVER_TOKEN: usize = usize::MAX;

/// The token of the datagram socket.
pub const UDP_TOKEN: usize = usize::MAX - 1;

/// The number of low bits of a packed task identifier that hold the slot.
pub const SLOT_BITS: usize = 24;

/// One more than the largest slot a packed task identifier can hold.
pub const SLOT_LIMIT: usize = 0x100_0000;

/// How a server is set up.
pub struct MyConfig {
    /// The number of worker threads.
    pub threads: usize,
    /// The address to listen on.
    pub host: String,
}

/// `num_cpus::get`: the number of logical CPUs available to this process.
/// It depends on the machine, so nothing is claimed of it.
#[verifier::external_body]
fn cpu_count() -> (n: usize) {
    num_cpus::get()
}

impl MyConfig {
    /// The setup for a machine with `cpu_count` CPUs: one worker thread
    /// for each, listening on the default address.
    pub fn for_cpus(cpu_count: usize) -> (c: MyConfig)
        ensures
            c.threads == cpu_count,
            c.host@ == "127.0.0.1:8444"@,
    {
        MyConfig { threads: cpu_count, host: "127.0.0.1:8444".to_owned() }
    }
}

impl Default for MyConfig {
    /// The setup for this machine: one worker thread for each CPU it
    /// offers, listening on the default address.
    fn default() -> (c: MyConfig)
        ensures
            c.host@ == "127.0.0.1:8444"@,
    {
        MyConfig::for_cpus(cpu_count())
    }
}

/// The state the workers share. What a worker needs beyond it lives in
/// the worker's own loop.
pub struct WorkerThread {}

/// A suspended task: the worker that owns it and its slot in that
/// worker's task set. A task is only ever run by its owner.
#[derive(Clone, Copy, Debug, PartialEq, Eq, Structural)]
pub struct TaskId {
    pub thread: usize,
    pub slot: usize,
}

impl TaskId {
    /// The task whose packed identifier is `word`: the slot in the low 24
    /// bits, the worker above them.
    pub open spec fn spec_unpack(word: usize) -> TaskId {
        TaskId { thread: word / SLOT_LIMIT, slot: word % SLOT_LIMIT }
    }

    /// Whether the identifier can be packed into one word.
    pub open spec fn packable(&self) -> bool {
        self.slot < SLOT_LIMIT && self.thread * SLOT_LIMIT + self.slot <= usize::MAX
    }

    /// The task whose packed identifier is `word`.
    pub fn unpack(word: usize) -> (t: TaskId)
        ensures
            t == Self::spec_unpack(word),
            t.packable(),
    {
        TaskId { thread: word / SLOT_LIMIT, slot: word % SLOT_LIMIT }
    }

    /// The identifier packed into one word, if it can be: the slot must
    /// fit in 24 bits and the worker in the bits above them.
    pub fn pack(&self) -> (r: Option<usize>)
        ensures
            match r {
                Some(word) => self.packable() && word == self.thread * SLOT_LIMIT + self.slot
                    && Self::spec_unpack(word) == *self,
                None => !self.packable(),
            },
    {
        if self.slot >= SLOT_LIMIT || self.thread > usize::MAX / SLOT_LIMIT {
            return None;
        }
        let base: usize = self.thread * SLOT_LIMIT;
        if self.slot > usize::MAX - base {
            return None;
        }
        Some(base + self.slot)
    }
}

/// The first worker of the block of `cores` consecutive workers that
/// holds worker `thread`.
pub open spec fn spec_block_start(thread: usize, cores: usize) -> int {
    (thread / cores) * cores
}

/// Two workers are in the same block just when their numbers divided by
/// the block's size are equal.
pub proof fn lemma_same_block(a: usize, b: usize, cores: usize)
    requires
        cores > 0,
    ensures
        spec_block_start(a, cores) == spec_block_start(b, cores) <==> a / cores == b / cores,
{
    let x = (a / cores) as int;
    let y = (b / cores) as int;
    let c = cores as int;
    assert(x * c == y * c <==> x == y) by (nonlinear_arith)
        requires
            c > 0,
    ;
}

/// Whether worker `owner` is to run a task for which a wake-up has
/// arrived: the task is the worker's own, it is still in the worker's
/// task set, and it is not already due to run. A wake-up that names
/// another worker's task is never acted on.
pub open spec fn spec_wake_due(owner: usize, task: TaskId, present: bool, woken: bool) -> bool {
    task.thread == owner && present && !woken
}

/// Whether worker `owner` is to run a task for which a wake-up has
/// arrived; `present` tells whether the task is still in the worker's
/// task set and `woken` whether it is already due to run.
pub fn wake_due(owner: usize, task: TaskId, present: bool, woken: bool) -> (due: bool)
    ensures
        due == spec_wake_due(owner, task, present, woken),
{
    task.thread == owner && present && !woken
}

/// The server: its setup and its workers.
pub struct Server {
    cores_per_socket: usize,
    config: MyConfig,
    worker: Vec<WorkerThread>,
}

impl Server {
    /// The number of workers that share a CPU socket.
    pub closed spec fn spec_cores_per_socket(&self) -> usize {
        self.cores_per_socket
    }

    /// The number of workers.
    pub closed spec fn spec_workers(&self) -> nat {
        self.worker@.len()
    }

    /// The configured number of worker threads.
    pub closed spec fn spec_threads(&self) -> usize {
        self.config.threads
    }

    /// The address the server listens on.
    pub closed spec fn spec_host(&self) -> Seq<char> {
        self.config.host@
    }

    /// A server with one worker for each configured thread, all of them
    /// taken to share one CPU socket.
    pub fn new(config: MyConfig) -> (s: Server)
        ensures
            s.spec_workers() == config.threads,
            s.spec_cores_per_socket() == config.threads,
            s.spec_threads() == config.threads,
            s.spec_host() == config.host@,
    {
        let mut worker: Vec<WorkerThread> = Vec::new();
        let mut i: usize = 0;
        while i < config.threads
            invariant
                i <= config.threads,
                worker@.len() == i,
            decreases config.threads - i,
        {
            worker.push(WorkerThread {  });
            i += 1;
        }
        Server { cores_per_socket: config.threads, config, worker }
    }

    /// The number of workers that share a CPU socket.
    pub fn cores_per_socket(&self) -> (n: usize)
        ensures
            n == self.spec_cores_per_socket(),
    {
        self.cores_per_socket
    }

    /// The number of workers.
    pub fn workers(&self) -> (n: usize)
        ensures
            n == self.spec_workers(),
    {
        self.worker.len()
    }

    /// The address the server listens on.
    pub fn host(&self) -> (h: &String)
        ensures
            h@ == self.spec_host(),
    {
        &self.config.host
    }

    /// The workers that run on the same CPU socket as worker `thread`:
    /// the block of `cores_per_socket` consecutive workers that holds it.
    pub fn get_same_cpu(&self, thread: usize) -> (r: Range<usize>)
        requires
            self.spec_cores_per_socket() > 0,
            spec_block_start(thread, self.spec_cores_per_socket()) + self.spec_cores_per_socket()
                <= usize::MAX,
        ensures
            r.start == spec_block_start(thread, self.spec_cores_per_socket()),
            r.end == r.start + self.spec_cores_per_socket(),
            r.start <= thread < r.end,
            r.start % self.spec_cores_per_socket() == 0,
    {
        let cpu_socket: usize = thread / self.cores_per_socket;
        assert(cpu_socket * self.cores_per_socket <= thread && thread < cpu_socket
            * self.cores_per_socket + self.cores_per_socket) by (nonlinear_arith)
            requires
                self.cores_per_socket > 0,
                cpu_socket == thread / self.cores_per_socket,
        ;
        let start: usize = cpu_socket * self.cores_per_socket;
        assert(start % self.cores_per_socket == 0) by (nonlinear_arith)
            requires
                self.cores_per_socket > 0,
                start == cpu_socket * self.cores_per_socket,
        ;
        let end: usize = start + self.cores_per_socket;
        start..end
    }

    /// The workers on the same CPU socket as worker `thread`, or `None`
    /// when the server has no workers or the end of the block would not
    /// fit the machine's integers.
    pub fn same_cpu(&self, thread: usize) -> (r: Option<Range<usize>>)
        ensures
            match r {
                Some(range) => self.spec_cores_per_socket() > 0 && range.start == spec_block_start(
                    thread,
                    self.spec_cores_per_socket(),
                ) && range.end == range.start + self.spec_cores_per_socket() && range.start
                    <= thread < range.end,
                None => self.spec_cores_per_socket() == 0 || spec_block_start(
                    thread,
                    self.spec_cores_per_socket(),
                ) + self.spec_cores_per_socket() > usize::MAX,
            },
    {
        if self.cores_per_socket == 0 {
            return None;
        }
        let cpu_socket: usize = thread / self.cores_per_socket;
        assert(cpu_socket * self.cores_per_socket <= thread) by (nonlinear_arith)
            requires
                self.cores_per_socket > 0,
                cpu_socket == thread / self.cores_per_socket,
        ;
        let start: usize = cpu_socket * self.cores_per_socket;
        if start > usize::MAX - self.cores_per_socket {
            return None;
        }
        Some(self.get_same_cpu(thread))
    }

    /// Decodes a wake request. The task it names is returned when its
    /// worker exists; the request must then be forwarded to that worker,
    /// which alone runs the task.
    pub fn wake(&self, word: usize) -> (r: Option<TaskId>)
        ensures
            match r {
                Some(task) => task == TaskId::spec_unpack(word) && task.thread
                    < self.spec_workers(),
                None => TaskId::spec_unpack(word).thread >= self.spec_workers(),
            },
    {
        let task = TaskId::unpack(word);
        if task.thread < self.worker.len() {
            Some(task)
        } else {
            None
        }
    }
}

/// Which readiness a connection is registered for.
#[derive(Clone, Copy, Debug, PartialEq, Eq, Structural)]
pub struct Interest {
    pub readable: bool,
    pub writable: bool,
}

/// How an operation on a non-blocking transport ended.
#[derive(Clone, Copy, Debug, PartialEq, Eq, Structural)]
pub enum IoOutcome {
    /// It went through.
    Ready,
    /// It would have had to wait.
    WouldBlock,
    /// It was interrupted.
    Interrupted,
    /// It failed.
    Failed,
}

/// What a token stands for.
#[derive(Clone, Copy, Debug, PartialEq, Eq, Structural)]
pub enum TokenKind {
    /// The listening socket.
    Listener,
    /// The datagram socket.
    Datagram,
    /// The connection in this slot.
    Connection(usize),
}

/// What to do after a poll.
#[derive(Clone, Copy, Debug, PartialEq, Eq, Structural)]
pub enum PollStep {
    /// Handle the events that were delivered.
    Handle,
    /// Poll again.
    Retry,
    /// Stop the worker and surface the error.
    Fatal,
}

/// What to do after an attempt to accept a connection.
#[derive(Clone, Copy, Debug, PartialEq, Eq, Structural)]
pub enum AcceptStep {
    /// Register the connection with this interest, then accept again.
    Register(Interest),
    /// No more connections are waiting.
    Stop,
    /// Stop the worker and surface the error.
    Fatal,
}

/// What to do with a connection after its readiness was handled.
#[derive(Clone, Copy, Debug, PartialEq, Eq, Structural)]
pub enum Dispatch {
    /// Keep it, registered with this interest.
    Reregister(Interest),
    /// Its slot was freed: deregister the transport and drop it.
    Close,
    /// The token names no open connection: nothing to do.
    Unknown,
}

/// The interest a newly accepted connection is registered with: both
/// reading and writing.
pub open spec fn spec_accept_interest() -> Interest {
    Interest { readable: true, writable: true }
}

/// The interest a kept connection is registered with: reading always,
/// writing only while outbound ciphertext is pending.
pub open spec fn spec_interest(wants_write: bool) -> Interest {
    Interest { readable: true, writable: wants_write }
}

/// What a token stands for.
pub open spec fn spec_token(token: usize) -> TokenKind {
    if token == SERVER_TOKEN {
        TokenKind::Listener
    } else if token == UDP_TOKEN {
        TokenKind::Datagram
    } else {
        TokenKind::Connection(token)
    }
}

/// What to do after a poll that ended as `outcome`: an interrupted poll
/// is tried again; any other failure stops the worker.
pub open spec fn spec_poll(outcome: IoOutcome) -> PollStep {
    match outcome {
        IoOutcome::Ready => PollStep::Handle,
        IoOutcome::Interrupted => PollStep::Retry,
        IoOutcome::WouldBlock => PollStep::Fatal,
        IoOutcome::Failed => PollStep::Fatal,
    }
}

/// What to do after an accept that ended as `outcome`: a connection is
/// registered and accepting goes on; would-block and interrupted mean
/// that none is waiting; any other failure stops the worker.
pub open spec fn spec_accept(outcome: IoOutcome) -> AcceptStep {
    match outcome {
        IoOutcome::Ready => AcceptStep::Register(spec_accept_interest()),
        IoOutcome::WouldBlock => AcceptStep::Stop,
        IoOutcome::Interrupted => AcceptStep::Stop,
        IoOutcome::Failed => AcceptStep::Fatal,
    }
}

/// The interest a kept connection is registered with.
pub fn desired_interest(wants_write: bool) -> (i: Interest)
    ensures
        i == spec_interest(wants_write),
{
    Interest { readable: true, writable: wants_write }
}

/// What a token stands for.
pub fn classify_token(token: usize) -> (k: TokenKind)
    ensures
        k == spec_token(token),
{
    if token == SERVER_TOKEN {
        TokenKind::Listener
    } else if token == UDP_TOKEN {
        TokenKind::Datagram
    } else {
        TokenKind::Connection(token)
    }
}

/// What to do after a poll.
pub fn on_poll(outcome: IoOutcome) -> (s: PollStep)
    ensures
        s == spec_poll(outcome),
{
    match outcome {
        IoOutcome::Ready => PollStep::Handle,
        IoOutcome::Interrupted => PollStep::Retry,
        IoOutcome::WouldBlock => PollStep::Fatal,
        IoOutcome::Failed => PollStep::Fatal,
    }
}

/// What to do after an attempt to accept a connection.
pub fn on_accept(outcome: IoOutcome) -> (s: AcceptStep)
    ensures
        s == spec_accept(outcome),
{
    match outcome {
        IoOutcome::Ready => AcceptStep::Register(Interest { readable: true, writable: true }),
        IoOutcome::WouldBlock => AcceptStep::Stop,
        IoOutcome::Interrupted => AcceptStep::Stop,
        IoOutcome::Failed => AcceptStep::Fatal,
    }
}

/// Puts an accepted connection in the slot table. The slot's number is
/// the token to register the transport with; it stays the connection's
/// token until the connection is closed. The token is that of no open
/// connection, and it is neither the listener's nor the datagram
/// socket's. The table holds one connection more than before.
pub fn accept(thread: &mut DbThread, connection: Connection) -> (token: usize)
    ensures
        !old(thread)@.connections.contains_key(token),
        token < UDP_TOKEN,
        spec_token(token) == TokenKind::Connection(token),
        final(thread)@ == crate::exec::thread::with_connection(
            old(thread)@,
            token,
            connection@,
        ),
        old(thread)@.connections.dom().finite(),
        final(thread)@.connections.dom().len() == old(thread)@.connections.dom().len() + 1,
{
    thread.open_connection(connection).index()
}

/// Acts on the outcome of a connection's readiness step. A connection
/// that is to be kept stays in its slot and is registered for reading,
/// and for writing while `wants_write`; one that is not is removed from
/// the slot table, which frees its slot and every record it held and
/// leaves the table with one connection less.
pub fn dispatch(thread: &mut DbThread, token: usize, keep: bool, wants_write: bool) -> (d: Dispatch)
    ensures
        !old(thread)@.connections.contains_key(token) ==> d is Unknown && final(thread)@ == old(
            thread,
        )@,
        old(thread)@.connections.contains_key(token) && keep ==> d == Dispatch::Reregister(
            spec_interest(wants_write),
        ) && final(thread)@ == old(thread)@,
        old(thread)@.connections.contains_key(token) && !keep ==> d is Close && final(thread)@
            == without_connection(old(thread)@, token) && final(thread)@.connections.dom().len()
            + 1 == old(thread)@.connections.dom().len(),
{
    let p: Ptr<Connection> = Ptr::from_index(token);
    if !thread.has_connection(p) {
        return Dispatch::Unknown;
    }
    if keep {
        return Dispatch::Reregister(desired_interest(wants_write));
    }
    let _ = thread.close_connection(p);
    Dispatch::Close
}

} // verus!
