//! The data the dispatcher works on, and the mathematical model of each type.

use vstd::prelude::*;
use std::collections::HashMap;
use crate::exec::header::StreamHeader;
use crate::exec::table::{Ptr, Vecb};
use crate::exec::thread::DbThread;

verus! {

/// A large parameter held outside the inline parameter bytes.
pub struct Blob {}

/// The parameters of one request: its blobs and its inline bytes.
pub struct ParameterBlock {
    pub blob: Vec<Blob>,
    pub inline: Vec<u8>,
}

/// The kind of transport a connection arrived on.
#[derive(Clone, Copy, Debug, PartialEq, Eq, Structural)]
pub enum ConnectionType {
    /// A datagram transport.
    Udp,
    /// A stream transport.
    Tcp,
}

/// An authenticated principal.
pub struct User {}

/// A connection-local view of the interfaces: entry `h` is the index, in the
/// global interface table, of the interface that local handle `h` stands for.
pub struct Environment {
    pub iface: Vecb<usize>,
}

/// An interface: an ordered table of procedures.
pub type Iface<P> = Vecb<P>;

/// Where a request header leads once it is resolved: an environment of the
/// thread, an interface of the global table and a procedure of that interface.
#[derive(Clone, Copy, Debug, PartialEq, Eq, Structural)]
pub struct Target {
    pub env: usize,
    pub iface: usize,
    pub procid: usize,
}

/// The accumulation record of an open stream.
pub struct DbStream {
    /// The header its first packet carried.
    pub header: StreamHeader,
    /// The procedure the header resolved to.
    pub target: Target,
    /// The request body received so far.
    pub buffer: Vec<u8>,
    /// Whether the procedure has been invoked and has yet to complete.
    pub suspended: bool,
}

/// What the dispatcher knows of one open connection.
pub struct Connection {
    pub connection_type: ConnectionType,
    pub user: u32,
    /// The environments this connection may use: entry `h` is the index, in
    /// the thread's environment table, of the environment that handle `h` stands for.
    pub env: Vecb<usize>,
    /// The open streams, by stream id.
    pub stream: HashMap<u64, DbStream>,
}

/// The tables shared, read-only, by every worker thread.
pub struct Db<P> {
    pub user: Vecb<User>,
    pub iface: Vecb<Iface<P>>,
}

/// One entry of a thread's response sink.
pub enum Response {
    /// Result bytes for a stream; `complete` marks the last of them.
    Data { connection: usize, streamid: u64, bytes: Vec<u8>, complete: bool },
    /// A stream ended with an error code.
    Error { connection: usize, streamid: u64, code: i32 },
}

/// What a procedure hands back from an invocation.
pub enum ProcOutcome {
    /// It completed, with these result bytes.
    Done(Vec<u8>),
    /// It failed, with this code.
    Failed(i32),
    /// It suspended; its completion is reported later.
    Pending,
}

/// A registered callable. It is reached only through a connection's
/// environment, never by a global index. It is invoked with its context:
/// the environment it was reached through, the shared tables, the
/// thread that dispatches, and the connection the request came on.
pub trait Procedure: Sized {
    /// Whether `outcome` is something the procedure may hand back when
    /// it is invoked for stream `streamid` of connection `cn`, in
    /// environment `env`, over the tables `db`, by a thread that looks
    /// like `thread`, with the request body `body`. An implementation
    /// says here as much or as little of itself as it likes; one that
    /// says nothing may hand back anything.
    open spec fn may_return(
        &self,
        env: usize,
        db: &Db<Self>,
        thread: ThreadModel,
        cn: usize,
        body: Seq<u8>,
        streamid: u64,
        outcome: OutcomeModel,
    ) -> bool {
        true
    }

    /// Runs the procedure for stream `streamid` of connection `cn`, in
    /// environment `env`, with parameters `pm`. The stream's record is
    /// not in the thread's table while the procedure runs.
    fn invoke(
        &self,
        env: Ptr<Environment>,
        db: &Db<Self>,
        thread: &DbThread,
        cn: Ptr<Connection>,
        pm: &ParameterBlock,
        streamid: u64,
    ) -> (outcome: ProcOutcome)
        ensures
            self.may_return(env@, db, thread@, cn@, pm.inline@, streamid, outcome@),
    ;
}

/// A procedure that answers with the request's own body.
pub struct Echo {}

impl Procedure for Echo {
    open spec fn may_return(
        &self,
        env: usize,
        db: &Db<Self>,
        thread: ThreadModel,
        cn: usize,
        body: Seq<u8>,
        streamid: u64,
        outcome: OutcomeModel,
    ) -> bool {
        outcome == OutcomeModel::Done(body)
    }

    fn invoke(
        &self,
        env: Ptr<Environment>,
        db: &Db<Self>,
        thread: &DbThread,
        cn: Ptr<Connection>,
        pm: &ParameterBlock,
        streamid: u64,
    ) -> (outcome: ProcOutcome) {
        let bytes = crate::bytes::tail(pm.inline.as_slice(), 0);
        assert(pm.inline@.skip(0) == pm.inline@);
        ProcOutcome::Done(bytes)
    }
}

/// The model of an accumulation record.
#[verifier::ext_equal]
pub struct StreamModel {
    pub header: StreamHeader,
    pub target: Target,
    pub buffer: Seq<u8>,
    pub suspended: bool,
}

/// The model of a connection.
#[verifier::ext_equal]
pub struct ConnectionModel {
    pub connection_type: ConnectionType,
    pub user: u32,
    pub env: Seq<usize>,
    pub streams: Map<u64, StreamModel>,
}

/// The model of a response.
#[verifier::ext_equal]
pub enum ResponseModel {
    Data { connection: usize, streamid: u64, bytes: Seq<u8>, complete: bool },
    Error { connection: usize, streamid: u64, code: i32 },
}

/// The model of a procedure's outcome.
#[verifier::ext_equal]
pub enum OutcomeModel {
    Done(Seq<u8>),
    Failed(i32),
    Pending,
}

/// The model of a thread: its environments, its open connections by slot
/// and the responses it has queued, oldest first.
#[verifier::ext_equal]
pub struct ThreadModel {
    pub env: Seq<Seq<usize>>,
    pub connections: Map<usize, ConnectionModel>,
    pub responses: Seq<ResponseModel>,
}

impl DbStream {
    pub open spec fn view(&self) -> StreamModel {
        StreamModel {
            header: self.header,
            target: self.target,
            buffer: self.buffer@,
            suspended: self.suspended,
        }
    }
}

impl Connection {
    pub open spec fn view(&self) -> ConnectionModel {
        ConnectionModel {
            connection_type: self.connection_type,
            user: self.user,
            env: self.env@,
            streams: Map::new(
                |k: u64| self.stream@.contains_key(k),
                |k: u64| self.stream@[k]@,
            ),
        }
    }
}

impl Response {
    pub open spec fn view(&self) -> ResponseModel {
        match *self {
            Response::Data { connection, streamid, bytes, complete } => ResponseModel::Data {
                connection,
                streamid,
                bytes: bytes@,
                complete,
            },
            Response::Error { connection, streamid, code } => ResponseModel::Error {
                connection,
                streamid,
                code,
            },
        }
    }
}

impl ProcOutcome {
    pub open spec fn view(&self) -> OutcomeModel {
        match *self {
            ProcOutcome::Done(bytes) => OutcomeModel::Done(bytes@),
            ProcOutcome::Failed(code) => OutcomeModel::Failed(code),
            ProcOutcome::Pending => OutcomeModel::Pending,
        }
    }
}

impl<P> Db<P> {
    /// The number of procedures of each interface, in table order.
    pub open spec fn shape(&self) -> Seq<nat> {
        Seq::new(self.iface@.len(), |i: int| self.iface@[i]@.len())
    }
}

} // verus!
