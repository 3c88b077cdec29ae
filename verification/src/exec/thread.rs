//! A worker thread's dispatcher state: its environments, its slot table of
//! open connections and its response sink.

use vstd::prelude::*;
use std::collections::HashMap;
use crate::bytes::tail;
use crate::exec::model::{
    Connection, ConnectionModel, ConnectionType, DbStream, Environment, OutcomeModel, ProcOutcome, Response,
    ResponseModel, StreamModel, ThreadModel,
};
use crate::exec::slots::{
    slab_contains, slab_entries, slab_get, slab_get_mut, slab_insert, slab_len, slab_new,
    slab_try_remove,
};
use crate::exec::table::{Ptr, Vecb};

verus! {

broadcast use vstd::std_specs::hash::group_hash_axioms;

/// The state a worker thread keeps for dispatching requests. It is owned
/// by that thread alone.
pub struct DbThread {
    pub is_uring: bool,
    /// The thread's pool of environments.
    pub env: Vecb<Environment>,
    /// The open connections, by slot.
    pub connection: slab::Slab<Connection>,
    /// The responses waiting to be sent, oldest first.
    pub responses: Vec<Response>,
}

/// The thread `t` with `r` added to its response sink.
pub open spec fn respond(t: ThreadModel, r: ResponseModel) -> ThreadModel {
    ThreadModel { responses: t.responses.push(r), ..t }
}

/// The thread `t` with connection `conn` opened in a free slot.
pub open spec fn with_connection(t: ThreadModel, conn: usize, c: ConnectionModel) -> ThreadModel {
    ThreadModel { connections: t.connections.insert(conn, c), ..t }
}

/// The thread `t` without connection `conn` and all of its streams.
pub open spec fn without_connection(t: ThreadModel, conn: usize) -> ThreadModel {
    ThreadModel { connections: t.connections.remove(conn), ..t }
}

/// The thread `t` with stream `sid` of connection `conn` discarded. Other
/// streams and other connections are as they were.
pub open spec fn close_stream(t: ThreadModel, conn: usize, sid: u64) -> ThreadModel {
    if t.connections.contains_key(conn) {
        let c = t.connections[conn];
        with_connection(t, conn, ConnectionModel { streams: c.streams.remove(sid), ..c })
    } else {
        t
    }
}

/// The thread `t` with `rec` as the record of stream `sid` of connection
/// `conn`. Other streams and other connections are as they were.
pub open spec fn put_stream(t: ThreadModel, conn: usize, sid: u64, rec: StreamModel) -> ThreadModel {
    if t.connections.contains_key(conn) {
        let c = t.connections[conn];
        with_connection(t, conn, ConnectionModel { streams: c.streams.insert(sid, rec), ..c })
    } else {
        t
    }
}

/// The thread after result bytes are reported for a stream: the bytes are
/// queued, and the stream's record is discarded if they complete it.
pub open spec fn spec_result(
    t: ThreadModel,
    conn: usize,
    sid: u64,
    bytes: Seq<u8>,
    complete: bool,
) -> ThreadModel {
    respond(
        if complete {
            close_stream(t, conn, sid)
        } else {
            t
        },
        ResponseModel::Data { connection: conn, streamid: sid, bytes, complete },
    )
}

/// The thread after an error is reported for a stream: the code is queued
/// and the stream's record is discarded.
pub open spec fn spec_result_error(t: ThreadModel, conn: usize, sid: u64, code: i32) -> ThreadModel {
    respond(
        close_stream(t, conn, sid),
        ResponseModel::Error { connection: conn, streamid: sid, code },
    )
}

/// The thread after a procedure invoked for stream `sid` handed back
/// `outcome`: a completion or a failure is reported and ends the stream; a
/// suspension keeps `rec` as the stream's record, marked suspended.
pub open spec fn settle(
    t: ThreadModel,
    conn: usize,
    sid: u64,
    rec: StreamModel,
    outcome: OutcomeModel,
) -> ThreadModel {
    match outcome {
        OutcomeModel::Done(bytes) => spec_result(t, conn, sid, bytes, true),
        OutcomeModel::Failed(code) => spec_result_error(t, conn, sid, code),
        OutcomeModel::Pending => put_stream(
            t,
            conn,
            sid,
            StreamModel { suspended: true, ..rec },
        ),
    }
}

/// What looking for a stream's record found.
pub enum Lookup {
    /// The slot holds no connection.
    NoConnection,
    /// The connection has no such stream.
    Absent,
    /// The stream's record, taken out of the connection.
    Found(DbStream),
}

impl Connection {
    /// A connection with no open stream.
    pub fn new(connection_type: ConnectionType, user: u32, env: Vec<usize>) -> (c: Connection)
        ensures
            c@ == (ConnectionModel {
                connection_type,
                user,
                env: env@,
                streams: Map::empty(),
            }),
    {
        let c = Connection { connection_type, user, env: Vecb::new(env), stream: HashMap::new() };
        assert(c@.streams =~= Map::empty());
        c
    }

    /// The number of open streams.
    pub fn stream_count(&self) -> (n: usize)
        ensures
            n == self@.streams.dom().len(),
            self@.streams.dom().finite(),
    {
        assert(self@.streams.dom() =~= self.stream@.dom());
        self.stream.len()
    }

    /// Whether stream `sid` is open.
    pub fn has_stream(&self, sid: u64) -> (b: bool)
        ensures
            b == self@.streams.contains_key(sid),
    {
        self.stream.contains_key(&sid)
    }

    /// Takes the record of stream `sid` out of the connection.
    pub fn take_stream(&mut self, sid: u64) -> (r: Option<DbStream>)
        ensures
            final(self)@ == (ConnectionModel {
                streams: old(self)@.streams.remove(sid),
                ..old(self)@
            }),
            match r {
                Some(rec) => old(self)@.streams.contains_key(sid) && rec@ == old(self)@.streams[sid],
                None => !old(self)@.streams.contains_key(sid),
            },
    {
        let r = self.stream.remove(&sid);
        assert(self@.streams =~= old(self)@.streams.remove(sid));
        r
    }

    /// Stores `rec` as the record of stream `sid`.
    pub fn put_stream(&mut self, sid: u64, rec: DbStream)
        ensures
            final(self)@ == (ConnectionModel {
                streams: old(self)@.streams.insert(sid, rec@),
                ..old(self)@
            }),
    {
        self.stream.insert(sid, rec);
        assert(self@.streams =~= old(self)@.streams.insert(sid, rec@));
    }
}

impl DbThread {
    pub open spec fn view(&self) -> ThreadModel {
        ThreadModel {
            env: Seq::new(self.env@.len(), |i: int| self.env@[i].iface@),
            connections: Map::new(
                |k: usize| slab_entries(self.connection).contains_key(k),
                |k: usize| slab_entries(self.connection)[k]@,
            ),
            responses: Seq::new(self.responses@.len(), |i: int| self.responses@[i]@),
        }
    }

    /// A thread with the given environments, no connection and no response.
    pub fn new(is_uring: bool, env: Vec<Environment>) -> (t: DbThread)
        ensures
            t.is_uring == is_uring,
            t.env@ == env@,
            t@.connections == Map::<usize, ConnectionModel>::empty(),
            t@.responses == Seq::<ResponseModel>::empty(),
    {
        let t = DbThread {
            is_uring,
            env: Vecb::new(env),
            connection: slab_new(),
            responses: Vec::new(),
        };
        assert(t@.connections =~= Map::<usize, ConnectionModel>::empty());
        assert(t@.responses =~= Seq::<ResponseModel>::empty());
        t
    }

    /// Puts a newly accepted connection in a free slot and returns its
    /// handle. The slot's number lies below half the range of `usize`,
    /// and the table holds one connection more than before.
    pub fn open_connection(&mut self, c: Connection) -> (p: Ptr<Connection>)
        ensures
            !old(self)@.connections.contains_key(p@),
            p@ < usize::MAX / 2,
            final(self)@ == with_connection(old(self)@, p@, c@),
            old(self)@.connections.dom().finite(),
            final(self)@.connections.dom().len() == old(self)@.connections.dom().len() + 1,
            final(self).env == old(self).env,
            final(self).is_uring == old(self).is_uring,
    {
        let key = slab_insert(&mut self.connection, c);
        assert(self@.connections =~= old(self)@.connections.insert(key, c@));
        assert(old(self)@.connections.dom() =~= slab_entries(old(self).connection).dom());
        assert(self@.connections.dom() =~= old(self)@.connections.dom().insert(key));
        Ptr::from_index(key)
    }

    /// Removes a connection, and with it every accumulation record it held.
    /// Returns the connection, or `None` when the slot was empty. The
    /// table holds one connection less than before if the slot was taken.
    pub fn close_connection(&mut self, p: Ptr<Connection>) -> (r: Option<Connection>)
        ensures
            final(self)@ == without_connection(old(self)@, p@),
            old(self)@.connections.dom().finite(),
            final(self)@.connections.dom().len() + (if r is Some {
                1int
            } else {
                0int
            }) == old(self)@.connections.dom().len(),
            final(self).env == old(self).env,
            final(self).is_uring == old(self).is_uring,
            match r {
                Some(c) => old(self)@.connections.contains_key(p@) && c@ == old(
                    self,
                )@.connections[p@],
                None => !old(self)@.connections.contains_key(p@),
            },
    {
        let r = slab_try_remove(&mut self.connection, p.index());
        assert(self@.connections =~= old(self)@.connections.remove(p@));
        assert(old(self)@.connections.dom() =~= slab_entries(old(self).connection).dom());
        assert(self@.connections.dom() =~= old(self)@.connections.dom().remove(p@));
        r
    }

    /// The number of open connections, of which there are finitely many.
    pub fn connection_count(&self) -> (n: usize)
        ensures
            self@.connections.dom().finite(),
            n == self@.connections.dom().len(),
    {
        let n = slab_len(&self.connection);
        assert(self@.connections.dom() =~= slab_entries(self.connection).dom());
        n
    }

    /// Whether slot `p` holds a connection.
    pub fn has_connection(&self, p: Ptr<Connection>) -> (b: bool)
        ensures
            b == self@.connections.contains_key(p@),
    {
        slab_contains(&self.connection, p.index())
    }

    /// The connection in slot `p`, if there is one.
    pub fn connection(&self, p: Ptr<Connection>) -> (r: Option<&Connection>)
        ensures
            match r {
                Some(c) => self@.connections.contains_key(p@) && c@ == self@.connections[p@],
                None => !self@.connections.contains_key(p@),
            },
    {
        slab_get(&self.connection, p.index())
    }

    /// Takes the record of stream `sid` out of connection `p`.
    pub fn take_stream(&mut self, p: Ptr<Connection>, sid: u64) -> (r: Lookup)
        ensures
            final(self)@ == close_stream(old(self)@, p@, sid),
            final(self).env == old(self).env,
            final(self).is_uring == old(self).is_uring,
            match r {
                Lookup::NoConnection => !old(self)@.connections.contains_key(p@),
                Lookup::Absent => old(self)@.connections.contains_key(p@) && !old(
                    self,
                )@.connections[p@].streams.contains_key(sid),
                Lookup::Found(rec) => old(self)@.connections.contains_key(p@) && old(
                    self,
                )@.connections[p@].streams.contains_key(sid) && rec@ == old(
                    self,
                )@.connections[p@].streams[sid],
            },
    {
        match slab_get_mut(&mut self.connection, p.index()) {
            None => {
                assert(self@.connections =~= old(self)@.connections);
                assert(self@.responses =~= old(self)@.responses);
                Lookup::NoConnection
            },
            Some(c) => {
                let found = c.take_stream(sid);
                assert(self@.connections =~= close_stream(old(self)@, p@, sid).connections);
                match found {
                    Some(rec) => Lookup::Found(rec),
                    None => Lookup::Absent,
                }
            },
        }
    }

    /// Stores `rec` as the record of stream `sid` of connection `p`. Does
    /// nothing when the slot holds no connection.
    pub fn put_stream(&mut self, p: Ptr<Connection>, sid: u64, rec: DbStream)
        ensures
            final(self)@ == put_stream(old(self)@, p@, sid, rec@),
            final(self).env == old(self).env,
            final(self).is_uring == old(self).is_uring,
    {
        match slab_get_mut(&mut self.connection, p.index()) {
            None => {
                assert(self@.connections =~= old(self)@.connections);
            },
            Some(c) => {
                c.put_stream(sid, rec);
                assert(self@.connections =~= put_stream(old(self)@, p@, sid, rec@).connections);
            },
        }
    }

    /// Queues a response.
    pub fn push_response(&mut self, r: Response)
        ensures
            final(self)@ == respond(old(self)@, r@),
            final(self).env == old(self).env,
            final(self).is_uring == old(self).is_uring,
    {
        self.responses.push(r);
        assert(self@.responses =~= old(self)@.responses.push(r@));
        assert(self@.connections =~= old(self)@.connections);
    }

    /// Takes the queued responses, oldest first, and leaves the sink empty.
    pub fn take_responses(&mut self) -> (out: Vec<Response>)
        ensures
            out@.len() == old(self)@.responses.len(),
            forall|i: int| 0 <= i < out@.len() ==> (#[trigger] out@[i])@ == old(self)@.responses[i],
            final(self)@ == (ThreadModel { responses: Seq::empty(), ..old(self)@ }),
            final(self).env == old(self).env,
            final(self).is_uring == old(self).is_uring,
    {
        let mut out: Vec<Response> = Vec::new();
        std::mem::swap(&mut out, &mut self.responses);
        assert(self@.responses =~= Seq::<ResponseModel>::empty());
        assert(self@.connections =~= old(self)@.connections);
        out
    }

    /// Reports result bytes for a stream. They are queued for sending, and
    /// if they complete the stream its record is discarded.
    pub fn result(&mut self, connection: Ptr<Connection>, streamid: u64, buf: &[u8], complete: bool)
        ensures
            final(self)@ == spec_result(old(self)@, connection@, streamid, buf@, complete),
            final(self).env == old(self).env,
            final(self).is_uring == old(self).is_uring,
    {
        if complete {
            let _ = self.take_stream(connection, streamid);
        }
        let bytes = tail(buf, 0);
        assert(bytes@ == buf@);
        self.push_response(
            Response::Data { connection: connection.index(), streamid, bytes, complete },
        );
    }

    /// Reports that a stream ended with an error. The code is queued for
    /// sending and the stream's record is discarded; no other stream is touched.
    pub fn result_error(&mut self, connection: Ptr<Connection>, streamid: u64, error: i32)
        ensures
            final(self)@ == spec_result_error(old(self)@, connection@, streamid, error),
            final(self).env == old(self).env,
            final(self).is_uring == old(self).is_uring,
    {
        let _ = self.take_stream(connection, streamid);
        self.push_response(
            Response::Error { connection: connection.index(), streamid, code: error },
        );
    }

    /// Acts on what a procedure handed back for stream `streamid`, whose
    /// record is `rec`.
    pub fn settle(
        &mut self,
        connection: Ptr<Connection>,
        streamid: u64,
        rec: DbStream,
        outcome: ProcOutcome,
    )
        ensures
            final(self)@ == settle(old(self)@, connection@, streamid, rec@, outcome@),
            final(self).env == old(self).env,
            final(self).is_uring == old(self).is_uring,
    {
        match outcome {
            ProcOutcome::Done(bytes) => {
                let _ = self.take_stream(connection, streamid);
                self.push_response(
                    Response::Data {
                        connection: connection.index(),
                        streamid,
                        bytes,
                        complete: true,
                    },
                );
            },
            ProcOutcome::Failed(code) => {
                self.result_error(connection, streamid, code);
            },
            ProcOutcome::Pending => {
                let DbStream { header, target, buffer, suspended: _ } = rec;
                self.put_stream(
                    connection,
                    streamid,
                    DbStream { header, target, buffer, suspended: true },
                );
            },
        }
    }
}

} // verus!
