//! Routing a packet of a stream to its procedure.
//!
//! A stream's first packet starts with the request header. The header is
//! resolved through the connection's own environment view into the global
//! interface table; that chain is the authorization boundary. A stream
//! that takes more than one packet is accumulated in the connection's
//! stream map until its last packet arrives; then the procedure is invoked
//! once, with the whole body.
//!
//! A stream id is bound to its record only while the stream is open. Once
//! a stream has completed, or ended with an error, a packet that bears the
//! same id starts a new stream and is parsed as a header again.

use vstd::prelude::*;
use crate::bytes::{append, tail};
use crate::error::{DbError, DbResult, INVALID_ARGUMENT};
use crate::exec::header::{spec_header, StreamHeader, HEADER_LEN};
use crate::exec::model::{
    Connection, Db, DbStream, Environment, OutcomeModel, ParameterBlock, Procedure, StreamModel,
    Target, ThreadModel,
};
use crate::exec::table::{Ptr, Vecb};
use crate::exec::thread::{
    close_stream, put_stream, settle, spec_result_error, DbThread, Lookup,
};

verus! {

/// Where header `h` leads for a connection whose permitted environments
/// are `conn_env`, in a thread whose environments are `envs`, over
/// interfaces with `shape[i]` procedures each. Every index is checked
/// against its table; `None` when any of them is out of range.
pub open spec fn resolve(
    shape: Seq<nat>,
    envs: Seq<Seq<usize>>,
    conn_env: Seq<usize>,
    h: StreamHeader,
) -> Option<Target> {
    if h.env < conn_env.len() && conn_env[h.env as int] < envs.len() {
        let env = conn_env[h.env as int];
        if h.iface < envs[env as int].len() && envs[env as int][h.iface as int] < shape.len() {
            let iface = envs[env as int][h.iface as int];
            if h.procid < shape[iface as int] {
                Some(Target { env, iface, procid: h.procid as usize })
            } else {
                None
            }
        } else {
            None
        }
    } else {
        None
    }
}

/// Whether `target` names a procedure of interfaces with `shape[i]`
/// procedures each.
pub open spec fn fits(shape: Seq<nat>, target: Target) -> bool {
    target.iface < shape.len() && target.procid < shape[target.iface as int]
}

/// What the dispatcher does with a packet.
pub enum Plan {
    /// The slot holds no connection: the packet is refused and nothing changes.
    NoConnection,
    /// The packet is structurally wrong for its stream: it is refused with
    /// an invalid-argument condition on that stream.
    Reject,
    /// The packet is stored; the stream's record becomes this.
    Accumulate(StreamModel),
    /// The packet completes the request; the procedure of this record is
    /// invoked with the record's buffer as its body.
    Invoke(StreamModel),
}

/// What the dispatcher does with packet `buf` of stream `sid` on connection
/// `conn`, where `last` marks the stream's final packet.
///
/// On an open stream the packet's bytes extend the body; they are refused
/// on a stream whose procedure is already running, and on one whose record
/// names no procedure of the tables when the time comes to invoke it. On an
/// unseen stream the packet must begin with a header that resolves.
pub open spec fn plan(
    shape: Seq<nat>,
    t: ThreadModel,
    conn: usize,
    sid: u64,
    buf: Seq<u8>,
    last: bool,
) -> Plan {
    if !t.connections.contains_key(conn) {
        Plan::NoConnection
    } else if t.connections[conn].streams.contains_key(sid) {
        let rec = t.connections[conn].streams[sid];
        if rec.suspended || (last && !fits(shape, rec.target)) {
            Plan::Reject
        } else {
            let grown = StreamModel { buffer: rec.buffer + buf, ..rec };
            if last {
                Plan::Invoke(grown)
            } else {
                Plan::Accumulate(grown)
            }
        }
    } else if buf.len() < HEADER_LEN {
        Plan::Reject
    } else {
        match resolve(shape, t.env, t.connections[conn].env, spec_header(buf)) {
            None => Plan::Reject,
            Some(target) => {
                let rec = StreamModel {
                    header: spec_header(buf),
                    target,
                    buffer: buf.skip(HEADER_LEN as int),
                    suspended: false,
                };
                if last {
                    Plan::Invoke(rec)
                } else {
                    Plan::Accumulate(rec)
                }
            },
        }
    }
}

/// Whether `post` is the thread `pre` after `procedure` was invoked for
/// stream `sid` with the body of `rec` and what it handed back was
/// settled. The procedure is handed the environment its record names,
/// the tables, the thread as it is with the stream's record taken out,
/// the connection, the whole body and the stream id.
pub open spec fn invoked<P: Procedure>(
    db: Db<P>,
    procedure: P,
    pre: ThreadModel,
    post: ThreadModel,
    conn: usize,
    sid: u64,
    rec: StreamModel,
) -> bool {
    exists|outcome: OutcomeModel|
        procedure.may_return(
            rec.target.env,
            &db,
            close_stream(pre, conn, sid),
            conn,
            rec.buffer,
            sid,
            outcome,
        ) && post == #[trigger] settle(pre, conn, sid, rec, outcome)
}

/// How a thread may look after a packet was dispatched without reporting
/// refusals: a refused packet leaves it as it was; a stored one becomes
/// its stream's record; one that completes a request has the record's
/// procedure invoked, once, with the whole body.
pub open spec fn dispatched<P: Procedure>(
    db: Db<P>,
    pre: ThreadModel,
    post: ThreadModel,
    p: Plan,
    conn: usize,
    sid: u64,
) -> bool {
    match p {
        Plan::NoConnection => post == pre,
        Plan::Reject => post == pre,
        Plan::Accumulate(rec) => post == put_stream(pre, conn, sid, rec),
        Plan::Invoke(rec) => invoked(
            db,
            db.iface@[rec.target.iface as int]@[rec.target.procid as int],
            pre,
            post,
            conn,
            sid,
            rec,
        ),
    }
}

/// How a thread may look after a packet was dispatched and a refusal was
/// reported to the peer on the packet's stream.
pub open spec fn dispatched_reporting<P: Procedure>(
    db: Db<P>,
    pre: ThreadModel,
    post: ThreadModel,
    p: Plan,
    conn: usize,
    sid: u64,
) -> bool {
    match p {
        Plan::Reject => post == spec_result_error(pre, conn, sid, INVALID_ARGUMENT),
        _ => dispatched(db, pre, post, p, conn, sid),
    }
}

impl<P: Procedure> Db<P> {
    /// Resolves a header for a connection: environment, then interface,
    /// then procedure, each index checked against its table.
    pub fn resolve(
        &self,
        envs: &Vecb<Environment>,
        conn_env: &Vecb<usize>,
        header: &StreamHeader,
    ) -> (r: DbResult<Target>)
        ensures
            match r {
                Ok(target) => resolve(
                    self.shape(),
                    Seq::new(envs@.len(), |i: int| envs@[i].iface@),
                    conn_env@,
                    *header,
                ) == Some(target),
                Err(e) => e is InvalidArgument && resolve(
                    self.shape(),
                    Seq::new(envs@.len(), |i: int| envs@[i].iface@),
                    conn_env@,
                    *header,
                ) is None,
            },
    {
        let local = conn_env.get(header.env as usize)?;
        let env_index: usize = *conn_env.resolve(local)?;
        let env_ptr = envs.get(env_index)?;
        let env = envs.resolve(env_ptr)?;
        let handle = env.iface.get(header.iface as usize)?;
        let iface_index: usize = *env.iface.resolve(handle)?;
        let iface_ptr = self.iface.get(iface_index)?;
        let iface = self.iface.resolve(iface_ptr)?;
        let proc_ptr = iface.get(header.procid as usize)?;
        Ok(Target { env: env_index, iface: iface_index, procid: proc_ptr.index() })
    }

    /// Whether `target` names a procedure of these tables.
    pub fn fits(&self, target: &Target) -> (b: bool)
        ensures
            b == fits(self.shape(), *target),
    {
        target.iface < self.iface.len() && target.procid < self.iface.vec[target.iface].len()
    }

    /// Dispatches one packet and reports a refusal to the peer: a packet
    /// that is too short for a header, or whose header points outside a
    /// table, or that arrives for a stream whose procedure is already
    /// running, fails with `InvalidArgument`, and that condition is
    /// queued as an error response on the packet's stream, which ends
    /// that stream. No other stream of the connection, and no other
    /// connection, is touched.
    pub fn handle_read(
        &self,
        thread: &mut DbThread,
        connection: Ptr<Connection>,
        streamid: u64,
        buf: &[u8],
        last: bool,
    ) -> (r: DbResult<()>)
        ensures
            dispatched_reporting(
                *self,
                old(thread)@,
                final(thread)@,
                plan(self.shape(), old(thread)@, connection@, streamid, buf@, last),
                connection@,
                streamid,
            ),
            r is Err <==> (plan(self.shape(), old(thread)@, connection@, streamid, buf@, last)
                is NoConnection || plan(
                self.shape(),
                old(thread)@,
                connection@,
                streamid,
                buf@,
                last,
            ) is Reject),
            r matches Err(e) ==> e is InvalidArgument,
            final(thread).env == old(thread).env,
            final(thread).is_uring == old(thread).is_uring,
    {
        let known = thread.has_connection(connection);
        match handle_read(self, thread, connection, streamid, buf, last) {
            Ok(()) => Ok(()),
            Err(e) => {
                if known {
                    thread.result_error(connection, streamid, INVALID_ARGUMENT);
                }
                Err(e)
            },
        }
    }
}

/// Dispatches one packet of stream `streamid` on `connection`; `fin` marks
/// the stream's final packet. A refused packet fails with
/// `InvalidArgument` and leaves the thread as it was; reporting it is left
/// to the caller.
pub fn handle_read<P: Procedure>(
    db: &Db<P>,
    thread: &mut DbThread,
    connection: Ptr<Connection>,
    streamid: u64,
    buf: &[u8],
    fin: bool,
) -> (r: Result<(), DbError>)
    ensures
        dispatched(
            *db,
            old(thread)@,
            final(thread)@,
            plan(db.shape(), old(thread)@, connection@, streamid, buf@, fin),
            connection@,
            streamid,
        ),
        r is Err <==> (plan(db.shape(), old(thread)@, connection@, streamid, buf@, fin)
            is NoConnection || plan(db.shape(), old(thread)@, connection@, streamid, buf@, fin)
            is Reject),
        r matches Err(e) ==> e is InvalidArgument,
        final(thread).env == old(thread).env,
        final(thread).is_uring == old(thread).is_uring,
{
    let ghost pre = thread@;
    let ghost shape = db.shape();
    let rec = match thread.take_stream(connection, streamid) {
        Lookup::NoConnection => {
            assert(thread@ == pre);
            return Err(DbError::InvalidArgument);
        },
        Lookup::Found(found) => {
            if found.suspended || (fin && !db.fits(&found.target)) {
                thread.put_stream(connection, streamid, found);
                assert(thread@ == pre) by {
                    lemma_put_back(pre, connection@, streamid);
                }
                return Err(DbError::InvalidArgument);
            }
            let DbStream { header, target, mut buffer, suspended } = found;
            append(&mut buffer, buf);
            DbStream { header, target, buffer, suspended }
        },
        Lookup::Absent => {
            assert(thread@ == pre) by {
                lemma_close_absent(pre, connection@, streamid);
            }
            let resolved = match thread.connection(connection) {
                None => {
                    return Err(DbError::InvalidArgument);
                },
                Some(c) => {
                    match StreamHeader::new(buf) {
                        Err(e) => {
                            return Err(e);
                        },
                        Ok(header) => match db.resolve(&thread.env, &c.env, &header) {
                            Err(e) => {
                                return Err(e);
                            },
                            Ok(target) => (header, target),
                        },
                    }
                },
            };
            DbStream {
                header: resolved.0,
                target: resolved.1,
                buffer: tail(buf, HEADER_LEN),
                suspended: false,
            }
        },
    };
    let ghost mid = thread@;
    assert(mid == close_stream(pre, connection@, streamid));
    assert(plan(shape, pre, connection@, streamid, buf@, fin) == if fin {
        Plan::Invoke(rec@)
    } else {
        Plan::Accumulate(rec@)
    });
    assert(fin ==> fits(shape, rec.target));
    let ghost planned = rec@;
    if !fin {
        thread.put_stream(connection, streamid, rec);
        assert(thread@ == put_stream(pre, connection@, streamid, rec@)) by {
            lemma_put_after_close(pre, connection@, streamid, rec@);
        }
        return Ok(());
    }
    let DbStream { header, target, buffer, suspended } = rec;
    let pm = ParameterBlock { blob: Vec::new(), inline: buffer };
    let procedure = &db.iface.vec[target.iface].vec[target.procid];
    let outcome = procedure.invoke(
        Ptr::from_index(target.env),
        db,
        &*thread,
        connection,
        &pm,
        streamid,
    );
    let ParameterBlock { blob: _, inline } = pm;
    let rec = DbStream { header, target, buffer: inline, suspended };
    let ghost model = rec@;
    let ghost result = outcome@;
    assert(model == planned);
    thread.settle(connection, streamid, rec, outcome);
    assert(thread@ == settle(pre, connection@, streamid, model, result)) by {
        lemma_settle_after_close(pre, connection@, streamid, model, result);
    }
    Ok(())
}

/// Putting back a record that was taken out restores the thread.
pub proof fn lemma_put_back(t: ThreadModel, conn: usize, sid: u64)
    requires
        t.connections.contains_key(conn),
        t.connections[conn].streams.contains_key(sid),
    ensures
        put_stream(
            close_stream(t, conn, sid),
            conn,
            sid,
            t.connections[conn].streams[sid],
        ) == t,
{
    let c = t.connections[conn];
    let post = put_stream(close_stream(t, conn, sid), conn, sid, c.streams[sid]);
    assert(post.connections[conn].streams =~= c.streams);
    assert(post.connections =~= t.connections);
}

/// Discarding a stream that is not open changes nothing.
pub proof fn lemma_close_absent(t: ThreadModel, conn: usize, sid: u64)
    requires
        t.connections.contains_key(conn) ==> !t.connections[conn].streams.contains_key(sid),
    ensures
        close_stream(t, conn, sid) == t,
{
    if t.connections.contains_key(conn) {
        let c = t.connections[conn];
        let post = close_stream(t, conn, sid);
        assert(post.connections[conn].streams =~= c.streams);
        assert(post.connections =~= t.connections);
    }
}

/// Storing a record replaces whatever the stream had before.
pub proof fn lemma_put_after_close(t: ThreadModel, conn: usize, sid: u64, rec: StreamModel)
    ensures
        put_stream(close_stream(t, conn, sid), conn, sid, rec) == put_stream(
            t,
            conn,
            sid,
            rec,
        ),
{
    if t.connections.contains_key(conn) {
        let a = put_stream(close_stream(t, conn, sid), conn, sid, rec);
        let b = put_stream(t, conn, sid, rec);
        assert(a.connections[conn].streams =~= b.connections[conn].streams);
        assert(a.connections =~= b.connections);
    }
}

/// Discarding a stream twice is discarding it once.
pub proof fn lemma_close_twice(t: ThreadModel, conn: usize, sid: u64)
    ensures
        close_stream(close_stream(t, conn, sid), conn, sid)
            == close_stream(t, conn, sid),
{
    lemma_close_absent(close_stream(t, conn, sid), conn, sid);
}

/// Settling an outcome does not depend on whether the stream's earlier
/// record was already taken out.
pub proof fn lemma_settle_after_close(
    t: ThreadModel,
    conn: usize,
    sid: u64,
    rec: StreamModel,
    outcome: OutcomeModel,
)
    ensures
        settle(close_stream(t, conn, sid), conn, sid, rec, outcome) == settle(
            t,
            conn,
            sid,
            rec,
            outcome,
        ),
{
    lemma_close_twice(t, conn, sid);
    lemma_put_after_close(t, conn, sid, StreamModel { suspended: true, ..rec });
}

} // verus!
