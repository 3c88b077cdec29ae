//! What holds of the dispatcher on every input.

use vstd::prelude::*;
use crate::exec::dispatch::{plan, resolve};
use crate::exec::header::{spec_header, StreamHeader, HEADER_LEN};
use crate::exec::model::{ConnectionModel, StreamModel, ThreadModel};
use crate::exec::thread::{put_stream, spec_result_error, with_connection, without_connection};

verus! {

/// A stream whose first packet is shorter than a header is always
/// refused, whatever the tables hold.
pub proof fn lemma_short_first_packet_refused(
    shape: Seq<nat>,
    t: ThreadModel,
    conn: usize,
    sid: u64,
    buf: Seq<u8>,
    last: bool,
)
    requires
        t.connections.contains_key(conn),
        !t.connections[conn].streams.contains_key(sid),
        buf.len() < HEADER_LEN,
    ensures
        plan(shape, t, conn, sid, buf, last) is Reject,
{
}

/// A header resolves only if each of its three indices lies inside the
/// table it is looked up in; a header with any index outside resolves to
/// nothing.
pub proof fn lemma_resolve_in_bounds(
    shape: Seq<nat>,
    envs: Seq<Seq<usize>>,
    conn_env: Seq<usize>,
    h: StreamHeader,
)
    ensures
        resolve(shape, envs, conn_env, h) matches Some(target) ==> {
            &&& h.env < conn_env.len()
            &&& target.env == conn_env[h.env as int]
            &&& target.env < envs.len()
            &&& h.iface < envs[target.env as int].len()
            &&& target.iface == envs[target.env as int][h.iface as int]
            &&& target.iface < shape.len()
            &&& target.procid == h.procid
            &&& target.procid < shape[target.iface as int]
        },
        h.env >= conn_env.len() ==> resolve(shape, envs, conn_env, h) is None,
        h.env < conn_env.len() && conn_env[h.env as int] >= envs.len() ==> resolve(
            shape,
            envs,
            conn_env,
            h,
        ) is None,
        h.env < conn_env.len() && conn_env[h.env as int] < envs.len() && h.iface
            >= envs[conn_env[h.env as int] as int].len() ==> resolve(shape, envs, conn_env, h)
            is None,
{
}

/// A first packet whose header does not resolve through the connection's
/// own environment is always refused.
pub proof fn lemma_unresolved_refused(
    shape: Seq<nat>,
    t: ThreadModel,
    conn: usize,
    sid: u64,
    buf: Seq<u8>,
    last: bool,
)
    requires
        t.connections.contains_key(conn),
        !t.connections[conn].streams.contains_key(sid),
        buf.len() >= HEADER_LEN,
        resolve(shape, t.env, t.connections[conn].env, spec_header(buf)) is None,
    ensures
        plan(shape, t, conn, sid, buf, last) is Reject,
{
}

/// Reporting an error on one stream disturbs no other stream of the
/// connection and no other connection: it adds one response and discards
/// at most that stream's record.
pub proof fn lemma_refusal_is_isolated(t: ThreadModel, conn: usize, sid: u64, code: i32)
    ensures
        ({
            let post = spec_result_error(t, conn, sid, code);
            &&& post.env == t.env
            &&& post.connections.dom() == t.connections.dom()
            &&& post.responses.len() == t.responses.len() + 1
            &&& forall|other: usize|
                other != conn && t.connections.contains_key(other)
                    ==> #[trigger] post.connections[other] == t.connections[other]
            &&& t.connections.contains_key(conn) ==> {
                &&& post.connections[conn].env == t.connections[conn].env
                &&& post.connections[conn].user == t.connections[conn].user
                &&& forall|s: u64|
                    s != sid ==> (#[trigger] post.connections[conn].streams.contains_key(s)
                        == t.connections[conn].streams.contains_key(s))
                &&& forall|s: u64|
                    s != sid && t.connections[conn].streams.contains_key(s)
                        ==> #[trigger] post.connections[conn].streams[s]
                        == t.connections[conn].streams[s]
                &&& !post.connections[conn].streams.contains_key(sid)
            }
        }),
{
    let post = spec_result_error(t, conn, sid, code);
    assert(post.connections.dom() =~= t.connections.dom());
}

/// Closing a connection releases every accumulation record it held and
/// returns the slot table to what it was before the connection was
/// opened, whatever was accumulated on it in between.
pub proof fn lemma_teardown_restores(
    t: ThreadModel,
    conn: usize,
    c: ConnectionModel,
    sid: u64,
    rec: StreamModel,
)
    requires
        !t.connections.contains_key(conn),
    ensures
        without_connection(with_connection(t, conn, c), conn) == t,
        without_connection(put_stream(with_connection(t, conn, c), conn, sid, rec), conn) == t,
        without_connection(with_connection(t, conn, c), conn).connections.dom().len()
            == t.connections.dom().len(),
{
    let opened = with_connection(t, conn, c);
    assert(without_connection(opened, conn).connections =~= t.connections);
    let mid = put_stream(opened, conn, sid, rec);
    assert(without_connection(mid, conn).connections =~= t.connections);
}

/// A request that arrives in two packets is dispatched as the same
/// request arriving in one: once the first packet has been stored, the
/// second leads to the invocation that the two packets together, as one
/// final packet, would have led to.
pub proof fn lemma_accumulation_joins_packets(
    shape: Seq<nat>,
    t: ThreadModel,
    conn: usize,
    sid: u64,
    first: Seq<u8>,
    second: Seq<u8>,
)
    requires
        plan(shape, t, conn, sid, first, false) is Accumulate,
        !t.connections[conn].streams.contains_key(sid),
    ensures
        ({
            let stored = plan(shape, t, conn, sid, first, false)->Accumulate_0;
            plan(shape, put_stream(t, conn, sid, stored), conn, sid, second, true) == plan(
                shape,
                t,
                conn,
                sid,
                first + second,
                true,
            )
        }),
{
    let stored = plan(shape, t, conn, sid, first, false)->Accumulate_0;
    let whole = first + second;
    assert(first.len() >= HEADER_LEN);
    assert(spec_header(whole) == spec_header(first));
    assert(whole.skip(HEADER_LEN as int) =~= first.skip(HEADER_LEN as int) + second);
    lemma_resolve_in_bounds(shape, t.env, t.connections[conn].env, spec_header(first));
}

} // verus!
