use std::sync::atomic::{AtomicUsize, Ordering};
use std::sync::{Arc, Mutex};

use simpleweb::error::{DbError, INVALID_ARGUMENT};
use simpleweb::exec::dispatch::handle_read;
use simpleweb::exec::header::StreamHeader;
use simpleweb::exec::model::{
    Connection, ConnectionType, Db, DbStream, Echo, Environment, ParameterBlock, ProcOutcome,
    Procedure, Response, Target,
};
use simpleweb::exec::table::{Ptr, Vecb};
use simpleweb::exec::thread::DbThread;

#[derive(Clone, Copy)]
enum Behaviour {
    Echo,
    Fail(i32),
    Suspend,
}

struct Seen {
    env: usize,
    connection: usize,
    streamid: u64,
    body: Vec<u8>,
    interfaces: usize,
    connections: usize,
    record_present: bool,
}

struct Probe {
    calls: Arc<AtomicUsize>,
    seen: Arc<Mutex<Vec<Seen>>>,
    behaviour: Behaviour,
}

impl Procedure for Probe {
    fn invoke(
        &self,
        env: Ptr<Environment>,
        db: &Db<Self>,
        thread: &DbThread,
        cn: Ptr<Connection>,
        pm: &ParameterBlock,
        streamid: u64,
    ) -> ProcOutcome {
        self.calls.fetch_add(1, Ordering::SeqCst);
        self.seen.lock().unwrap().push(Seen {
            env: env.index(),
            connection: cn.index(),
            streamid,
            body: pm.inline.clone(),
            interfaces: db.iface.len(),
            connections: thread.connection_count(),
            record_present: thread.connection(cn).map(|c| c.has_stream(streamid)).unwrap_or(false),
        });
        match self.behaviour {
            Behaviour::Echo => ProcOutcome::Done(pm.inline.clone()),
            Behaviour::Fail(code) => ProcOutcome::Failed(code),
            Behaviour::Suspend => ProcOutcome::Pending,
        }
    }
}

struct World {
    db: Db<Probe>,
    thread: DbThread,
    connection: Ptr<Connection>,
    calls: Vec<Vec<Arc<AtomicUsize>>>,
    seen: Arc<Mutex<Vec<Seen>>>,
}

/// Three interfaces of four procedures each; two environments that see all
/// three interfaces; one connection that may use both environments.
fn world(behaviour: Behaviour) -> World {
    let seen = Arc::new(Mutex::new(Vec::new()));
    let mut calls = Vec::new();
    let mut ifaces = Vec::new();
    for _ in 0..3 {
        let mut row = Vec::new();
        let mut procs = Vec::new();
        for _ in 0..4 {
            let counter = Arc::new(AtomicUsize::new(0));
            row.push(counter.clone());
            procs.push(Probe { calls: counter, seen: seen.clone(), behaviour });
        }
        calls.push(row);
        ifaces.push(Vecb::new(procs));
    }
    let db = Db { user: Vecb::new(Vec::new()), iface: Vecb::new(ifaces) };
    let envs = vec![
        Environment { iface: Vecb::new(vec![0, 1, 2]) },
        Environment { iface: Vecb::new(vec![0, 1, 2]) },
    ];
    let mut thread = DbThread::new(false, envs);
    let connection = thread.open_connection(Connection::new(ConnectionType::Tcp, 9, vec![0, 1]));
    World { db, thread, connection, calls, seen }
}

fn total_calls(w: &World) -> usize {
    w.calls.iter().flatten().map(|c| c.load(Ordering::SeqCst)).sum()
}

fn header(env: u16, iface: u16, procid: u16, flags: u16) -> Vec<u8> {
    StreamHeader { env, iface, procid, continues: flags }.to_bytes()
}

#[test]
fn simple_dispatch_invokes_the_procedure_once() {
    let mut w = world(Behaviour::Echo);
    let packet = header(1, 2, 3, 0);
    assert_eq!(packet, vec![1, 0, 2, 0, 3, 0, 0, 0]);
    let r = w.db.handle_read(&mut w.thread, w.connection, 7, &packet, true);
    assert!(r.is_ok());
    assert_eq!(w.calls[2][3].load(Ordering::SeqCst), 1);
    assert_eq!(total_calls(&w), 1);
    let seen = w.seen.lock().unwrap();
    assert_eq!(seen.len(), 1);
    assert_eq!(seen[0].env, 1);
    assert_eq!(seen[0].connection, w.connection.index());
    assert_eq!(seen[0].streamid, 7);
    assert!(seen[0].body.is_empty());
    // The procedure was handed the tables and the dispatching thread.
    assert_eq!(seen[0].interfaces, 3);
    assert_eq!(seen[0].connections, 1);
    assert!(!seen[0].record_present);
    drop(seen);
    let responses = w.thread.take_responses();
    assert_eq!(responses.len(), 1);
    match &responses[0] {
        Response::Data { connection, streamid, bytes, complete } => {
            assert_eq!(*connection, w.connection.index());
            assert_eq!(*streamid, 7);
            assert!(bytes.is_empty());
            assert!(*complete);
        }
        Response::Error { .. } => panic!("expected data"),
    }
    assert!(!w.thread.connection(w.connection).unwrap().has_stream(7));
}

#[test]
fn the_body_after_the_header_reaches_the_procedure() {
    let mut w = world(Behaviour::Echo);
    let mut packet = header(0, 1, 2, 0);
    packet.extend_from_slice(b"hello");
    assert!(handle_read(&w.db, &mut w.thread, w.connection, 1, &packet, true).is_ok());
    assert_eq!(w.calls[1][2].load(Ordering::SeqCst), 1);
    assert_eq!(w.seen.lock().unwrap()[0].body, b"hello".to_vec());
    let responses = w.thread.take_responses();
    assert!(matches!(&responses[0], Response::Data { bytes, complete: true, .. } if bytes == b"hello"));
}

#[test]
fn short_first_packet_is_rejected_on_its_stream_only() {
    for n in 0..8usize {
        let mut w = world(Behaviour::Echo);
        let packet = header(1, 2, 3, 0);
        let r = w.db.handle_read(&mut w.thread, w.connection, 5, &packet[..n], true);
        assert!(matches!(r, Err(DbError::InvalidArgument)));
        assert_eq!(total_calls(&w), 0);
        let responses = w.thread.take_responses();
        assert_eq!(responses.len(), 1);
        assert!(matches!(
            &responses[0],
            Response::Error { streamid: 5, code, .. } if *code == INVALID_ARGUMENT
        ));
        assert_eq!(w.thread.connection_count(), 1);
        assert_eq!(w.thread.connection(w.connection).unwrap().stream_count(), 0);
    }
}

#[test]
fn the_unreporting_entry_point_leaves_the_thread_untouched_on_refusal() {
    let mut w = world(Behaviour::Echo);
    let r = handle_read(&w.db, &mut w.thread, w.connection, 5, &[1, 0, 2], true);
    assert!(matches!(r, Err(DbError::InvalidArgument)));
    assert!(w.thread.take_responses().is_empty());
    assert_eq!(total_calls(&w), 0);
}

#[test]
fn out_of_range_handles_are_rejected_at_every_level() {
    let bad = [
        header(2, 0, 0, 0),
        header(0xffff, 0, 0, 0),
        header(0, 3, 0, 0),
        header(1, 0xffff, 0, 0),
        header(0, 0, 4, 0),
        header(1, 2, 0xffff, 0),
    ];
    for packet in bad.iter() {
        let mut w = world(Behaviour::Echo);
        let r = w.db.handle_read(&mut w.thread, w.connection, 11, packet, true);
        assert!(matches!(r, Err(DbError::InvalidArgument)));
        assert_eq!(total_calls(&w), 0);
        let responses = w.thread.take_responses();
        assert_eq!(responses.len(), 1);
        assert!(matches!(&responses[0], Response::Error { streamid: 11, code: 22, .. }));
    }
}

#[test]
fn indirection_goes_through_the_connections_own_environment() {
    let seen = Arc::new(Mutex::new(Vec::new()));
    let counters: Vec<Arc<AtomicUsize>> = (0..2).map(|_| Arc::new(AtomicUsize::new(0))).collect();
    let ifaces = counters
        .iter()
        .map(|c| {
            Vecb::new(vec![Probe { calls: c.clone(), seen: seen.clone(), behaviour: Behaviour::Echo }])
        })
        .collect();
    let db = Db { user: Vecb::new(Vec::new()), iface: Vecb::new(ifaces) };
    // Environment 0 sees only interface 1; environment 1 sees only interface 0.
    let envs = vec![
        Environment { iface: Vecb::new(vec![1]) },
        Environment { iface: Vecb::new(vec![0]) },
    ];
    let mut thread = DbThread::new(false, envs);
    // The connection's handle 0 stands for environment 1; it has no other.
    let cn = thread.open_connection(Connection::new(ConnectionType::Udp, 1, vec![1]));
    assert!(db.handle_read(&mut thread, cn, 1, &header(0, 0, 0, 0), true).is_ok());
    assert_eq!(counters[0].load(Ordering::SeqCst), 1);
    assert_eq!(counters[1].load(Ordering::SeqCst), 0);
    assert_eq!(seen.lock().unwrap()[0].env, 1);
    // Interface 1 exists globally but is not reachable from this connection.
    let r = db.handle_read(&mut thread, cn, 2, &header(0, 1, 0, 0), true);
    assert!(matches!(r, Err(DbError::InvalidArgument)));
    let r = db.handle_read(&mut thread, cn, 3, &header(1, 0, 0, 0), true);
    assert!(matches!(r, Err(DbError::InvalidArgument)));
    assert_eq!(counters[1].load(Ordering::SeqCst), 0);
}

#[test]
fn an_environment_handle_outside_the_thread_pool_is_rejected() {
    let mut w = world(Behaviour::Echo);
    let cn = w.thread.open_connection(Connection::new(ConnectionType::Tcp, 1, vec![5]));
    let r = w.db.handle_read(&mut w.thread, cn, 1, &header(0, 0, 0, 0), true);
    assert!(matches!(r, Err(DbError::InvalidArgument)));
    assert_eq!(total_calls(&w), 0);
}

#[test]
fn an_interface_handle_outside_the_global_table_is_rejected() {
    let seen = Arc::new(Mutex::new(Vec::new()));
    let counter = Arc::new(AtomicUsize::new(0));
    let db = Db {
        user: Vecb::new(Vec::new()),
        iface: Vecb::new(vec![Vecb::new(vec![Probe {
            calls: counter.clone(),
            seen,
            behaviour: Behaviour::Echo,
        }])]),
    };
    let mut thread = DbThread::new(false, vec![Environment { iface: Vecb::new(vec![7]) }]);
    let cn = thread.open_connection(Connection::new(ConnectionType::Tcp, 1, vec![0]));
    let r = db.handle_read(&mut thread, cn, 1, &header(0, 0, 0, 0), true);
    assert!(matches!(r, Err(DbError::InvalidArgument)));
    assert_eq!(counter.load(Ordering::SeqCst), 0);
}

#[test]
fn a_refusal_does_not_disturb_other_streams() {
    let mut w = world(Behaviour::Echo);
    let mut first = header(0, 0, 0, 0);
    first.extend_from_slice(b"abc");
    assert!(w.db.handle_read(&mut w.thread, w.connection, 1, &first, false).is_ok());
    assert!(w.db.handle_read(&mut w.thread, w.connection, 2, &header(9, 9, 9, 0), true).is_err());
    assert!(w.db.handle_read(&mut w.thread, w.connection, 3, &[0, 0], true).is_err());
    let c = w.thread.connection(w.connection).unwrap();
    assert_eq!(c.stream_count(), 1);
    assert!(c.has_stream(1));
    assert_eq!(c.stream.get(&1).unwrap().buffer, b"abc".to_vec());
    assert!(w.db.handle_read(&mut w.thread, w.connection, 1, b"def", true).is_ok());
    assert_eq!(w.seen.lock().unwrap()[0].body, b"abcdef".to_vec());
    assert_eq!(total_calls(&w), 1);
}

#[test]
fn a_multi_packet_request_is_accumulated_and_invoked_once() {
    let mut w = world(Behaviour::Echo);
    let mut first = header(1, 1, 1, 1);
    first.extend_from_slice(&[1, 2]);
    assert!(w.db.handle_read(&mut w.thread, w.connection, 4, &first, false).is_ok());
    assert_eq!(total_calls(&w), 0);
    assert!(w.thread.take_responses().is_empty());
    {
        let c = w.thread.connection(w.connection).unwrap();
        let rec = c.stream.get(&4).unwrap();
        assert_eq!(rec.header, StreamHeader { env: 1, iface: 1, procid: 1, continues: 1 });
        assert_eq!(rec.target, Target { env: 1, iface: 1, procid: 1 });
        assert_eq!(rec.buffer, vec![1, 2]);
        assert!(!rec.suspended);
    }
    // A later packet is body, not a header: these bytes would not resolve.
    assert!(w.db.handle_read(&mut w.thread, w.connection, 4, &[0xff; 8], false).is_ok());
    assert_eq!(total_calls(&w), 0);
    assert!(w.db.handle_read(&mut w.thread, w.connection, 4, &[3], true).is_ok());
    assert_eq!(w.calls[1][1].load(Ordering::SeqCst), 1);
    assert_eq!(total_calls(&w), 1);
    let mut expected = vec![1u8, 2];
    expected.extend_from_slice(&[0xff; 8]);
    expected.push(3);
    assert_eq!(w.seen.lock().unwrap()[0].body, expected);
    // The record was out of the table while the procedure ran.
    assert!(!w.seen.lock().unwrap()[0].record_present);
    assert!(!w.thread.connection(w.connection).unwrap().has_stream(4));
    let responses = w.thread.take_responses();
    assert_eq!(responses.len(), 1);
}

#[test]
fn a_failed_procedure_reports_its_code_and_ends_the_stream() {
    let mut w = world(Behaviour::Fail(-13));
    assert!(w.db.handle_read(&mut w.thread, w.connection, 8, &header(0, 0, 0, 0), true).is_ok());
    let responses = w.thread.take_responses();
    assert_eq!(responses.len(), 1);
    assert!(matches!(&responses[0], Response::Error { streamid: 8, code: -13, .. }));
    assert!(!w.thread.connection(w.connection).unwrap().has_stream(8));
}

#[test]
fn a_suspended_procedure_keeps_its_record_until_completion_is_reported() {
    let mut w = world(Behaviour::Suspend);
    let mut packet = header(0, 2, 1, 0);
    packet.extend_from_slice(b"xy");
    assert!(w.db.handle_read(&mut w.thread, w.connection, 6, &packet, true).is_ok());
    assert_eq!(total_calls(&w), 1);
    assert!(w.thread.take_responses().is_empty());
    {
        let c = w.thread.connection(w.connection).unwrap();
        let rec = c.stream.get(&6).unwrap();
        assert!(rec.suspended);
        assert_eq!(rec.buffer, b"xy".to_vec());
    }
    // More input for a stream whose procedure is running is refused.
    let r = handle_read(&w.db, &mut w.thread, w.connection, 6, b"zz", false);
    assert!(matches!(r, Err(DbError::InvalidArgument)));
    assert!(w.thread.connection(w.connection).unwrap().has_stream(6));
    assert_eq!(total_calls(&w), 1);
    // A partial result keeps the stream; the complete one discards it.
    w.thread.result(w.connection, 6, b"part", false);
    assert!(w.thread.connection(w.connection).unwrap().has_stream(6));
    w.thread.result(w.connection, 6, b"rest", true);
    assert!(!w.thread.connection(w.connection).unwrap().has_stream(6));
    let responses = w.thread.take_responses();
    assert_eq!(responses.len(), 2);
    assert!(matches!(&responses[0], Response::Data { bytes, complete: false, streamid: 6, .. } if bytes == b"part"));
    assert!(matches!(&responses[1], Response::Data { bytes, complete: true, streamid: 6, .. } if bytes == b"rest"));
}

#[test]
fn a_stream_id_can_be_used_again_once_its_stream_has_completed() {
    let mut w = world(Behaviour::Echo);
    assert!(w.db.handle_read(&mut w.thread, w.connection, 7, &header(0, 0, 0, 0), true).is_ok());
    assert!(w.db.handle_read(&mut w.thread, w.connection, 7, &header(1, 1, 1, 0), true).is_ok());
    assert_eq!(w.calls[0][0].load(Ordering::SeqCst), 1);
    assert_eq!(w.calls[1][1].load(Ordering::SeqCst), 1);
    assert_eq!(w.thread.take_responses().len(), 2);
}

#[test]
fn result_error_discards_only_the_named_stream() {
    let mut w = world(Behaviour::Echo);
    assert!(w.db.handle_read(&mut w.thread, w.connection, 1, &header(0, 0, 0, 0), false).is_ok());
    assert!(w.db.handle_read(&mut w.thread, w.connection, 2, &header(0, 0, 1, 0), false).is_ok());
    w.thread.result_error(w.connection, 1, 99);
    let c = w.thread.connection(w.connection).unwrap();
    assert!(!c.has_stream(1));
    assert!(c.has_stream(2));
    let responses = w.thread.take_responses();
    assert!(matches!(&responses[0], Response::Error { streamid: 1, code: 99, .. }));
}

#[test]
fn a_packet_for_an_empty_slot_is_refused_without_a_response() {
    let mut w = world(Behaviour::Echo);
    let nobody: Ptr<Connection> = Ptr::from_index(w.connection.index() + 10);
    let r = w.db.handle_read(&mut w.thread, nobody, 1, &header(0, 0, 0, 0), true);
    assert!(matches!(r, Err(DbError::InvalidArgument)));
    assert!(w.thread.take_responses().is_empty());
    assert_eq!(total_calls(&w), 0);
}

#[test]
fn teardown_releases_the_record_and_restores_occupancy() {
    let mut w = world(Behaviour::Echo);
    let baseline = w.thread.connection_count();
    let cn = w.thread.open_connection(Connection::new(ConnectionType::Tcp, 3, vec![0, 1]));
    assert_eq!(w.thread.connection_count(), baseline + 1);
    let mut first = header(0, 0, 0, 0);
    first.extend_from_slice(b"partial");
    assert!(w.db.handle_read(&mut w.thread, cn, 42, &first, false).is_ok());
    assert!(w.thread.connection(cn).unwrap().has_stream(42));
    let closed = w.thread.close_connection(cn).unwrap();
    assert_eq!(closed.stream_count(), 1);
    drop(closed);
    assert_eq!(w.thread.connection_count(), baseline);
    assert!(!w.thread.has_connection(cn));
    assert!(w.thread.close_connection(cn).is_none());
    // The freed slot is handed out again.
    let again = w.thread.open_connection(Connection::new(ConnectionType::Tcp, 4, vec![0]));
    assert_eq!(again.index(), cn.index());
    assert_eq!(w.thread.connection(again).unwrap().stream_count(), 0);
    assert_eq!(total_calls(&w), 0);
}

#[test]
fn a_record_that_names_no_procedure_is_refused_when_it_is_to_be_invoked() {
    let mut w = world(Behaviour::Echo);
    let rec = DbStream {
        header: StreamHeader { env: 0, iface: 0, procid: 0, continues: 0 },
        target: Target { env: 0, iface: 17, procid: 0 },
        buffer: Vec::new(),
        suspended: false,
    };
    w.thread.put_stream(w.connection, 3, rec);
    assert!(w.db.handle_read(&mut w.thread, w.connection, 3, b"a", false).is_ok());
    let r = w.db.handle_read(&mut w.thread, w.connection, 3, b"b", true);
    assert!(matches!(r, Err(DbError::InvalidArgument)));
    assert_eq!(total_calls(&w), 0);
    assert!(!w.thread.connection(w.connection).unwrap().has_stream(3));
}

#[test]
fn table_handles_are_bounds_checked() {
    let table = Vecb::new(vec![10u32, 20, 30]);
    assert_eq!(table.len(), 3);
    let p = table.get(2).unwrap();
    assert_eq!(p.index(), 2);
    assert_eq!(*table.resolve(p).unwrap(), 30);
    assert!(matches!(table.get(3), Err(DbError::InvalidArgument)));
    let stray: Ptr<u32> = Ptr::from_index(3);
    assert!(matches!(table.resolve(stray), Err(DbError::InvalidArgument)));
    let items = [1u8, 2];
    assert_eq!(Ptr::new(&items, 1).unwrap().index(), 1);
    assert!(matches!(Ptr::new(&items, 2), Err(DbError::InvalidArgument)));
    let copy = p;
    assert_eq!(copy.index(), p.clone().index());
}

#[test]
fn the_echo_procedure_answers_with_the_body() {
    let db = Db { user: Vecb::new(Vec::new()), iface: Vecb::new(vec![Vecb::new(vec![Echo {}])]) };
    let mut thread = DbThread::new(true, vec![Environment { iface: Vecb::new(vec![0]) }]);
    assert!(thread.is_uring);
    let cn = thread.open_connection(Connection::new(ConnectionType::Tcp, 1, vec![0]));
    let mut first = header(0, 0, 0, 0);
    first.extend_from_slice(b"one ");
    assert!(db.handle_read(&mut thread, cn, 3, &first, false).is_ok());
    assert!(db.handle_read(&mut thread, cn, 3, b"two", true).is_ok());
    let responses = thread.take_responses();
    assert_eq!(responses.len(), 1);
    assert!(matches!(
        &responses[0],
        Response::Data { streamid: 3, bytes, complete: true, .. } if bytes == b"one two"
    ));
    assert_eq!(thread.connection(cn).unwrap().stream_count(), 0);
}
