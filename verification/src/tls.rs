//! The TLS session of one connection.
//!
//! A session goes from `Handshaking` to `Established` and ends in
//! `Closed`, which it can reach from either. The engine is `rustls`; the
//! transport is outside. On every readiness notification the caller reads
//! the transport and hands the outcome to `ready`, which advances the
//! engine, collects the ciphertext to send and delivers decrypted bytes.

use vstd::prelude::*;
use std::sync::Arc;
use vstd::string::StringSliceAdditionalSpecFns;
use crate::bytes::append;
use crate::server::IoOutcome;
use crate::websocket::mask::copy_masked;

verus! {

#[verifier::external_type_specification]
#[verifier::external_body]
pub struct ExServerConnection(rustls::ServerConnection);

#[verifier::external_type_specification]
#[verifier::external_body]
pub struct ExServerConfig(rustls::ServerConfig);

#[verifier::external_type_specification]
#[verifier::external_body]
pub struct ExTlsError(rustls::Error);

/// Where a session stands.
#[derive(Clone, Copy, Debug, PartialEq, Eq, Structural)]
pub enum SessionState {
    /// The handshake is under way.
    Handshaking,
    /// Application data can flow.
    Established,
    /// The session is over. Nothing leads out of this state.
    Closed,
}

/// What a read on the transport came to.
#[derive(Clone, Copy, Debug, PartialEq, Eq, Structural)]
pub enum TransportRead {
    /// This many bytes were read; none means the peer closed the transport.
    Bytes(usize),
    /// Nothing can be read now.
    WouldBlock,
    /// The read was interrupted.
    Interrupted,
    /// The read failed.
    Failed,
}

/// What the engine did in the course of one readiness step. A field is
/// looked at only if the step got that far.
#[derive(Clone, Copy, Debug)]
pub struct Observed {
    /// How many ciphertext bytes the engine took in, or `None` if it refused.
    pub fed: Option<usize>,
    /// Whether the engine processed the new records without error.
    pub processed: bool,
    /// Whether the pending ciphertext was handed over without error.
    pub flushed: bool,
    /// Whether the handshake is still under way afterwards.
    pub handshaking: bool,
    /// What reading decrypted bytes came to: this many bytes, or why none.
    pub plain: Result<usize, IoOutcome>,
}

/// How a readiness step ended.
#[derive(Clone, Copy, Debug, PartialEq, Eq, Structural)]
pub struct Verdict {
    /// The session's state afterwards.
    pub state: SessionState,
    /// Whether the connection is to be kept.
    pub keep: bool,
}

/// What a readiness step reports to the caller.
#[derive(Clone, Copy, Debug, PartialEq, Eq, Structural)]
pub struct ReadyReport {
    /// Whether the connection is to be kept.
    pub keep: bool,
    /// How many of the bytes handed in the engine took; the rest must be
    /// handed in again.
    pub consumed: usize,
    /// How many decrypted bytes were delivered.
    pub delivered: usize,
}

/// Why a session could not be set up.
#[derive(Clone, Copy, Debug, PartialEq, Eq, Structural)]
pub enum SessionError {
    /// The engine refused the configuration.
    Setup,
}

/// A session that is over.
pub open spec fn closed() -> Verdict {
    Verdict { state: SessionState::Closed, keep: false }
}

/// A session that goes on in state `state`.
pub open spec fn kept(state: SessionState) -> Verdict {
    Verdict { state, keep: true }
}

/// How reading decrypted bytes ends for an established session: bytes,
/// or none for now, keep it established; the end of the data or an error
/// closes it. With no room for decrypted bytes none are read.
pub open spec fn spec_plain(capacity: usize, plain: Result<usize, IoOutcome>) -> Verdict {
    if capacity == 0 {
        kept(SessionState::Established)
    } else {
        match plain {
            Ok(n) => if n == 0 {
                closed()
            } else {
                kept(SessionState::Established)
            },
            Err(IoOutcome::WouldBlock) => kept(SessionState::Established),
            Err(IoOutcome::Interrupted) => kept(SessionState::Established),
            Err(_) => closed(),
        }
    }
}

/// How a readiness step ends for a session in state `state`, given what
/// the transport read came to and what the engine did.
///
/// 1. A closed session stays closed. A read that would block or was
///    interrupted leaves the session as it is. A read of no bytes, or a
///    failed read, closes it.
/// 2. The bytes are fed to the engine; if it takes none, or reports an
///    error in them, the session is closed.
/// 3. Pending ciphertext is handed over for sending.
/// 4. While the handshake is under way the session waits for more input.
///    An established session never goes back to handshaking.
/// 5. Otherwise decrypted bytes are read: bytes, or none for now, keep
///    the session established; the end of the data or an error closes it.
///    With no room for decrypted bytes none are read.
pub open spec fn spec_decide(
    state: SessionState,
    read: TransportRead,
    capacity: usize,
    seen: Observed,
) -> Verdict {
    if state == SessionState::Closed {
        closed()
    } else {
        match read {
            TransportRead::WouldBlock => kept(state),
            TransportRead::Interrupted => kept(state),
            TransportRead::Failed => closed(),
            TransportRead::Bytes(n) => if n == 0 || seen.fed is None || seen.fed == Some(0usize)
                || !seen.processed || !seen.flushed {
                closed()
            } else if seen.handshaking && state == SessionState::Handshaking {
                kept(SessionState::Handshaking)
            } else {
                spec_plain(capacity, seen.plain)
            },
        }
    }
}

/// Whether a readiness step gets as far as reading decrypted bytes: the
/// session is not closed, bytes were read from the transport, the engine
/// took some and processed them without error, the flush went through,
/// the session is not waiting for its handshake, and there is room.
pub open spec fn spec_reads_plain(
    state: SessionState,
    read: TransportRead,
    capacity: usize,
    seen: Observed,
) -> bool {
    &&& state != SessionState::Closed
    &&& read matches TransportRead::Bytes(n) && n > 0
    &&& seen.fed matches Some(k) && k > 0
    &&& seen.processed
    &&& seen.flushed
    &&& !(seen.handshaking && state == SessionState::Handshaking)
    &&& capacity > 0
}

/// How many decrypted bytes a readiness step delivers to the caller:
/// what the read of decrypted bytes gave, if the step got that far and
/// the read gave any; none otherwise.
pub open spec fn spec_delivered(
    state: SessionState,
    read: TransportRead,
    capacity: usize,
    seen: Observed,
) -> usize {
    if spec_reads_plain(state, read, capacity, seen) {
        match seen.plain {
            Ok(n) => n,
            Err(_) => 0,
        }
    } else {
        0
    }
}

/// How many of the bytes read from the transport a readiness step hands
/// on to the engine and the engine takes: none unless the session is
/// open and bytes were read.
pub open spec fn spec_consumed(state: SessionState, read: TransportRead, seen: Observed) -> usize {
    if state != SessionState::Closed && (read matches TransportRead::Bytes(n) && n > 0) {
        match seen.fed {
            Some(k) => k,
            None => 0,
        }
    } else {
        0
    }
}

/// What a readiness step comes to for the caller, given what the
/// transport read came to and what the engine did.
pub open spec fn spec_ready(
    state: SessionState,
    read: TransportRead,
    capacity: usize,
    seen: Observed,
) -> (Verdict, ReadyReport) {
    (
        spec_decide(state, read, capacity, seen),
        ReadyReport {
            keep: spec_decide(state, read, capacity, seen).keep,
            consumed: spec_consumed(state, read, seen),
            delivered: spec_delivered(state, read, capacity, seen),
        },
    )
}

/// What a transport read came to, given how it ended and how many bytes
/// it read.
pub open spec fn spec_transport(outcome: IoOutcome, len: usize) -> TransportRead {
    match outcome {
        IoOutcome::Ready => TransportRead::Bytes(len),
        IoOutcome::WouldBlock => TransportRead::WouldBlock,
        IoOutcome::Interrupted => TransportRead::Interrupted,
        IoOutcome::Failed => TransportRead::Failed,
    }
}

/// The most decrypted bytes one readiness step reads.
pub const PLAIN_CHUNK: usize = 1024;

/// The room the engine is given for one read of decrypted bytes: the
/// caller's room, but no more than one chunk.
pub open spec fn spec_plain_room(capacity: usize) -> usize {
    if capacity < PLAIN_CHUNK {
        capacity
    } else {
        PLAIN_CHUNK
    }
}

/// The room the engine is given for one read of decrypted bytes.
pub fn plain_room(capacity: usize) -> (room: usize)
    ensures
        room == spec_plain_room(capacity),
{
    if capacity < PLAIN_CHUNK {
        capacity
    } else {
        PLAIN_CHUNK
    }
}

/// How reading decrypted bytes ends for an established session, given
/// what the read came to.
pub fn after_plain(capacity: usize, plain: Result<usize, IoOutcome>) -> (v: Verdict)
    ensures
        v == spec_plain(capacity, plain),
{
    let on = Verdict { state: SessionState::Established, keep: true };
    let over = Verdict { state: SessionState::Closed, keep: false };
    if capacity == 0 {
        return on;
    }
    match plain {
        Ok(k) => if k == 0 {
            over
        } else {
            on
        },
        Err(IoOutcome::WouldBlock) => on,
        Err(IoOutcome::Interrupted) => on,
        Err(_) => over,
    }
}

/// How many decrypted bytes a read that came to `plain` delivers.
pub open spec fn spec_plain_count(capacity: usize, plain: Result<usize, IoOutcome>) -> usize {
    if capacity == 0 {
        0
    } else {
        match plain {
            Ok(n) => n,
            Err(_) => 0,
        }
    }
}

/// Whether writable interest is wanted: ciphertext waits to be sent, in
/// the library or in the engine.
pub open spec fn spec_write_wanted(waiting: nat, engine_pending: bool) -> bool {
    waiting > 0 || engine_pending
}

/// Whether writable interest is wanted, given how many bytes wait in
/// the library and whether the engine has ciphertext pending.
pub fn write_wanted(waiting: usize, engine_pending: bool) -> (b: bool)
    ensures
        b == spec_write_wanted(waiting as nat, engine_pending),
{
    waiting > 0 || engine_pending
}

/// The fixed page: a complete response with the body `Hello, world!`.
pub open spec fn spec_page() -> Seq<u8> {
    "HTTP/1.1 200 OK\r\nContent-Length: 13\r\n\r\nHello, world!".spec_bytes()
}

/// The fixed page.
pub fn page() -> (out: Vec<u8>)
    ensures
        out@ == spec_page(),
{
    let mut out: Vec<u8> = Vec::new();
    append(&mut out, "HTTP/1.1 200 OK\r\nContent-Length: 13\r\n\r\nHello, world!".as_bytes());
    out
}

/// How a readiness step ends, given what the transport read came to and
/// what the engine did.
pub fn decide(state: SessionState, read: TransportRead, capacity: usize, seen: Observed) -> (v:
    Verdict)
    ensures
        v == spec_decide(state, read, capacity, seen),
        v.keep <==> v.state != SessionState::Closed,
        state == SessionState::Closed ==> v.state == SessionState::Closed,
{
    let over = Verdict { state: SessionState::Closed, keep: false };
    if state == SessionState::Closed {
        return over;
    }
    match read {
        TransportRead::WouldBlock => Verdict { state, keep: true },
        TransportRead::Interrupted => Verdict { state, keep: true },
        TransportRead::Failed => over,
        TransportRead::Bytes(n) => {
            let took = match seen.fed {
                Some(k) => k > 0,
                None => false,
            };
            if n == 0 || !took || !seen.processed || !seen.flushed {
                over
            } else if seen.handshaking && state == SessionState::Handshaking {
                Verdict { state: SessionState::Handshaking, keep: true }
            } else {
                after_plain(capacity, seen.plain)
            }
        },
    }
}

/// The place of a state in the order in which a session passes through
/// its states.
pub open spec fn rank(state: SessionState) -> int {
    match state {
        SessionState::Handshaking => 0,
        SessionState::Established => 1,
        SessionState::Closed => 2,
    }
}

/// A session only ever moves forward: from handshaking to established
/// to closed. A closed session stays closed, and the connection is kept
/// just when the session is not closed.
pub proof fn lemma_session_moves_forward(
    state: SessionState,
    read: TransportRead,
    capacity: usize,
    seen: Observed,
)
    ensures
        rank(state) <= rank(spec_decide(state, read, capacity, seen).state),
        state == SessionState::Closed ==> spec_decide(state, read, capacity, seen) == closed(),
        spec_decide(state, read, capacity, seen).keep <==> spec_decide(
            state,
            read,
            capacity,
            seen,
        ).state != SessionState::Closed,
{
}

/// Decrypted bytes reach the caller only from an established session
/// that stays established: a step that closes the session, one that
/// leaves it at its handshake, one whose transport read gave no bytes,
/// and one in which the engine refused or failed, deliver nothing. A
/// step with no bytes from the transport hands nothing to the engine.
pub proof fn lemma_delivery_needs_established(
    state: SessionState,
    read: TransportRead,
    capacity: usize,
    seen: Observed,
)
    ensures
        spec_delivered(state, read, capacity, seen) > 0 ==> spec_decide(
            state,
            read,
            capacity,
            seen,
        ) == kept(SessionState::Established),
        !(read matches TransportRead::Bytes(n) && n > 0) ==> spec_delivered(
            state,
            read,
            capacity,
            seen,
        ) == 0 && spec_consumed(state, read, seen) == 0,
        !seen.processed ==> spec_delivered(state, read, capacity, seen) == 0,
        seen.handshaking && state == SessionState::Handshaking ==> spec_delivered(
            state,
            read,
            capacity,
            seen,
        ) == 0,
{
}

/// A transport read that would block, or was interrupted, changes
/// nothing; a read of no bytes, or a failed read, closes the session.
pub proof fn lemma_transport_outcomes(state: SessionState, capacity: usize, seen: Observed)
    requires
        state != SessionState::Closed,
    ensures
        spec_decide(state, TransportRead::WouldBlock, capacity, seen) == kept(state),
        spec_decide(state, TransportRead::Interrupted, capacity, seen) == kept(state),
        spec_decide(state, TransportRead::Failed, capacity, seen) == closed(),
        spec_decide(state, TransportRead::Bytes(0), capacity, seen) == closed(),
{
}

/// `std::io::Error::kind`, told apart as far as the session cares: would
/// block, interrupted, or any other failure.
#[verifier::external_body]
fn io_kind(e: &std::io::Error) -> (k: IoOutcome)
    ensures
        k != IoOutcome::Ready,
{
    match e.kind() {
        std::io::ErrorKind::WouldBlock => IoOutcome::WouldBlock,
        std::io::ErrorKind::Interrupted => IoOutcome::Interrupted,
        _ => IoOutcome::Failed,
    }
}

/// `ServerConnection::new`: a server-side engine for a configuration, or
/// the engine's error.
#[verifier::external_body]
fn engine_new(config: Arc<rustls::ServerConfig>) -> (r: Result<
    rustls::ServerConnection,
    rustls::Error,
>) {
    rustls::ServerConnection::new(config)
}

/// `read_tls`, reading from a slice: the engine takes in ciphertext from
/// the front of `data` and says how many bytes it took, which is never
/// more than there are; or it refuses.
#[verifier::external_body]
fn engine_feed(conn: &mut rustls::ServerConnection, data: &[u8]) -> (r: Option<usize>)
    ensures
        r matches Some(n) ==> n <= data@.len(),
{
    let mut source: &[u8] = data;
    conn.read_tls(&mut source).ok()
}

/// `process_new_packets`: the engine works through the ciphertext it took
/// in. Tells whether it did so without a TLS error.
#[verifier::external_body]
fn engine_process(conn: &mut rustls::ServerConnection) -> (ok: bool) {
    conn.process_new_packets().is_ok()
}

/// `write_tls`, writing into a vector: ciphertext the engine has pending
/// is appended to `out`; what `out` held stays in front. Tells whether
/// the write went through.
#[verifier::external_body]
fn engine_flush(conn: &mut rustls::ServerConnection, out: &mut Vec<u8>) -> (ok: bool)
    ensures
        old(out)@.len() <= final(out)@.len(),
        final(out)@.subrange(0, old(out)@.len() as int) == old(out)@,
{
    conn.write_tls(out).is_ok()
}

/// `is_handshaking`: whether the engine is still performing the handshake.
#[verifier::external_body]
fn engine_is_handshaking(conn: &rustls::ServerConnection) -> (b: bool) {
    conn.is_handshaking()
}

/// `wants_write`: whether the engine has ciphertext pending.
#[verifier::external_body]
fn engine_wants_write(conn: &rustls::ServerConnection) -> (b: bool) {
    conn.wants_write()
}

/// `reader().read`: decrypted bytes are read into the first `limit`
/// bytes of `buf` and counted, so there are never more than `limit`; or
/// none are read and the error says why.
#[verifier::external_body]
fn engine_read_plain(conn: &mut rustls::ServerConnection, buf: &mut [u8; 1024], limit: usize) -> (r:
    Result<usize, std::io::Error>)
    requires
        limit <= 1024,
    ensures
        r matches Ok(n) ==> n <= limit,
{
    std::io::Read::read(&mut conn.reader(), &mut buf[..limit])
}

/// `writer().write_all`: plaintext is handed to the engine for
/// encryption. Tells whether the engine took it.
#[verifier::external_body]
fn engine_write_plain(conn: &mut rustls::ServerConnection, data: &[u8]) -> (ok: bool) {
    std::io::Write::write_all(&mut conn.writer(), data).is_ok()
}

/// The TLS session of one connection: the engine, the session's state and
/// the ciphertext waiting to be sent.
pub struct TlsClient {
    conn: rustls::ServerConnection,
    state: SessionState,
    outbound: Vec<u8>,
}

impl TlsClient {
    /// The session's state.
    pub closed spec fn state(&self) -> SessionState {
        self.state
    }

    /// The ciphertext that waits to be sent, oldest first.
    pub closed spec fn outbound(&self) -> Seq<u8> {
        self.outbound@
    }

    /// A session at the start of its handshake.
    pub fn new(config: Arc<rustls::ServerConfig>) -> (r: Result<TlsClient, SessionError>)
        ensures
            r matches Ok(c) ==> c.state() == SessionState::Handshaking && c.outbound().len() == 0,
    {
        match engine_new(config) {
            Ok(conn) => Ok(
                TlsClient { conn, state: SessionState::Handshaking, outbound: Vec::new() },
            ),
            Err(_) => Err(SessionError::Setup),
        }
    }

    /// The session's state.
    pub fn current_state(&self) -> (s: SessionState)
        ensures
            s == self.state(),
    {
        self.state
    }

    /// Whether ciphertext is waiting to be sent, here or in the engine.
    /// Writable interest is wanted just as long as it is.
    pub fn wants_write(&self) -> (b: bool)
        ensures
            self.outbound().len() > 0 ==> b,
            exists|engine_pending: bool|
                b == #[trigger] spec_write_wanted(self.outbound().len(), engine_pending),
    {
        let engine_pending = engine_wants_write(&self.conn);
        let b = write_wanted(self.outbound.len(), engine_pending);
        assert(b == spec_write_wanted(self.outbound().len(), engine_pending));
        b
    }

    /// The ciphertext that waits to be sent, oldest first.
    pub fn pending_output(&self) -> (out: &[u8])
        ensures
            out@ == self.outbound(),
    {
        self.outbound.as_slice()
    }

    /// Drops the first `n` bytes of the waiting ciphertext, which the
    /// caller has sent; all of it when `n` is more than there is.
    pub fn consume_output(&mut self, n: usize)
        ensures
            final(self).state() == old(self).state(),
            n <= old(self).outbound().len() ==> final(self).outbound() == old(
                self,
            ).outbound().skip(n as int),
            n > old(self).outbound().len() ==> final(self).outbound().len() == 0,
    {
        let rest = crate::bytes::tail(self.outbound.as_slice(), n);
        self.outbound = rest;
    }

    /// Moves ciphertext the engine has pending to the waiting output.
    /// Tells whether that went through; if not, the session is closed.
    pub fn flush(&mut self) -> (ok: bool)
        ensures
            old(self).outbound().len() <= final(self).outbound().len(),
            final(self).outbound().subrange(0, old(self).outbound().len() as int) == old(
                self,
            ).outbound(),
            ok ==> final(self).state() == old(self).state(),
            !ok ==> final(self).state() == SessionState::Closed,
    {
        let ok = engine_flush(&mut self.conn, &mut self.outbound);
        if !ok {
            self.state = SessionState::Closed;
        }
        ok
    }

    /// Hands plaintext to the engine for encryption and moves the
    /// resulting ciphertext to the waiting output. Refused, with nothing
    /// changed, unless the session is established.
    pub fn send(&mut self, data: &[u8]) -> (ok: bool)
        ensures
            old(self).state() != SessionState::Established ==> !ok && final(self).state() == old(
                self,
            ).state() && final(self).outbound() == old(self).outbound(),
            old(self).outbound().len() <= final(self).outbound().len(),
            final(self).outbound().subrange(0, old(self).outbound().len() as int) == old(
                self,
            ).outbound(),
            ok ==> final(self).state() == SessionState::Established,
            !ok && old(self).state() == SessionState::Established ==> final(self).state()
                == SessionState::Closed,
    {
        match self.state {
            SessionState::Established => {},
            _ => {
                assert(self.outbound@.subrange(0, self.outbound@.len() as int) == self.outbound@);
                return false;
            },
        }
        if !engine_write_plain(&mut self.conn, data) {
            self.state = SessionState::Closed;
            assert(self.outbound@.subrange(0, self.outbound@.len() as int) == self.outbound@);
            return false;
        }
        self.flush()
    }

    /// Answers with the fixed page, `page()`, and ends the session. If the
    /// session is established the page is handed to the engine and the resulting
    /// ciphertext joins the waiting output; otherwise nothing is sent.
    /// Either way the session is closed afterwards, and the result,
    /// whether to keep the connection, is `false`. What waits to be sent
    /// can still be taken and sent.
    pub fn write_page(&mut self) -> (keep: bool)
        ensures
            !keep,
            final(self).state() == SessionState::Closed,
            old(self).state() != SessionState::Established ==> final(self).outbound() == old(
                self,
            ).outbound(),
            old(self).outbound().len() <= final(self).outbound().len(),
            final(self).outbound().subrange(0, old(self).outbound().len() as int) == old(
                self,
            ).outbound(),
    {
        let bytes = page();
        let _ = self.send(bytes.as_slice());
        self.state = SessionState::Closed;
        false
    }

    /// One readiness step. `outcome` is how reading the transport ended
    /// and `data` the bytes that were read, if it went through. Decrypted
    /// bytes, at most `capacity` of them and at most `PLAIN_CHUNK`, are
    /// appended to `plaintext`.
    ///
    /// The step ends as `spec_ready` says for what the engine did. The
    /// connection is kept just when the session is not closed afterwards,
    /// and decrypted bytes are delivered only by a step that leaves the
    /// session established.
    pub fn ready(
        &mut self,
        outcome: IoOutcome,
        data: &[u8],
        plaintext: &mut Vec<u8>,
        capacity: usize,
    ) -> (r: ReadyReport)
        ensures
            exists|seen: Observed|
                (Verdict { state: final(self).state(), keep: r.keep }, r) == #[trigger] spec_ready(
                    old(self).state(),
                    spec_transport(outcome, data@.len() as usize),
                    capacity,
                    seen,
                ),
            r.keep <==> final(self).state() != SessionState::Closed,
            r.delivered > 0 ==> final(self).state() == SessionState::Established,
            r.consumed <= data@.len(),
            r.delivered <= capacity,
            r.delivered <= PLAIN_CHUNK,
            final(plaintext)@.len() == old(plaintext)@.len() + r.delivered,
            final(plaintext)@.subrange(0, old(plaintext)@.len() as int) == old(plaintext)@,
            old(self).outbound().len() <= final(self).outbound().len(),
            final(self).outbound().subrange(0, old(self).outbound().len() as int) == old(
                self,
            ).outbound(),
    {
        let read = match outcome {
            IoOutcome::Ready => TransportRead::Bytes(data.len()),
            IoOutcome::WouldBlock => TransportRead::WouldBlock,
            IoOutcome::Interrupted => TransportRead::Interrupted,
            IoOutcome::Failed => TransportRead::Failed,
        };
        let mut seen = Observed {
            fed: None,
            processed: false,
            flushed: false,
            handshaking: true,
            plain: Err(IoOutcome::Failed),
        };
        let mut consumed: usize = 0;
        let mut delivered: usize = 0;
        let before = self.state;
        let ghost old_out = self.outbound@;
        assert(old_out.subrange(0, old_out.len() as int) == old_out);
        assert(plaintext@.subrange(0, plaintext@.len() as int) == plaintext@);
        let engaged = match (before, read) {
            (SessionState::Closed, _) => false,
            (_, TransportRead::Bytes(n)) => n > 0,
            _ => false,
        };
        if engaged {
            seen.fed = engine_feed(&mut self.conn, data);
            let took = match seen.fed {
                Some(k) => {
                    consumed = k;
                    k > 0
                },
                None => false,
            };
            if took {
                seen.processed = engine_process(&mut self.conn);
                if seen.processed {
                    seen.flushed = engine_flush(&mut self.conn, &mut self.outbound);
                    if seen.flushed {
                        seen.handshaking = engine_is_handshaking(&self.conn);
                        let waiting = seen.handshaking && before == SessionState::Handshaking;
                        if !waiting && capacity > 0 {
                            let (plain, count) = self.read_plain(plaintext, capacity);
                            seen.plain = plain;
                            delivered = count;
                        }
                    }
                }
            }
        }
        let v = decide(before, read, capacity, seen);
        self.state = v.state;
        let r = ReadyReport { keep: v.keep, consumed, delivered };
        assert((v, r) == spec_ready(before, read, capacity, seen));
        r
    }

    /// Reads decrypted bytes that the engine still holds, with no new
    /// input from the transport: at most `capacity` of them and at most
    /// `PLAIN_CHUNK` are appended to `plaintext`. Does nothing unless the
    /// session is established. The result is the number of bytes appended.
    pub fn drain(&mut self, plaintext: &mut Vec<u8>, capacity: usize) -> (delivered: usize)
        ensures
            old(self).state() != SessionState::Established ==> delivered == 0 && final(self).state() == old(self).state(),
            old(self).state() == SessionState::Established ==> exists|plain: Result<usize, IoOutcome>|
                final(self).state() == (#[trigger] spec_plain(capacity, plain)).state && delivered
                    == spec_plain_count(capacity, plain),
            delivered > 0 ==> final(self).state() == SessionState::Established,
            delivered <= capacity,
            delivered <= PLAIN_CHUNK,
            final(plaintext)@.len() == old(plaintext)@.len() + delivered,
            final(plaintext)@.subrange(0, old(plaintext)@.len() as int) == old(plaintext)@,
            final(self).outbound() == old(self).outbound(),
    {
        assert(plaintext@.subrange(0, plaintext@.len() as int) == plaintext@);
        match self.state {
            SessionState::Established => {},
            _ => {
                return 0;
            },
        }
        if capacity == 0 {
            assert(spec_plain(capacity, Ok(0)).state == SessionState::Established);
            return 0;
        }
        let (plain, delivered) = self.read_plain(plaintext, capacity);
        let v = after_plain(capacity, plain);
        self.state = v.state;
        assert(self.state == spec_plain(capacity, plain).state && delivered == spec_plain_count(
            capacity,
            plain,
        ));
        delivered
    }

    /// Reads decrypted bytes from the engine, once, and appends them to
    /// `plaintext`. Gives what the read came to and how many bytes were
    /// appended.
    fn read_plain(&mut self, plaintext: &mut Vec<u8>, capacity: usize) -> (r: (
        Result<usize, IoOutcome>,
        usize,
    ))
        ensures
            final(self).state() == old(self).state(),
            final(self).outbound() == old(self).outbound(),
            r.1 <= capacity,
            r.1 <= PLAIN_CHUNK,
            r.0 matches Ok(n) ==> n == r.1,
            r.0 is Err ==> r.1 == 0,
            final(plaintext)@.len() == old(plaintext)@.len() + r.1,
            final(plaintext)@.subrange(0, old(plaintext)@.len() as int) == old(plaintext)@,
    {
        let limit: usize = plain_room(capacity);
        let mut buf: [u8; 1024] = [0u8; 1024];
        assert(plaintext@.subrange(0, plaintext@.len() as int) == plaintext@);
        match engine_read_plain(&mut self.conn, &mut buf, limit) {
            Ok(n) => {
                copy_masked(&None, 0, buf.as_slice(), 0, n, plaintext);
                assert(plaintext@.subrange(0, old(plaintext)@.len() as int) == old(plaintext)@);
                (Ok(n), n)
            },
            Err(e) => (Err(io_kind(&e)), 0),
        }
    }
}

} // verus!
