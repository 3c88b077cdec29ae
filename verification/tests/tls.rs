use std::sync::Arc;

use rustls::client::danger::{HandshakeSignatureValid, ServerCertVerified, ServerCertVerifier};
use rustls::crypto::CryptoProvider;
use rustls::pki_types::{CertificateDer, PrivateKeyDer, PrivatePkcs8KeyDer, ServerName, UnixTime};
use rustls::{ClientConfig, ClientConnection, DigitallySignedStruct, ServerConfig, SignatureScheme};
use simpleweb::exec::header::StreamHeader;
use simpleweb::server::IoOutcome;
use simpleweb::tls::{
    after_plain, decide, page, plain_room, write_wanted, Observed, ReadyReport, SessionState,
    TlsClient, TransportRead, Verdict, PLAIN_CHUNK,
};
use simpleweb::websocket::frame::Opcode;
use simpleweb::websocket::framer::Framer;

const CERT_DER: [u8; 410] = [
    0x30, 0x82, 0x01, 0x96, 0x30, 0x82, 0x01, 0x3c, 0xa0, 0x03, 0x02, 0x01, 0x02, 0x02, 0x14, 0x11,
    0x70, 0x12, 0x0f, 0xf0, 0x69, 0x1c, 0x01, 0x4a, 0x13, 0xd6, 0xad, 0x19, 0xdc, 0xd3, 0xdd, 0xa5,
    0xd5, 0x71, 0x18, 0x30, 0x0a, 0x06, 0x08, 0x2a, 0x86, 0x48, 0xce, 0x3d, 0x04, 0x03, 0x02, 0x30,
    0x14, 0x31, 0x12, 0x30, 0x10, 0x06, 0x03, 0x55, 0x04, 0x03, 0x0c, 0x09, 0x6c, 0x6f, 0x63, 0x61,
    0x6c, 0x68, 0x6f, 0x73, 0x74, 0x30, 0x20, 0x17, 0x0d, 0x32, 0x36, 0x31, 0x30, 0x32, 0x38, 0x30,
    0x32, 0x31, 0x30, 0x35, 0x33, 0x5a, 0x18, 0x0f, 0x32, 0x31, 0x32, 0x36, 0x31, 0x30, 0x30, 0x34,
    0x30, 0x32, 0x31, 0x30, 0x35, 0x33, 0x5a, 0x30, 0x14, 0x31, 0x12, 0x30, 0x10, 0x06, 0x03, 0x55,
    0x04, 0x03, 0x0c, 0x09, 0x6c, 0x6f, 0x63, 0x61, 0x6c, 0x68, 0x6f, 0x73, 0x74, 0x30, 0x59, 0x30,
    0x13, 0x06, 0x07, 0x2a, 0x86, 0x48, 0xce, 0x3d, 0x02, 0x01, 0x06, 0x08, 0x2a, 0x86, 0x48, 0xce,
    0x3d, 0x03, 0x01, 0x07, 0x03, 0x42, 0x00, 0x04, 0xa0, 0xe1, 0x04, 0xdd, 0x05, 0xbc, 0x12, 0x57,
    0xd6, 0x16, 0x72, 0x4b, 0xc7, 0x38, 0x29, 0x17, 0x8e, 0x5c, 0xc3, 0xcb, 0x19, 0xeb, 0x8e, 0xbd,
    0xd9, 0xb2, 0x50, 0xa9, 0x37, 0xeb, 0xd0, 0xfe, 0x87, 0x85, 0xaa, 0x97, 0x89, 0x25, 0x0d, 0xb8,
    0x88, 0xf3, 0x89, 0xe0, 0x6c, 0x6c, 0x4b, 0xfa, 0xd5, 0x57, 0xc7, 0xdb, 0xee, 0x39, 0x9a, 0xb9,
    0x2f, 0x15, 0x8b, 0x03, 0xda, 0xca, 0x24, 0x1d, 0xa3, 0x6a, 0x30, 0x68, 0x30, 0x14, 0x06, 0x03,
    0x55, 0x1d, 0x11, 0x04, 0x0d, 0x30, 0x0b, 0x82, 0x09, 0x6c, 0x6f, 0x63, 0x61, 0x6c, 0x68, 0x6f,
    0x73, 0x74, 0x30, 0x0c, 0x06, 0x03, 0x55, 0x1d, 0x13, 0x01, 0x01, 0xff, 0x04, 0x02, 0x30, 0x00,
    0x30, 0x0e, 0x06, 0x03, 0x55, 0x1d, 0x0f, 0x01, 0x01, 0xff, 0x04, 0x04, 0x03, 0x02, 0x07, 0x80,
    0x30, 0x13, 0x06, 0x03, 0x55, 0x1d, 0x25, 0x04, 0x0c, 0x30, 0x0a, 0x06, 0x08, 0x2b, 0x06, 0x01,
    0x05, 0x05, 0x07, 0x03, 0x01, 0x30, 0x1d, 0x06, 0x03, 0x55, 0x1d, 0x0e, 0x04, 0x16, 0x04, 0x14,
    0x9d, 0xe9, 0xb8, 0x7d, 0x71, 0x31, 0xde, 0xbf, 0x2b, 0xb3, 0xc1, 0xfa, 0xd7, 0x39, 0x01, 0x24,
    0xac, 0x16, 0x3f, 0x5f, 0x30, 0x0a, 0x06, 0x08, 0x2a, 0x86, 0x48, 0xce, 0x3d, 0x04, 0x03, 0x02,
    0x03, 0x48, 0x00, 0x30, 0x45, 0x02, 0x21, 0x00, 0xff, 0x14, 0xdb, 0xf0, 0x6d, 0x47, 0xae, 0x60,
    0xa3, 0x38, 0xbd, 0x3b, 0xfe, 0xa2, 0x2c, 0xee, 0x17, 0x6a, 0xd4, 0x80, 0xfa, 0x58, 0x49, 0x07,
    0x2a, 0x39, 0xdb, 0x1e, 0xc2, 0xa5, 0x09, 0x3e, 0x02, 0x20, 0x18, 0x20, 0xd3, 0xa4, 0x0d, 0x99,
    0x37, 0x05, 0x49, 0x80, 0xa0, 0x79, 0x80, 0x43, 0x6a, 0x2a, 0x2c, 0xf4, 0xdc, 0xbf, 0xd6, 0x8b,
    0x1d, 0xa0, 0xd6, 0x00, 0xc8, 0xe0, 0x3a, 0x97, 0x0b, 0xbc,
];

const KEY_DER: [u8; 138] = [
    0x30, 0x81, 0x87, 0x02, 0x01, 0x00, 0x30, 0x13, 0x06, 0x07, 0x2a, 0x86, 0x48, 0xce, 0x3d, 0x02,
    0x01, 0x06, 0x08, 0x2a, 0x86, 0x48, 0xce, 0x3d, 0x03, 0x01, 0x07, 0x04, 0x6d, 0x30, 0x6b, 0x02,
    0x01, 0x01, 0x04, 0x20, 0x84, 0xe7, 0x9c, 0x2a, 0xee, 0xf6, 0x63, 0xb5, 0x77, 0x1c, 0xa8, 0xa1,
    0x4d, 0x07, 0xe3, 0x3d, 0x49, 0x65, 0x6c, 0x36, 0xff, 0xbd, 0x56, 0xeb, 0x0e, 0x09, 0x2d, 0x8c,
    0x39, 0x80, 0x5e, 0xad, 0xa1, 0x44, 0x03, 0x42, 0x00, 0x04, 0xa0, 0xe1, 0x04, 0xdd, 0x05, 0xbc,
    0x12, 0x57, 0xd6, 0x16, 0x72, 0x4b, 0xc7, 0x38, 0x29, 0x17, 0x8e, 0x5c, 0xc3, 0xcb, 0x19, 0xeb,
    0x8e, 0xbd, 0xd9, 0xb2, 0x50, 0xa9, 0x37, 0xeb, 0xd0, 0xfe, 0x87, 0x85, 0xaa, 0x97, 0x89, 0x25,
    0x0d, 0xb8, 0x88, 0xf3, 0x89, 0xe0, 0x6c, 0x6c, 0x4b, 0xfa, 0xd5, 0x57, 0xc7, 0xdb, 0xee, 0x39,
    0x9a, 0xb9, 0x2f, 0x15, 0x8b, 0x03, 0xda, 0xca, 0x24, 0x1d,
];

/// A verifier for the test client: it takes the test certificate as it
/// is, and checks the handshake signatures as usual.
#[derive(Debug)]
struct TakeAny(Arc<CryptoProvider>);

impl ServerCertVerifier for TakeAny {
    fn verify_server_cert(
        &self,
        _end_entity: &CertificateDer<'_>,
        _intermediates: &[CertificateDer<'_>],
        _server_name: &ServerName<'_>,
        _ocsp_response: &[u8],
        _now: UnixTime,
    ) -> Result<ServerCertVerified, rustls::Error> {
        Ok(ServerCertVerified::assertion())
    }

    fn verify_tls12_signature(
        &self,
        message: &[u8],
        cert: &CertificateDer<'_>,
        dss: &DigitallySignedStruct,
    ) -> Result<HandshakeSignatureValid, rustls::Error> {
        rustls::crypto::verify_tls12_signature(
            message,
            cert,
            dss,
            &self.0.signature_verification_algorithms,
        )
    }

    fn verify_tls13_signature(
        &self,
        message: &[u8],
        cert: &CertificateDer<'_>,
        dss: &DigitallySignedStruct,
    ) -> Result<HandshakeSignatureValid, rustls::Error> {
        rustls::crypto::verify_tls13_signature(
            message,
            cert,
            dss,
            &self.0.signature_verification_algorithms,
        )
    }

    fn supported_verify_schemes(&self) -> Vec<SignatureScheme> {
        self.0.signature_verification_algorithms.supported_schemes()
    }
}

fn provider() -> Arc<CryptoProvider> {
    Arc::new(rustls::crypto::ring::default_provider())
}

fn server_config() -> Arc<ServerConfig> {
    let config = ServerConfig::builder_with_provider(provider())
        .with_safe_default_protocol_versions()
        .unwrap()
        .with_no_client_auth()
        .with_single_cert(
            vec![CertificateDer::from(CERT_DER.to_vec())],
            PrivateKeyDer::Pkcs8(PrivatePkcs8KeyDer::from(KEY_DER.to_vec())),
        )
        .unwrap();
    Arc::new(config)
}

fn client() -> ClientConnection {
    let p = provider();
    let config = ClientConfig::builder_with_provider(p.clone())
        .with_safe_default_protocol_versions()
        .unwrap()
        .dangerous()
        .with_custom_certificate_verifier(Arc::new(TakeAny(p)))
        .with_no_client_auth();
    ClientConnection::new(Arc::new(config), ServerName::try_from("localhost").unwrap()).unwrap()
}

/// Moves what the client has to send to the server, and back, once.
fn exchange(client: &mut ClientConnection, server: &mut TlsClient, plaintext: &mut Vec<u8>) {
    let mut to_server = Vec::new();
    while client.wants_write() {
        client.write_tls(&mut to_server).unwrap();
    }
    let mut rest = &to_server[..];
    while !rest.is_empty() {
        let r = server.ready(IoOutcome::Ready, rest, plaintext, 4096);
        assert!(r.keep);
        assert!(r.consumed > 0 && r.consumed <= rest.len());
        rest = &rest[r.consumed..];
    }
    while server.wants_write() && server.flush() {
        let out = server.pending_output().to_vec();
        if out.is_empty() {
            break;
        }
        server.consume_output(out.len());
        let mut rd = &out[..];
        while !rd.is_empty() {
            client.read_tls(&mut rd).unwrap();
            client.process_new_packets().unwrap();
        }
    }
}

fn established() -> (ClientConnection, TlsClient) {
    let mut server = TlsClient::new(server_config()).unwrap();
    let mut client = client();
    let mut plaintext = Vec::new();
    for _ in 0..10 {
        exchange(&mut client, &mut server, &mut plaintext);
        if !client.is_handshaking() && server.current_state() == SessionState::Established {
            break;
        }
    }
    assert!(!client.is_handshaking());
    assert_eq!(server.current_state(), SessionState::Established);
    assert!(plaintext.is_empty());
    (client, server)
}

fn seen() -> Observed {
    Observed {
        fed: Some(10),
        processed: true,
        flushed: true,
        handshaking: false,
        plain: Ok(3),
    }
}

const OVER: Verdict = Verdict { state: SessionState::Closed, keep: false };

#[test]
fn a_new_session_is_handshaking() {
    let server = TlsClient::new(server_config()).unwrap();
    assert_eq!(server.current_state(), SessionState::Handshaking);
    assert!(server.pending_output().is_empty());
}

#[test]
fn would_block_and_interrupted_keep_the_session() {
    let mut server = TlsClient::new(server_config()).unwrap();
    let mut plaintext = Vec::new();
    for read in [IoOutcome::WouldBlock, IoOutcome::Interrupted] {
        let r = server.ready(read, &[], &mut plaintext, 1024);
        assert_eq!(r, ReadyReport { keep: true, consumed: 0, delivered: 0 });
        assert_eq!(server.current_state(), SessionState::Handshaking);
    }
    assert!(plaintext.is_empty());
}

#[test]
fn zero_bytes_close_the_session_for_good() {
    let mut server = TlsClient::new(server_config()).unwrap();
    let mut plaintext = Vec::new();
    let r = server.ready(IoOutcome::Ready, &[], &mut plaintext, 1024);
    assert_eq!(r, ReadyReport { keep: false, consumed: 0, delivered: 0 });
    assert!(plaintext.is_empty());
    assert_eq!(server.current_state(), SessionState::Closed);
    let r = server.ready(IoOutcome::WouldBlock, &[], &mut plaintext, 1024);
    assert!(!r.keep);
    let r = server.ready(IoOutcome::Ready, &[1, 2, 3], &mut plaintext, 1024);
    assert_eq!(r, ReadyReport { keep: false, consumed: 0, delivered: 0 });
    assert_eq!(server.current_state(), SessionState::Closed);
}

#[test]
fn a_failed_read_closes_the_session() {
    let mut server = TlsClient::new(server_config()).unwrap();
    let mut plaintext = Vec::new();
    let r = server.ready(IoOutcome::Failed, &[], &mut plaintext, 1024);
    assert!(!r.keep);
    assert_eq!(server.current_state(), SessionState::Closed);
}

#[test]
fn garbage_is_an_engine_error_and_closes_the_session() {
    let mut server = TlsClient::new(server_config()).unwrap();
    let mut plaintext = Vec::new();
    let junk = b"GET / HTTP/1.1\r\nHost: localhost\r\n\r\n";
    let r = server.ready(IoOutcome::Ready, junk, &mut plaintext, 1024);
    assert!(!r.keep);
    assert_eq!(r.delivered, 0);
    assert_eq!(server.current_state(), SessionState::Closed);
    assert!(plaintext.is_empty());
}

#[test]
fn part_of_a_record_keeps_the_handshake_waiting() {
    let mut client = client();
    let mut hello = Vec::new();
    client.write_tls(&mut hello).unwrap();
    assert!(hello.len() > 10);
    let mut server = TlsClient::new(server_config()).unwrap();
    let mut plaintext = Vec::new();
    let r = server.ready(IoOutcome::Ready, &hello[..7], &mut plaintext, 1024);
    assert_eq!(r, ReadyReport { keep: true, consumed: 7, delivered: 0 });
    assert_eq!(server.current_state(), SessionState::Handshaking);
    assert!(!server.wants_write());
    let rest = &hello[7..];
    let r = server.ready(IoOutcome::Ready, rest, &mut plaintext, 1024);
    assert!(r.keep);
    assert_eq!(r.consumed, rest.len());
    // The server's answer to the hello now waits to be sent.
    assert!(server.wants_write());
    assert!(!server.pending_output().is_empty());
}

#[test]
fn nothing_can_be_sent_before_the_handshake_is_done() {
    let mut server = TlsClient::new(server_config()).unwrap();
    assert!(!server.send(b"early"));
    assert_eq!(server.current_state(), SessionState::Handshaking);
    assert!(server.pending_output().is_empty());
    // The page is not sent either, and the session is over.
    assert!(!server.write_page());
    assert!(server.pending_output().is_empty());
    assert_eq!(server.current_state(), SessionState::Closed);
    let mut plaintext = Vec::new();
    let r = server.ready(IoOutcome::WouldBlock, &[], &mut plaintext, 64);
    assert!(!r.keep);
}

#[test]
fn a_handshake_completes_and_data_flows_both_ways() {
    let (mut client, mut server) = established();
    std::io::Write::write_all(&mut client.writer(), b"ping").unwrap();
    let mut plaintext = vec![0xeeu8];
    exchange(&mut client, &mut server, &mut plaintext);
    assert_eq!(plaintext, vec![0xee, b'p', b'i', b'n', b'g']);
    assert_eq!(server.current_state(), SessionState::Established);

    assert!(server.send(b"pong"));
    assert!(server.wants_write());
    let out = server.pending_output().to_vec();
    server.consume_output(out.len());
    assert!(server.pending_output().is_empty());
    let mut rd = &out[..];
    client.read_tls(&mut rd).unwrap();
    client.process_new_packets().unwrap();
    let mut got = [0u8; 16];
    let n = std::io::Read::read(&mut client.reader(), &mut got).unwrap();
    assert_eq!(&got[..n], b"pong");
}

#[test]
fn capacity_limits_the_plaintext_of_one_step() {
    let (mut client, mut server) = established();
    std::io::Write::write_all(&mut client.writer(), b"0123456789").unwrap();
    let mut wire = Vec::new();
    client.write_tls(&mut wire).unwrap();
    let mut plaintext = Vec::new();
    let r = server.ready(IoOutcome::Ready, &wire, &mut plaintext, 4);
    assert_eq!(r, ReadyReport { keep: true, consumed: wire.len(), delivered: 4 });
    assert_eq!(plaintext, b"0123".to_vec());
}

#[test]
fn one_step_reads_at_most_one_chunk_of_plaintext() {
    let (mut client, mut server) = established();
    assert_eq!(PLAIN_CHUNK, 1024);
    let sent: Vec<u8> = (0..3000).map(|i| (i % 253) as u8).collect();
    std::io::Write::write_all(&mut client.writer(), &sent).unwrap();
    let mut wire = Vec::new();
    while client.wants_write() {
        client.write_tls(&mut wire).unwrap();
    }
    let mut plaintext = Vec::new();
    let r = server.ready(IoOutcome::Ready, &wire, &mut plaintext, usize::MAX);
    assert!(r.keep);
    assert_eq!(r.delivered, 1024);
    assert_eq!(plaintext, sent[..1024].to_vec());
    // The rest is still in the engine and is drained without new input.
    assert_eq!(server.drain(&mut plaintext, 0), 0);
    assert_eq!(server.drain(&mut plaintext, 1000), 1000);
    assert_eq!(server.drain(&mut plaintext, usize::MAX), 976);
    assert_eq!(plaintext, sent);
    assert_eq!(server.drain(&mut plaintext, usize::MAX), 0);
    assert_eq!(server.current_state(), SessionState::Established);
}

#[test]
fn draining_does_nothing_before_the_handshake_is_done() {
    let mut server = TlsClient::new(server_config()).unwrap();
    let mut plaintext = vec![1u8];
    assert_eq!(server.drain(&mut plaintext, 64), 0);
    assert_eq!(server.current_state(), SessionState::Handshaking);
    assert_eq!(plaintext, vec![1]);
}

#[test]
fn draining_after_a_clean_close_closes_the_session() {
    let (mut client, mut server) = established();
    std::io::Write::write_all(&mut client.writer(), b"bye").unwrap();
    client.send_close_notify();
    let mut wire = Vec::new();
    while client.wants_write() {
        client.write_tls(&mut wire).unwrap();
    }
    let mut plaintext = Vec::new();
    let r = server.ready(IoOutcome::Ready, &wire, &mut plaintext, 64);
    assert!(r.keep);
    assert_eq!(plaintext, b"bye".to_vec());
    assert_eq!(server.drain(&mut plaintext, 64), 0);
    assert_eq!(server.current_state(), SessionState::Closed);
    assert_eq!(server.drain(&mut plaintext, 64), 0);
}

#[test]
fn consume_output_drops_what_was_sent() {
    let (_client, mut server) = established();
    assert!(server.send(b"abc"));
    let n = server.pending_output().len();
    assert!(n > 3);
    let first = server.pending_output()[..2].to_vec();
    let rest = server.pending_output()[2..].to_vec();
    server.consume_output(2);
    assert_eq!(server.pending_output(), &rest[..]);
    assert_ne!(first.len(), 0);
    server.consume_output(n + 100);
    assert!(server.pending_output().is_empty());
}

#[test]
fn write_page_sends_the_page_and_asks_to_close() {
    let (mut client, mut server) = established();
    let before = server.pending_output().to_vec();
    assert!(!server.write_page());
    assert_eq!(server.current_state(), SessionState::Closed);
    assert!(!server.send(b"more"));
    assert_eq!(&server.pending_output()[..before.len()], &before[..]);
    let out = server.pending_output().to_vec();
    let mut rd = &out[..];
    client.read_tls(&mut rd).unwrap();
    client.process_new_packets().unwrap();
    let mut got = vec![0u8; 256];
    let n = std::io::Read::read(&mut client.reader(), &mut got).unwrap();
    assert_eq!(
        &got[..n],
        &b"HTTP/1.1 200 OK\r\nContent-Length: 13\r\n\r\nHello, world!"[..]
    );
}

#[test]
fn a_clean_close_by_the_peer_closes_the_session() {
    let (mut client, mut server) = established();
    client.send_close_notify();
    let mut wire = Vec::new();
    client.write_tls(&mut wire).unwrap();
    let mut plaintext = Vec::new();
    let r = server.ready(IoOutcome::Ready, &wire, &mut plaintext, 64);
    assert!(!r.keep);
    assert_eq!(r.delivered, 0);
    assert_eq!(server.current_state(), SessionState::Closed);
}

#[test]
fn decrypted_bytes_feed_the_framer_and_the_header_parser() {
    let (mut client, mut server) = established();
    let request = StreamHeader { env: 1, iface: 2, procid: 3, continues: 0 }.to_bytes();
    let mut frame = Vec::new();
    let mut writer = Framer::new();
    writer.write_message(Opcode::Binary, &request, Some([1, 2, 3, 4]), &mut frame).unwrap();
    std::io::Write::write_all(&mut client.writer(), &frame).unwrap();
    let mut plaintext = Vec::new();
    exchange(&mut client, &mut server, &mut plaintext);
    let mut framer = Framer::new();
    let mut message = Vec::new();
    let r = framer.read_some(&plaintext, &mut message, 1024).unwrap();
    assert!(r.message_ended);
    assert_eq!(StreamHeader::new(&message).unwrap().procid, 3);
}

#[test]
fn decide_follows_the_steps_in_order() {
    let hs = SessionState::Handshaking;
    let est = SessionState::Established;
    let bytes = TransportRead::Bytes(10);
    assert_eq!(decide(hs, bytes, 64, seen()), Verdict { state: est, keep: true });
    assert_eq!(decide(est, bytes, 64, seen()), Verdict { state: est, keep: true });
    // Step 1: the transport.
    assert_eq!(decide(hs, TransportRead::WouldBlock, 64, seen()), Verdict { state: hs, keep: true });
    assert_eq!(decide(est, TransportRead::Interrupted, 64, seen()), Verdict { state: est, keep: true });
    assert_eq!(decide(est, TransportRead::Failed, 64, seen()), OVER);
    assert_eq!(decide(est, TransportRead::Bytes(0), 64, seen()), OVER);
    // Step 2: the engine.
    assert_eq!(decide(hs, bytes, 64, Observed { fed: None, ..seen() }), OVER);
    assert_eq!(decide(hs, bytes, 64, Observed { fed: Some(0), ..seen() }), OVER);
    assert_eq!(decide(hs, bytes, 64, Observed { processed: false, ..seen() }), OVER);
    // Step 3: the flush.
    assert_eq!(decide(hs, bytes, 64, Observed { flushed: false, ..seen() }), OVER);
    // Step 4: the handshake.
    assert_eq!(
        decide(hs, bytes, 64, Observed { handshaking: true, plain: Err(IoOutcome::Failed), ..seen() }),
        Verdict { state: hs, keep: true }
    );
    assert_eq!(
        decide(est, bytes, 64, Observed { handshaking: true, ..seen() }),
        Verdict { state: est, keep: true }
    );
    // Step 5: the plaintext.
    let plain = |p| Observed { plain: p, ..seen() };
    assert_eq!(decide(hs, bytes, 64, plain(Err(IoOutcome::WouldBlock))), Verdict { state: est, keep: true });
    assert_eq!(decide(hs, bytes, 64, plain(Err(IoOutcome::Interrupted))), Verdict { state: est, keep: true });
    assert_eq!(decide(hs, bytes, 64, plain(Err(IoOutcome::Failed))), OVER);
    assert_eq!(decide(hs, bytes, 64, plain(Err(IoOutcome::Ready))), OVER);
    assert_eq!(decide(hs, bytes, 64, plain(Ok(0))), OVER);
    assert_eq!(decide(hs, bytes, 0, plain(Ok(0))), Verdict { state: est, keep: true });
    // Closed is terminal.
    for read in [bytes, TransportRead::WouldBlock, TransportRead::Interrupted, TransportRead::Failed] {
        assert_eq!(decide(SessionState::Closed, read, 64, seen()), OVER);
    }
}

#[test]
fn a_peer_that_closes_an_established_session_delivers_nothing() {
    let (mut client, mut server) = established();
    // Decrypted bytes wait in the engine when the transport reports the end.
    std::io::Write::write_all(&mut client.writer(), &[7u8; 2000]).unwrap();
    let mut wire = Vec::new();
    while client.wants_write() {
        client.write_tls(&mut wire).unwrap();
    }
    let mut plaintext = Vec::new();
    let r = server.ready(IoOutcome::Ready, &wire, &mut plaintext, 16);
    assert_eq!((r.keep, r.delivered), (true, 16));
    let r = server.ready(IoOutcome::Ready, &[], &mut plaintext, 1024);
    assert_eq!(r, ReadyReport { keep: false, consumed: 0, delivered: 0 });
    assert_eq!(plaintext.len(), 16);
    assert_eq!(server.current_state(), SessionState::Closed);
}

#[test]
fn nothing_is_delivered_while_the_handshake_is_under_way() {
    let mut client = client();
    let mut hello = Vec::new();
    client.write_tls(&mut hello).unwrap();
    let mut server = TlsClient::new(server_config()).unwrap();
    let mut plaintext = vec![9u8];
    let mut rest = &hello[..];
    while !rest.is_empty() {
        let r = server.ready(IoOutcome::Ready, rest, &mut plaintext, 1024);
        assert!(r.keep);
        assert_eq!(r.delivered, 0);
        rest = &rest[r.consumed..];
    }
    assert_eq!(server.current_state(), SessionState::Handshaking);
    assert_eq!(plaintext, vec![9]);
    assert!(server.wants_write());
}

#[test]
fn the_engine_is_given_the_callers_room_up_to_one_chunk() {
    assert_eq!(plain_room(0), 0);
    assert_eq!(plain_room(1), 1);
    assert_eq!(plain_room(1023), 1023);
    assert_eq!(plain_room(1024), 1024);
    assert_eq!(plain_room(1025), 1024);
    assert_eq!(plain_room(usize::MAX), 1024);
}

#[test]
fn the_plaintext_read_decides_the_established_session() {
    let on = Verdict { state: SessionState::Established, keep: true };
    assert_eq!(after_plain(64, Ok(1)), on);
    assert_eq!(after_plain(64, Ok(64)), on);
    assert_eq!(after_plain(64, Ok(0)), OVER);
    assert_eq!(after_plain(64, Err(IoOutcome::WouldBlock)), on);
    assert_eq!(after_plain(64, Err(IoOutcome::Interrupted)), on);
    assert_eq!(after_plain(64, Err(IoOutcome::Failed)), OVER);
    assert_eq!(after_plain(64, Err(IoOutcome::Ready)), OVER);
    for plain in [Ok(0), Ok(5), Err(IoOutcome::Failed), Err(IoOutcome::WouldBlock)] {
        assert_eq!(after_plain(0, plain), on);
    }
}

#[test]
fn write_interest_is_wanted_while_anything_waits() {
    assert!(!write_wanted(0, false));
    assert!(write_wanted(1, false));
    assert!(write_wanted(0, true));
    assert!(write_wanted(usize::MAX, true));
}

#[test]
fn a_session_with_nothing_to_send_wants_no_write() {
    let server = TlsClient::new(server_config()).unwrap();
    assert!(!server.wants_write());
    let (_client, mut server) = established();
    while server.flush() && !server.pending_output().is_empty() {
        let n = server.pending_output().len();
        server.consume_output(n);
    }
    assert!(!server.wants_write());
    assert!(server.send(b"x"));
    assert!(server.wants_write());
}

#[test]
fn the_fixed_page_is_a_complete_response() {
    assert_eq!(
        page(),
        b"HTTP/1.1 200 OK\r\nContent-Length: 13\r\n\r\nHello, world!".to_vec()
    );
}
