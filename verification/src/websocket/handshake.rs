//! The upgrade handshake: the server proves that it understood the
//! client's request by answering with the base64 encoding of the SHA-1
//! digest of the client's key followed by a fixed identifier.

use vstd::prelude::*;
use vstd::string::StringSliceAdditionalSpecFns;
use crate::bytes::append;

verus! {

/// The SHA-1 digest of `data`.
pub uninterp spec fn sha1(data: Seq<u8>) -> Seq<u8>;

/// The longest input, in bytes, that has a SHA-1 digest.
pub const SHA1_INPUT_LIMIT: u64 = 0x2000_0000_0000_0000;

/// The identifier that is appended to the client's key:
/// `258EAFA5-E914-47DA-95CA-C5AB0DC85B11`.
pub const GUID: [u8; 36] = [
    0x32, 0x35, 0x38, 0x45, 0x41, 0x46, 0x41, 0x35, 0x2d, 0x45, 0x39, 0x31, 0x34, 0x2d, 0x34, 0x37,
    0x44, 0x41, 0x2d, 0x39, 0x35, 0x43, 0x41, 0x2d, 0x43, 0x35, 0x41, 0x42, 0x30, 0x44, 0x43, 0x38,
    0x35, 0x42, 0x31, 0x31,
];

/// `ring::digest::digest` with `SHA1_FOR_LEGACY_USE_ONLY`: the SHA-1
/// digest of `data`, which is twenty bytes long.
#[verifier::external_body]
fn sha1_digest(data: &[u8]) -> (d: Vec<u8>)
    requires
        data@.len() < SHA1_INPUT_LIMIT,
    ensures
        d@ == sha1(data@),
        d@.len() == 20,
{
    ring::digest::digest(&ring::digest::SHA1_FOR_LEGACY_USE_ONLY, data).as_ref().to_vec()
}

/// The character that stands for the 6-bit value `v` in base64.
pub open spec fn spec_digit(v: int) -> u8 {
    if v < 26 {
        (65 + v) as u8
    } else if v < 52 {
        (97 + v - 26) as u8
    } else if v < 62 {
        (48 + v - 52) as u8
    } else if v == 62 {
        43
    } else {
        47
    }
}

/// The base64 encoding of `data`, with `=` padding: every three bytes
/// become four characters, and a last group of one or two bytes becomes
/// two or three characters and padding.
pub open spec fn spec_base64(data: Seq<u8>) -> Seq<u8>
    decreases data.len(),
{
    if data.len() == 0 {
        Seq::empty()
    } else if data.len() == 1 {
        seq![spec_digit(data[0] as int / 4), spec_digit(data[0] as int % 4 * 16), 61u8, 61u8]
    } else if data.len() == 2 {
        seq![
            spec_digit(data[0] as int / 4),
            spec_digit(data[0] as int % 4 * 16 + data[1] as int / 16),
            spec_digit(data[1] as int % 16 * 4),
            61u8,
        ]
    } else {
        seq![
            spec_digit(data[0] as int / 4),
            spec_digit(data[0] as int % 4 * 16 + data[1] as int / 16),
            spec_digit(data[1] as int % 16 * 4 + data[2] as int / 64),
            spec_digit(data[2] as int % 64),
        ] + spec_base64(data.skip(3))
    }
}

/// The value the server answers a client's key with.
pub open spec fn spec_accept_key(key: Seq<u8>) -> Seq<u8> {
    spec_base64(sha1(key + GUID@))
}

/// The response that completes the upgrade, given the accept value.
pub open spec fn spec_upgrade_response(accept: Seq<u8>) -> Seq<u8> {
    "HTTP/1.1 101 Switching Protocols\r\nUpgrade: websocket\r\nConnection: Upgrade\r\nSec-WebSocket-Accept: ".spec_bytes()
        + accept + "\r\n\r\n".spec_bytes()
}

/// The character that stands for the 6-bit value `v` in base64.
fn digit(v: u8) -> (c: u8)
    requires
        v < 64,
    ensures
        c == spec_digit(v as int),
{
    if v < 26 {
        65 + v
    } else if v < 52 {
        97 + (v - 26)
    } else if v < 62 {
        48 + (v - 52)
    } else if v == 62 {
        43
    } else {
        47
    }
}

/// The base64 encoding of `data`, with padding.
pub fn base64(data: &[u8]) -> (out: Vec<u8>)
    ensures
        out@ == spec_base64(data@),
{
    let mut out: Vec<u8> = Vec::new();
    let mut i: usize = 0;
    assert(data@.skip(0) == data@);
    while data.len() - i >= 3
        invariant
            i <= data@.len(),
            spec_base64(data@) == out@ + spec_base64(data@.skip(i as int)),
        decreases data@.len() - i,
    {
        let a: u8 = data[i];
        let b: u8 = data[i + 1];
        let c: u8 = data[i + 2];
        let ghost rest = data@.skip(i as int);
        let ghost before = out@;
        out.push(digit(a / 4));
        out.push(digit(a % 4 * 16 + b / 16));
        out.push(digit(b % 16 * 4 + c / 64));
        out.push(digit(c % 64));
        proof {
            assert(rest[0] == a && rest[1] == b && rest[2] == c);
            assert(rest.skip(3) == data@.skip(i + 3));
            assert(out@ == before + seq![
                spec_digit(a as int / 4),
                spec_digit(a as int % 4 * 16 + b as int / 16),
                spec_digit(b as int % 16 * 4 + c as int / 64),
                spec_digit(c as int % 64),
            ]);
        }
        i += 3;
    }
    let ghost rest = data@.skip(i as int);
    let ghost before = out@;
    let left: usize = data.len() - i;
    if left == 1 {
        let a: u8 = data[i];
        out.push(digit(a / 4));
        out.push(digit(a % 4 * 16));
        out.push(61);
        out.push(61);
        proof {
            assert(rest[0] == a);
            assert(out@ == before + seq![
                spec_digit(a as int / 4),
                spec_digit(a as int % 4 * 16),
                61u8,
                61u8,
            ]);
        }
    } else if left == 2 {
        let a: u8 = data[i];
        let b: u8 = data[i + 1];
        out.push(digit(a / 4));
        out.push(digit(a % 4 * 16 + b / 16));
        out.push(digit(b % 16 * 4));
        out.push(61);
        proof {
            assert(rest[0] == a && rest[1] == b);
            assert(out@ == before + seq![
                spec_digit(a as int / 4),
                spec_digit(a as int % 4 * 16 + b as int / 16),
                spec_digit(b as int % 16 * 4),
                61u8,
            ]);
        }
    } else {
        assert(out@ == before + Seq::<u8>::empty());
    }
    out
}

/// The value the server answers the client's `Sec-WebSocket-Key` with.
pub fn accept_key(key: &[u8]) -> (accept: Vec<u8>)
    requires
        key@.len() + 36 < SHA1_INPUT_LIMIT,
    ensures
        accept@ == spec_accept_key(key@),
{
    let mut input: Vec<u8> = Vec::new();
    append(&mut input, key);
    append(&mut input, GUID.as_slice());
    assert(input@ == key@ + GUID@);
    let digest = sha1_digest(input.as_slice());
    base64(digest.as_slice())
}

/// The `101 Switching Protocols` response that completes the upgrade.
pub fn upgrade_response(accept: &[u8]) -> (out: Vec<u8>)
    ensures
        out@ == spec_upgrade_response(accept@),
{
    let mut out: Vec<u8> = Vec::new();
    append(
        &mut out,
        "HTTP/1.1 101 Switching Protocols\r\nUpgrade: websocket\r\nConnection: Upgrade\r\nSec-WebSocket-Accept: ".as_bytes(),
    );
    append(&mut out, accept);
    append(&mut out, "\r\n\r\n".as_bytes());
    out
}

/// The length of a base64 encoding: four characters for every three
/// bytes, the last group padded.
pub proof fn lemma_base64_len(data: Seq<u8>)
    ensures
        spec_base64(data).len() == (data.len() + 2) / 3 * 4,
    decreases data.len(),
{
    if data.len() >= 3 {
        lemma_base64_len(data.skip(3));
    }
}

} // verus!
