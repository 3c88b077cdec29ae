//! Reading the client's upgrade request: where the request ends and which
//! key it carries.

use vstd::prelude::*;
use vstd::slice::slice_subrange;
use crate::websocket::handshake::{
    accept_key, spec_accept_key, spec_upgrade_response, upgrade_response, SHA1_INPUT_LIMIT,
};

verus! {

/// The header field that carries the client's key, as it stands at the
/// start of a line: `\r\nSec-WebSocket-Key:`.
pub const KEY_FIELD: [u8; 20] = [
    0x0d, 0x0a, 0x53, 0x65, 0x63, 0x2d, 0x57, 0x65, 0x62, 0x53, 0x6f, 0x63, 0x6b, 0x65, 0x74, 0x2d,
    0x4b, 0x65, 0x79, 0x3a,
];

/// The blank line that ends a request's header: `\r\n\r\n`.
pub const HEADER_END: [u8; 4] = [0x0d, 0x0a, 0x0d, 0x0a];

/// Whether `needle` stands in `hay` at index `at`.
pub open spec fn occurs_at(hay: Seq<u8>, needle: Seq<u8>, at: int) -> bool {
    0 <= at && at + needle.len() <= hay.len() && hay.subrange(at, at + needle.len()) == needle
}

/// Whether `at` is the first index at which `needle` stands in `hay`.
pub open spec fn first_at(hay: Seq<u8>, needle: Seq<u8>, at: int) -> bool {
    occurs_at(hay, needle, at) && forall|j: int| 0 <= j < at ==> !occurs_at(hay, needle, j)
}

/// Whether `needle` stands nowhere in `hay`.
pub open spec fn absent(hay: Seq<u8>, needle: Seq<u8>) -> bool {
    forall|j: int| !occurs_at(hay, needle, j)
}

/// Whether `b` is a space or a tab.
pub open spec fn is_blank(b: u8) -> bool {
    b == 0x20 || b == 0x09
}

/// Whether `value` is the value of a header field whose name ends just
/// before index `from` of `request`: what follows the blanks after the
/// name, up to the end of the line or of the request.
pub open spec fn value_at(request: Seq<u8>, from: int, value: Seq<u8>) -> bool {
    exists|start: int|
        {
            &&& from <= start && start + value.len() <= request.len()
            &&& forall|j: int| from <= j < start ==> is_blank(#[trigger] request[j])
            &&& start < request.len() ==> !is_blank(request[start])
            &&& #[trigger] request.subrange(start, start + value.len()) == value
            &&& forall|j: int| 0 <= j < value.len() ==> #[trigger] value[j] != 0x0d
            &&& start + value.len() < request.len() ==> request[start + value.len()] == 0x0d
        }
}

/// Whether `key` is the key that `request` carries: the value of its
/// first `Sec-WebSocket-Key` field.
pub open spec fn carries_key(request: Seq<u8>, key: Seq<u8>) -> bool {
    exists|at: int| #[trigger]
        first_at(request, KEY_FIELD@, at) && value_at(request, at + KEY_FIELD@.len(), key)
}

/// Whether a request whose header is its first `n` bytes is refused: it
/// carries no key, or one too long to be digested.
pub open spec fn refused(request: Seq<u8>, n: int) -> bool {
    ||| absent(request.take(n), KEY_FIELD@)
    ||| exists|key: Seq<u8>| #[trigger]
        carries_key(request.take(n), key) && key.len() + 36 >= SHA1_INPUT_LIMIT
}

/// Whether `response` answers a request whose header is its first `n`
/// bytes: the header carries a key, and the response is the upgrade
/// response with the accept value of that key.
pub open spec fn accepted(request: Seq<u8>, n: int, response: Seq<u8>) -> bool {
    exists|key: Seq<u8>| #[trigger]
        carries_key(request.take(n), key) && key.len() + 36 < SHA1_INPUT_LIMIT && response
            == spec_upgrade_response(spec_accept_key(key))
}

/// What to do with the bytes of an upgrade request received so far.
pub enum UpgradeStep {
    /// The header is not complete: wait for more bytes.
    Wait,
    /// The request is no upgrade request: close the connection.
    Refuse,
    /// Send `response`; the first `used` bytes were the request, and what
    /// follows them are frames.
    Accept { response: Vec<u8>, used: usize },
}

/// Whether `s` is what the bytes of `request` call for. The header ends
/// with the first blank line; until it has arrived the step is to wait.
pub open spec fn spec_upgrade(request: Seq<u8>, s: UpgradeStep) -> bool {
    match s {
        UpgradeStep::Wait => absent(request, HEADER_END@),
        UpgradeStep::Refuse => exists|n: int| #[trigger]
            first_at(request, HEADER_END@, n - 4) && refused(request, n),
        UpgradeStep::Accept { response, used } => first_at(request, HEADER_END@, used - 4)
            && accepted(request, used as int, response@),
    }
}

/// The first index at which `needle` stands in `hay`, if it does.
pub fn find(hay: &[u8], needle: &[u8]) -> (r: Option<usize>)
    ensures
        match r {
            Some(at) => first_at(hay@, needle@, at as int) && at + needle@.len() <= usize::MAX,
            None => absent(hay@, needle@),
        },
{
    if needle.len() > hay.len() {
        return None;
    }
    let last: usize = hay.len() - needle.len();
    let mut at: usize = 0;
    while at <= last
        invariant
            needle@.len() <= hay@.len() <= usize::MAX,
            last == hay@.len() - needle@.len(),
            at <= last + 1,
            forall|j: int| 0 <= j < at ==> !occurs_at(hay@, needle@, j),
        decreases last + 1 - at,
    {
        let mut k: usize = 0;
        while k < needle.len() && hay[at + k] == needle[k]
            invariant
                at <= last,
                needle@.len() <= hay@.len() <= usize::MAX,
                last == hay@.len() - needle@.len(),
                k <= needle@.len(),
                forall|i: int| 0 <= i < k ==> hay@[at + i] == needle@[i],
            decreases needle@.len() - k,
        {
            k += 1;
        }
        if k == needle.len() {
            assert(hay@.subrange(at as int, at + needle@.len()) =~= needle@);
            return Some(at);
        }
        assert(!occurs_at(hay@, needle@, at as int)) by {
            if occurs_at(hay@, needle@, at as int) {
                assert(hay@.subrange(at as int, at + needle@.len())[k as int] == needle@[k as int]);
            }
        }
        at += 1;
    }
    None
}

/// The length of the request's header, the blank line that ends it
/// included; `None` while the blank line has not arrived.
pub fn header_len(request: &[u8]) -> (r: Option<usize>)
    ensures
        match r {
            Some(n) => n >= 4 && first_at(request@, HEADER_END@, n - 4),
            None => absent(request@, HEADER_END@),
        },
{
    assert(HEADER_END@.len() == 4);
    match find(request, HEADER_END.as_slice()) {
        Some(at) => Some(at + 4),
        None => None,
    }
}

/// The key the client sent: the value of the first `Sec-WebSocket-Key`
/// field of the request, without the blanks in front of it. `None` when
/// the request has no such field.
pub fn websocket_key(request: &[u8]) -> (r: Option<Vec<u8>>)
    ensures
        match r {
            Some(key) => carries_key(request@, key@),
            None => absent(request@, KEY_FIELD@),
        },
{
    assert(KEY_FIELD@.len() == 20);
    let at = match find(request, KEY_FIELD.as_slice()) {
        Some(at) => at,
        None => {
            return None;
        },
    };
    let from: usize = at + KEY_FIELD.len();
    let mut start: usize = from;
    while start < request.len() && (request[start] == 0x20 || request[start] == 0x09)
        invariant
            from <= start <= request@.len(),
            forall|j: int| from <= j < start ==> is_blank(#[trigger] request@[j]),
        decreases request@.len() - start,
    {
        start += 1;
    }
    let mut end: usize = start;
    while end < request.len() && request[end] != 0x0d
        invariant
            start <= end <= request@.len(),
            forall|j: int| start <= j < end ==> #[trigger] request@[j] != 0x0d,
        decreases request@.len() - end,
    {
        end += 1;
    }
    let mut key: Vec<u8> = Vec::new();
    crate::websocket::mask::copy_masked(&None, 0, request, start, end, &mut key);
    proof {
        assert(key@ =~= request@.subrange(start as int, end as int));
        assert(request@.subrange(start as int, start + key@.len()) == key@);
        assert(first_at(request@, KEY_FIELD@, at as int));
        assert(value_at(request@, at + KEY_FIELD@.len(), key@));
    }
    Some(key)
}

/// Judges the bytes of an upgrade request received so far: waits for
/// the blank line that ends the header, refuses a header without a key,
/// and answers any other with the accept value of its key.
pub fn upgrade_step(request: &[u8]) -> (s: UpgradeStep)
    ensures
        spec_upgrade(request@, s),
{
    let n = match header_len(request) {
        Some(n) => n,
        None => {
            return UpgradeStep::Wait;
        },
    };
    let head = slice_subrange(request, 0, n);
    assert(head@ == request@.take(n as int));
    match websocket_key(head) {
        None => {
            assert(refused(request@, n as int));
            UpgradeStep::Refuse
        },
        Some(key) => {
            let len: u64 = key.len() as u64;
            if len >= SHA1_INPUT_LIMIT - 36 {
                assert(refused(request@, n as int));
                UpgradeStep::Refuse
            } else {
                let response = upgrade_response(accept_key(key.as_slice()).as_slice());
                assert(accepted(request@, n as int, response@));
                UpgradeStep::Accept { response, used: n }
            }
        },
    }
}

} // verus!
