//! The opening HTTP Upgrade handshake: locating the
//! `Sec-WebSocket-Key` header, computing the `Sec-WebSocket-Accept`
//! value, and emitting the `101 Switching Protocols` response.
//!
//! Header names are matched case-insensitively over the raw request
//! bytes; the key is the first whitespace-separated token after the
//! header name on its line.

use vstd::prelude::*;
use vstd::utf8::encode_utf8;
use vstd::string::{StrSliceExecFns, StringExecFns};
use sha1::{Digest, Sha1};
use base64::Engine;
use crate::WebSocketError;

verus! {

/// Errors specific to the WebSocket handshake: the key header is
/// absent, or the request is structurally not a WebSocket upgrade.
#[derive(Debug)]
pub enum HandshakeError {
    MissingKey,
    InvalidKey(String),
}

impl HandshakeError {
    /// The human-readable description of the error.
    pub fn message(&self) -> (r: String)
        ensures
            match self {
                HandshakeError::MissingKey => r@ == "Missing Sec-WebSocket-Key header"@,
                HandshakeError::InvalidKey(d) => r@ == "Invalid Sec-WebSocket-Key: "@ + d@,
            },
    {
        match self {
            HandshakeError::MissingKey => String::from_str("Missing Sec-WebSocket-Key header"),
            HandshakeError::InvalidKey(d) => {
                let mut s = String::from_str("Invalid Sec-WebSocket-Key: ");
                s.append(d.as_str());
                s
            },
        }
    }
}

/// An ASCII letter folded to lower case; other bytes are unchanged.
pub open spec fn lower_byte(b: u8) -> u8 {
    if 65 <= b && b <= 90 {
        (b + 32) as u8
    } else {
        b
    }
}

/// Folds an ASCII letter to lower case.
pub fn to_lower_byte(b: u8) -> (r: u8)
    ensures
        r == lower_byte(b),
{
    if 65 <= b && b <= 90 {
        b + 32
    } else {
        b
    }
}

/// A space or horizontal tab, the padding allowed around a header
/// value.
pub open spec fn is_space(b: u8) -> bool {
    b == 32 || b == 9
}

/// A carriage return or line feed, ending a header line.
pub open spec fn is_line_end(b: u8) -> bool {
    b == 13 || b == 10
}

/// The header name that carries the client's key, lower case.
pub open spec fn key_header_pattern() -> Seq<u8> {
    encode_utf8("sec-websocket-key:"@)
}

/// The upgrade header that gates protocol entry, lower case.
pub open spec fn upgrade_pattern() -> Seq<u8> {
    encode_utf8("upgrade: websocket"@)
}

/// Whether `pat` occurs at position `i` of `s`, with ASCII letters of
/// `s` folded to lower case.
pub open spec fn pattern_match_at(s: Seq<u8>, pat: Seq<u8>, i: int) -> bool {
    &&& 0 <= i
    &&& i + pat.len() <= s.len()
    &&& forall|j: int| 0 <= j < pat.len() ==> lower_byte(s[i + j]) == #[trigger] pat[j]
}

/// Whether `pat` occurs anywhere in `s`, with ASCII letters of `s`
/// folded to lower case.
pub open spec fn contains_pattern(s: Seq<u8>, pat: Seq<u8>) -> bool {
    exists|i: int| pattern_match_at(s, pat, i)
}

/// Whether the key header name stands at position `i` of the request:
/// at the start of a line, matched case-insensitively.
pub open spec fn matches_key_header_at(s: Seq<u8>, i: int) -> bool {
    &&& (i == 0 || s[i - 1] == 10)
    &&& pattern_match_at(s, key_header_pattern(), i)
}

/// The first index at or after `j` whose byte is not a space or tab,
/// or the end of the buffer.
pub open spec fn token_start(s: Seq<u8>, j: int) -> int
    decreases s.len() - j,
{
    if j >= s.len() {
        s.len() as int
    } else if is_space(s[j]) {
        token_start(s, j + 1)
    } else {
        j
    }
}

/// The first index at or after `j` whose byte is whitespace or a line
/// end, or the end of the buffer: the end of the token starting at
/// `j`.
pub open spec fn token_end(s: Seq<u8>, j: int) -> int
    decreases s.len() - j,
{
    if j >= s.len() {
        s.len() as int
    } else if is_space(s[j]) || is_line_end(s[j]) {
        j
    } else {
        token_end(s, j + 1)
    }
}

/// The key token following a key header name matched at `i`: the
/// first whitespace-separated token after the name, or `None` when
/// the line ends before one starts.
pub open spec fn key_at(s: Seq<u8>, i: int) -> Option<Seq<u8>> {
    let t = token_start(s, i + key_header_pattern().len());
    if t < s.len() && !is_line_end(s[t]) {
        Some(s.subrange(t, token_end(s, t)))
    } else {
        None
    }
}

/// Scans the request from position `i` for the first line carrying
/// the key header, and yields its key token.
pub open spec fn find_key_from(s: Seq<u8>, i: int) -> Option<Seq<u8>>
    decreases s.len() - i,
{
    if i >= s.len() {
        None
    } else if matches_key_header_at(s, i) {
        key_at(s, i)
    } else {
        find_key_from(s, i + 1)
    }
}

/// The client key of a request: the token after the first
/// `Sec-WebSocket-Key:` header, or `None` when the header or its
/// value is missing.
pub open spec fn spec_extract_key(s: Seq<u8>) -> Option<Seq<u8>> {
    find_key_from(s, 0)
}

/// The bytes that end the HTTP preamble: an empty line, so two CRLF
/// pairs.
pub open spec fn header_end_pattern() -> Seq<u8> {
    encode_utf8("\r\n\r\n"@)
}

/// Whether the request contains an `Upgrade: websocket` header,
/// matched case-insensitively anywhere in the bytes.
pub open spec fn spec_has_upgrade(s: Seq<u8>) -> bool {
    contains_pattern(s, upgrade_pattern())
}

/// Whether the request holds a complete HTTP preamble, that is the
/// double-CRLF header terminator.
pub open spec fn spec_has_header_end(s: Seq<u8>) -> bool {
    contains_pattern(s, header_end_pattern())
}

/// The UTF-8 encoding of a nonempty character sequence is nonempty.
proof fn lemma_encode_utf8_nonempty(chars: Seq<char>)
    requires
        chars.len() > 0,
    ensures
        encode_utf8(chars).len() > 0,
{
    assert(vstd::utf8::encode_scalar(chars[0] as u32).len() > 0);
}

/// Whether the key header name, handed in as `pat`, stands at
/// position `i` of the request at the start of a line.
fn key_header_at(request: &Vec<u8>, pat: &Vec<u8>, i: usize) -> (r: bool)
    requires
        pat@ == key_header_pattern(),
        i < request@.len(),
    ensures
        r == matches_key_header_at(request@, i as int),
{
    if !(i == 0 || request[i - 1] == 10) {
        return false;
    }
    pattern_at(request, pat, i)
}

/// Extracts the `Sec-WebSocket-Key` value from the raw bytes of the
/// HTTP request: the first whitespace-separated token following the
/// first `Sec-WebSocket-Key:` header name, matched case-insensitively
/// at the start of a line.
pub fn extract_websocket_key(request: &Vec<u8>) -> (r: Option<Vec<u8>>)
    ensures
        ({
            let sk = spec_extract_key(request@);
            match r {
                Some(k) => sk matches Some(ks) && k@ == ks,
                None => sk is None,
            }
        }),
{
    let pat = ("sec-websocket-key:").as_bytes_vec();
    let mut i: usize = 0;
    while i < request.len()
        invariant
            i <= request@.len(),
            pat@ == key_header_pattern(),
            find_key_from(request@, 0) == find_key_from(request@, i as int),
        decreases request@.len() - i,
    {
        if key_header_at(request, &pat, i) {
            let start = i + pat.len();
            let mut t = start;
            while t < request.len() && (request[t] == 32 || request[t] == 9)
                invariant
                    start <= t <= request@.len(),
                    token_start(request@, start as int) == token_start(request@, t as int),
                decreases request@.len() - t,
            {
                t += 1;
            }
            assert(t as int == token_start(request@, start as int));
            if t == request.len() || request[t] == 13 || request[t] == 10 {
                return None;
            }
            let mut e = t;
            while e < request.len() && !(request[e] == 32 || request[e] == 9 || request[e] == 13
                || request[e] == 10)
                invariant
                    t <= e <= request@.len(),
                    token_end(request@, t as int) == token_end(request@, e as int),
                decreases request@.len() - e,
            {
                e += 1;
            }
            assert(e as int == token_end(request@, t as int));
            return Some(crate::frame::copy_range(request, t, e));
        }
        i += 1;
    }
    None
}

/// Whether `pat` stands at position `i` of the request, folding the
/// request's ASCII letters to lower case.
fn pattern_at(request: &Vec<u8>, pat: &Vec<u8>, i: usize) -> (r: bool)
    requires
        i < request@.len(),
    ensures
        r == pattern_match_at(request@, pat@, i as int),
{
    if request.len() - i < pat.len() {
        return false;
    }
    let ghost p = pat@;
    let mut j: usize = 0;
    while j < pat.len()
        invariant
            j <= p.len(),
            pat@ == p,
            request@.len() <= usize::MAX,
            i + p.len() <= request@.len(),
            forall|jj: int| 0 <= jj < j ==> lower_byte(request@[i + jj]) == #[trigger] p[jj],
        decreases p.len() - j,
    {
        if to_lower_byte(request[i + j]) != pat[j] {
            return false;
        }
        j += 1;
    }
    true
}

/// Whether a nonempty `pat` occurs anywhere in the request, folding
/// the request's ASCII letters to lower case.
fn find_pattern(request: &Vec<u8>, pat: &Vec<u8>) -> (r: bool)
    requires
        pat@.len() > 0,
    ensures
        r == contains_pattern(request@, pat@),
{
    let mut i: usize = 0;
    while i < request.len()
        invariant
            i <= request@.len(),
            pat@.len() > 0,
            forall|k: int| 0 <= k < i ==> !pattern_match_at(request@, pat@, k),
        decreases request@.len() - i,
    {
        if pattern_at(request, pat, i) {
            return true;
        }
        i += 1;
    }
    false
}

/// Whether the request carries an `Upgrade: websocket` header,
/// matched case-insensitively; requests without one are not WebSocket
/// upgrades and are rejected before the handshake.
pub fn has_upgrade_header(request: &Vec<u8>) -> (r: bool)
    ensures
        r == spec_has_upgrade(request@),
{
    let pat = ("upgrade: websocket").as_bytes_vec();
    proof {
        reveal_strlit("upgrade: websocket");
        lemma_encode_utf8_nonempty("upgrade: websocket"@);
    }
    find_pattern(request, &pat)
}

/// Whether the request holds the double-CRLF header terminator; a
/// buffer read without one is an incomplete preamble and is rejected.
pub fn has_header_end(request: &Vec<u8>) -> (r: bool)
    ensures
        r == spec_has_header_end(request@),
{
    let pat = ("\r\n\r\n").as_bytes_vec();
    proof {
        reveal_strlit("\r\n\r\n");
        lemma_encode_utf8_nonempty("\r\n\r\n"@);
    }
    find_pattern(request, &pat)
}

/// The digest of the given bytes under SHA-1.
pub uninterp spec fn sha1_of(data: Seq<u8>) -> Seq<u8>;

/// The standard Base64 encoding (RFC 4648, with padding) of the given
/// bytes.
pub uninterp spec fn base64_of(data: Seq<u8>) -> Seq<u8>;

/// Relies on the sha1 crate's `Sha1` through the `Digest` trait: the
/// digest depends on the input bytes alone and is always 20 bytes.
#[verifier::external_body]
fn sha1_digest(data: &Vec<u8>) -> (r: Vec<u8>)
    ensures
        r@ == sha1_of(data@),
        r@.len() == 20,
{
    let mut hasher = Sha1::new();
    hasher.update(data.as_slice());
    hasher.finalize().to_vec()
}

/// Relies on base64's `STANDARD` engine: the encoding depends on the
/// input bytes alone, four output bytes for every three of input,
/// rounded up. The engine panics when that length overflows `usize`,
/// so inputs near the top of the range are excluded.
#[verifier::external_body]
fn base64_encode(data: &Vec<u8>) -> (r: Vec<u8>)
    requires
        data@.len() < usize::MAX / 4,
    ensures
        r@ == base64_of(data@),
        r@.len() == 4 * ((data@.len() + 2) / 3),
{
    base64::engine::general_purpose::STANDARD.encode(data.as_slice()).into_bytes()
}

/// The GUID that RFC 6455 appends to the client key before hashing.
pub open spec fn websocket_guid() -> Seq<u8> {
    encode_utf8("258EAFA5-E914-47DA-95CA-C5AB0DC85B11"@)
}

/// Handshake accept-key correctness: for every client key, the accept
/// value is the Base64 encoding of the SHA-1 digest of the key
/// followed by the RFC 6455 GUID.
pub fn generate_accept_key(key: &Vec<u8>) -> (r: Vec<u8>)
    ensures
        r@ == base64_of(sha1_of(key@ + websocket_guid())),
{
    let mut input = crate::frame::copy_range(key, 0, key.len());
    let mut guid = ("258EAFA5-E914-47DA-95CA-C5AB0DC85B11").as_bytes_vec();
    input.append(&mut guid);
    proof {
        assert(key@.subrange(0, key@.len() as int) =~= key@);
    }
    let digest = sha1_digest(&input);
    base64_encode(&digest)
}

/// Everything of the 101 response before the accept value.
pub open spec fn response_prefix() -> Seq<u8> {
    encode_utf8(
        "HTTP/1.1 101 Switching Protocols\r\nUpgrade: websocket\r\nConnection: Upgrade\r\nSec-WebSocket-Accept: "@,
    )
}

/// The terminator of the 101 response.
pub open spec fn response_suffix() -> Seq<u8> {
    encode_utf8("\r\n\r\n"@)
}

/// The full 101 Switching Protocols response for a client key.
pub open spec fn spec_handshake_response(key: Seq<u8>) -> Seq<u8> {
    response_prefix() + base64_of(sha1_of(key + websocket_guid())) + response_suffix()
}

/// Validates the request's key header and produces the exact HTTP 101
/// response to write back, leaving the stream ready for binary
/// framing. A request without a usable key is rejected.
pub fn perform_handshake(request: &Vec<u8>) -> (r: Result<Vec<u8>, WebSocketError>)
    ensures
        ({
            let sk = spec_extract_key(request@);
            match r {
                Ok(resp) => sk matches Some(k) && resp@ == spec_handshake_response(k),
                Err(e) => sk is None && (e matches WebSocketError::HandshakeError(h)
                    && h matches HandshakeError::InvalidKey(d) && d@
                    == "Missing or invalid Sec-WebSocket-Key"@),
            }
        }),
{
    match extract_websocket_key(request) {
        Some(key) => {
            let mut resp = (
            "HTTP/1.1 101 Switching Protocols\r\nUpgrade: websocket\r\nConnection: Upgrade\r\nSec-WebSocket-Accept: ").as_bytes_vec();
            let mut accept = generate_accept_key(&key);
            resp.append(&mut accept);
            let mut suffix = ("\r\n\r\n").as_bytes_vec();
            resp.append(&mut suffix);
            Ok(resp)
        },
        None => Err(
            WebSocketError::HandshakeError(
                HandshakeError::InvalidKey(
                    String::from_str("Missing or invalid Sec-WebSocket-Key"),
                ),
            ),
        ),
    }
}

/// Decides a fresh connection's opening request: a buffer without
/// the header terminator is an incomplete preamble, a request without
/// an `Upgrade: websocket` header is not a WebSocket upgrade, and
/// both are rejected; otherwise the handshake produces the 101
/// response to write back.
pub fn accept_connection(request: &Vec<u8>) -> (r: Result<Vec<u8>, WebSocketError>)
    ensures
        ({
            if !spec_has_header_end(request@) {
                r matches Err(e) && (e matches WebSocketError::HandshakeError(h)
                    && h matches HandshakeError::InvalidKey(d) && d@ == "Incomplete HTTP request"@)
            } else if spec_has_upgrade(request@) {
                let sk = spec_extract_key(request@);
                match r {
                    Ok(resp) => sk matches Some(k) && resp@ == spec_handshake_response(k),
                    Err(e) => sk is None && (e matches WebSocketError::HandshakeError(h)
                        && h matches HandshakeError::InvalidKey(d) && d@
                        == "Missing or invalid Sec-WebSocket-Key"@),
                }
            } else {
                r matches Err(e) && e matches WebSocketError::HandshakeError(h)
                    && h matches HandshakeError::InvalidKey(d) && d@ == "Not a WebSocket request"@
            }
        }),
{
    if !has_header_end(request) {
        Err(
            WebSocketError::HandshakeError(
                HandshakeError::InvalidKey(String::from_str("Incomplete HTTP request")),
            ),
        )
    } else if has_upgrade_header(request) {
        perform_handshake(request)
    } else {
        Err(
            WebSocketError::HandshakeError(
                HandshakeError::InvalidKey(String::from_str("Not a WebSocket request")),
            ),
        )
    }
}

} // verus!
