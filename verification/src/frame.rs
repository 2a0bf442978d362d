//! The RFC 6455 frame codec: parsing one inbound frame from a byte
//! buffer and serializing one outbound frame to bytes.
//!
//! Wire layout of a frame: byte 0 carries FIN (bit 7), RSV1-3 (bits
//! 6-4, ignored) and the opcode (bits 3-0); byte 1 carries MASK (bit
//! 7) and a 7-bit length, extended by 2 or 8 big-endian bytes when the
//! 7-bit length is 126 or 127; a 4-byte masking key follows when MASK
//! is set, then the payload, XOR-masked with the key when present.

use vstd::prelude::*;
use crate::WebSocketError;

verus! {

/// Represents a WebSocket frame: the opcode and the unmasked payload.
/// Transient framing bits (FIN, RSV1-3, MASK, masking key) exist only
/// on the wire.
#[derive(Debug)]
pub struct WebSocketFrame {
    pub opcode: OpCode,
    pub payload: Vec<u8>,
}

/// Represents the opcode of a WebSocket frame, the closed set that
/// RFC 6455 defines for this core.
#[derive(Clone, Copy, Debug, PartialEq, Eq, Structural)]
pub enum OpCode {
    Continuation,
    Text,
    Binary,
    Close,
    Ping,
    Pong,
}

/// The 4-bit wire value of an opcode.
pub open spec fn opcode_value(op: OpCode) -> u8 {
    match op {
        OpCode::Continuation => 0x0,
        OpCode::Text => 0x1,
        OpCode::Binary => 0x2,
        OpCode::Close => 0x8,
        OpCode::Ping => 0x9,
        OpCode::Pong => 0xA,
    }
}

/// The opcode a 4-bit wire value denotes, or `None` outside the
/// closed set (reserved opcodes included).
pub open spec fn opcode_of_nibble(v: u8) -> Option<OpCode> {
    if v == 0x0 {
        Some(OpCode::Continuation)
    } else if v == 0x1 {
        Some(OpCode::Text)
    } else if v == 0x2 {
        Some(OpCode::Binary)
    } else if v == 0x8 {
        Some(OpCode::Close)
    } else if v == 0x9 {
        Some(OpCode::Ping)
    } else if v == 0xA {
        Some(OpCode::Pong)
    } else {
        None
    }
}

impl OpCode {
    /// The wire value of this opcode.
    pub fn to_byte(self) -> (r: u8)
        ensures
            r == opcode_value(self),
    {
        match self {
            OpCode::Continuation => 0x0,
            OpCode::Text => 0x1,
            OpCode::Binary => 0x2,
            OpCode::Close => 0x8,
            OpCode::Ping => 0x9,
            OpCode::Pong => 0xA,
        }
    }

    /// The opcode denoted by a 4-bit wire value; values outside the
    /// closed set are invalid frames.
    pub fn from_byte(value: u8) -> (r: Result<OpCode, WebSocketError>)
        ensures
            r == match opcode_of_nibble(value) {
                Some(op) => Ok::<OpCode, WebSocketError>(op),
                None => Err::<OpCode, WebSocketError>(WebSocketError::InvalidFrame),
            },
    {
        match value {
            0x0 => Ok(OpCode::Continuation),
            0x1 => Ok(OpCode::Text),
            0x2 => Ok(OpCode::Binary),
            0x8 => Ok(OpCode::Close),
            0x9 => Ok(OpCode::Ping),
            0xA => Ok(OpCode::Pong),
            _ => Err(WebSocketError::InvalidFrame),
        }
    }
}

/// The big-endian encoding of `n` in exactly `w` bytes (the low
/// `8 * w` bits of `n`).
pub open spec fn spec_be_bytes(n: nat, w: nat) -> Seq<u8>
    decreases w,
{
    if w == 0 {
        Seq::empty()
    } else {
        spec_be_bytes(n / 256, (w - 1) as nat).push((n % 256) as u8)
    }
}

/// The value of a big-endian byte sequence.
pub open spec fn spec_be_val(s: Seq<u8>) -> nat
    decreases s.len(),
{
    if s.len() == 0 {
        0
    } else {
        spec_be_val(s.drop_last()) * 256 + (s.last() as nat)
    }
}

/// One more than the largest value a `w`-byte big-endian sequence can
/// hold, that is 256 to the power `w`.
pub open spec fn be_bound(w: nat) -> nat
    decreases w,
{
    if w == 0 {
        1
    } else {
        256 * be_bound((w - 1) as nat)
    }
}

/// The bound is always at least one.
proof fn lemma_be_bound_pos(w: nat)
    ensures
        be_bound(w) >= 1,
    decreases w,
{
    if w > 0 {
        lemma_be_bound_pos((w - 1) as nat);
    }
}

/// The bound grows with the width.
proof fn lemma_be_bound_mono(a: nat, b: nat)
    requires
        a <= b,
    ensures
        be_bound(a) <= be_bound(b),
    decreases b,
{
    if a < b {
        lemma_be_bound_mono(a, (b - 1) as nat);
        lemma_be_bound_pos((b - 1) as nat);
    }
}

/// A big-endian sequence of `w` bytes holds a value below 256 to the
/// power `w`.
proof fn lemma_be_val_bound(s: Seq<u8>)
    ensures
        spec_be_val(s) < be_bound(s.len()),
    decreases s.len(),
{
    if s.len() > 0 {
        lemma_be_val_bound(s.drop_last());
    }
}

/// The encoding is exactly `w` bytes long.
proof fn lemma_be_bytes_len(n: nat, w: nat)
    ensures
        spec_be_bytes(n, w).len() == w,
    decreases w,
{
    if w > 0 {
        lemma_be_bytes_len(n / 256, (w - 1) as nat);
    }
}

/// Decoding the big-endian encoding of a value that fits in `w` bytes
/// gives the value back.
proof fn lemma_be_bytes_val(n: nat, w: nat)
    requires
        n < be_bound(w),
    ensures
        spec_be_bytes(n, w).len() == w,
        spec_be_val(spec_be_bytes(n, w)) == n,
    decreases w,
{
    lemma_be_bytes_len(n, w);
    if w == 0 {
    } else {
        assert(n / 256 < be_bound((w - 1) as nat)) by (nonlinear_arith)
            requires
                n < 256 * be_bound((w - 1) as nat),
        ;
        lemma_be_bytes_val(n / 256, (w - 1) as nat);
        let s = spec_be_bytes(n, w);
        assert(s.drop_last() =~= spec_be_bytes(n / 256, (w - 1) as nat));
        vstd::arithmetic::div_mod::lemma_fundamental_div_mod(n as int, 256);
    }
}

/// The concrete bound for seven bytes, used to show that accumulating
/// one more byte cannot overflow a `u64`.
proof fn lemma_be_bound_7()
    ensures
        be_bound(7) == 0x100000000000000,
{
    assert(be_bound(0) == 1);
    assert(be_bound(1) == 256);
    assert(be_bound(2) == 0x10000);
    assert(be_bound(3) == 0x1000000);
    assert(be_bound(4) == 0x100000000);
    assert(be_bound(5) == 0x10000000000);
    assert(be_bound(6) == 0x1000000000000);
    assert(be_bound(7) == 0x100000000000000);
}

/// Writes the big-endian encoding of `n` in exactly `w` bytes.
fn be_bytes(n: u64, w: usize) -> (r: Vec<u8>)
    ensures
        r@ == spec_be_bytes(n as nat, w as nat),
    decreases w,
{
    if w == 0 {
        Vec::new()
    } else {
        let mut r = be_bytes(n / 256, w - 1);
        r.push((n % 256) as u8);
        r
    }
}

/// Reads the big-endian value of `data[from..to]`, at most 8 bytes.
fn be_val(data: &Vec<u8>, from: usize, to: usize) -> (r: u64)
    requires
        from <= to && to <= data@.len(),
        to - from <= 8,
    ensures
        r as nat == spec_be_val(data@.subrange(from as int, to as int)),
    decreases to - from,
{
    if to == from {
        assert(data@.subrange(from as int, to as int) =~= Seq::empty());
        0
    } else {
        let prefix = be_val(data, from, to - 1);
        proof {
            let p = data@.subrange(from as int, to as int - 1);
            lemma_be_val_bound(p);
            lemma_be_bound_mono(p.len(), 7);
            lemma_be_bound_7();
            assert(data@.subrange(from as int, to as int).drop_last() =~= p);
        }
        prefix * 256 + (data[to - 1] as u64)
    }
}

/// The first header byte of an emitted frame: FIN set, no reserved
/// bits, the opcode in the low nibble.
pub open spec fn spec_fin_opcode_byte(op: OpCode) -> u8 {
    0x80u8 | opcode_value(op)
}

/// The serialized header for a frame with opcode `op` and payload
/// length `n`: the length is emitted in the shortest of the three
/// forms, and the MASK bit is never set (a server does not mask).
pub open spec fn spec_header(op: OpCode, n: nat) -> Seq<u8> {
    if n <= 125 {
        seq![spec_fin_opcode_byte(op), n as u8]
    } else if n <= 65535 {
        seq![spec_fin_opcode_byte(op), 126u8] + spec_be_bytes(n, 2)
    } else {
        seq![spec_fin_opcode_byte(op), 127u8] + spec_be_bytes(n, 8)
    }
}

/// The full serialized form of a frame: header then payload,
/// unmasked.
pub open spec fn spec_serialize(op: OpCode, payload: Seq<u8>) -> Seq<u8> {
    spec_header(op, payload.len()) + payload
}

/// Constructs the wire bytes of a WebSocket frame: FIN set, opcode,
/// the payload length in its shortest form, no mask, then the payload.
pub fn construct_frame(frame: &WebSocketFrame) -> (r: Vec<u8>)
    ensures
        r@ == spec_serialize(frame.opcode, frame.payload@),
{
    let n = frame.payload.len();
    let mut out: Vec<u8> = Vec::new();
    out.push(0x80u8 | frame.opcode.to_byte());
    if n <= 125 {
        out.push(n as u8);
    } else if n <= 65535 {
        out.push(126u8);
        let mut ext = be_bytes(n as u64, 2);
        out.append(&mut ext);
    } else {
        out.push(127u8);
        let mut ext = be_bytes(n as u64, 8);
        out.append(&mut ext);
    }
    assert(out@ =~= spec_header(frame.opcode, frame.payload@.len()));
    let mut i: usize = 0;
    while i < frame.payload.len()
        invariant
            i <= frame.payload@.len(),
            out@ == spec_header(frame.opcode, frame.payload@.len()) + frame.payload@.subrange(
                0,
                i as int,
            ),
        decreases frame.payload@.len() - i,
    {
        out.push(frame.payload[i]);
        assert(frame.payload@.subrange(0, i as int).push(frame.payload@[i as int])
            =~= frame.payload@.subrange(0, i + 1));
        i += 1;
    }
    assert(frame.payload@.subrange(0, frame.payload@.len() as int) =~= frame.payload@);
    out
}

/// The 7-bit length field of the second header byte.
pub open spec fn spec_len7(b1: u8) -> u8 {
    b1 & 0x7f
}

/// Whether the MASK bit of the second header byte is set.
pub open spec fn spec_masked(b1: u8) -> bool {
    (b1 & 0x80) == 0x80
}

/// How many extended-length bytes follow the two header bytes.
pub open spec fn spec_ext_size(len7: u8) -> nat {
    if len7 == 126 {
        2
    } else if len7 == 127 {
        8
    } else {
        0
    }
}

/// The payload length a frame header declares, meaningful once the
/// buffer holds the two header bytes and the extended length.
pub open spec fn spec_payload_len(s: Seq<u8>) -> nat {
    let len7 = spec_len7(s[1]);
    if len7 < 126 {
        len7 as nat
    } else {
        spec_be_val(s.subrange(2, 2 + spec_ext_size(len7) as int))
    }
}

/// The offset of the payload: header, extended length, and masking
/// key when the MASK bit is set.
pub open spec fn spec_payload_off(s: Seq<u8>) -> nat {
    2 + spec_ext_size(spec_len7(s[1])) + if spec_masked(s[1]) {
        4nat
    } else {
        0nat
    }
}

/// The total size in bytes of the frame at the start of the buffer.
pub open spec fn spec_frame_size(s: Seq<u8>) -> nat {
    spec_payload_off(s) + spec_payload_len(s)
}

/// Why the buffer does not (yet) parse as a frame: `IoError` when
/// bytes are missing (a short read), `InvalidFrame` on an opcode
/// outside the closed set or a length above the machine's range;
/// `None` when a whole frame is present.
pub open spec fn spec_parse_err(s: Seq<u8>) -> Option<WebSocketError> {
    if s.len() < 2 {
        Some(WebSocketError::IoError)
    } else if opcode_of_nibble(s[0] & 0x0f) is None {
        Some(WebSocketError::InvalidFrame)
    } else if s.len() < 2 + spec_ext_size(spec_len7(s[1])) {
        Some(WebSocketError::IoError)
    } else if spec_payload_len(s) > usize::MAX {
        Some(WebSocketError::InvalidFrame)
    } else if s.len() < spec_payload_off(s) {
        Some(WebSocketError::IoError)
    } else if s.len() < spec_frame_size(s) {
        Some(WebSocketError::IoError)
    } else {
        None
    }
}

/// The opcode of the frame at the start of the buffer.
pub open spec fn spec_parsed_opcode(s: Seq<u8>) -> OpCode {
    match opcode_of_nibble(s[0] & 0x0f) {
        Some(op) => op,
        None => OpCode::Continuation,
    }
}

/// The masking key of the frame, meaningful when the MASK bit is set.
pub open spec fn spec_mask_key(s: Seq<u8>) -> Seq<u8> {
    let koff = 2 + spec_ext_size(spec_len7(s[1])) as int;
    s.subrange(koff, koff + 4)
}

/// A payload XOR-masked with a 4-byte key, applied cyclically. The
/// same operation both masks and unmasks.
pub open spec fn spec_unmask(p: Seq<u8>, k: Seq<u8>) -> Seq<u8> {
    Seq::new(p.len(), |i: int| p[i] ^ k[i % 4])
}

/// The unmasked payload of the frame at the start of the buffer.
pub open spec fn spec_parsed_payload(s: Seq<u8>) -> Seq<u8> {
    let off = spec_payload_off(s) as int;
    let raw = s.subrange(off, off + spec_payload_len(s) as int);
    if spec_masked(s[1]) {
        spec_unmask(raw, spec_mask_key(s))
    } else {
        raw
    }
}

/// Copies `data[from..to]` into a fresh vector.
pub(crate) fn copy_range(data: &Vec<u8>, from: usize, to: usize) -> (r: Vec<u8>)
    requires
        from <= to && to <= data@.len(),
    ensures
        r@ == data@.subrange(from as int, to as int),
{
    let mut r: Vec<u8> = Vec::new();
    let mut i: usize = from;
    while i < to
        invariant
            from <= i <= to <= data@.len(),
            r@ == data@.subrange(from as int, i as int),
        decreases to - i,
    {
        r.push(data[i]);
        assert(data@.subrange(from as int, i as int).push(data@[i as int]) =~= data@.subrange(
            from as int,
            i + 1,
        ));
        i += 1;
    }
    r
}

/// Applies the 4-byte masking key to a payload, XOR-ing each byte
/// with the key byte at its index modulo 4. Applying it twice with
/// the same key restores the payload.
pub fn unmask(payload: &Vec<u8>, key: &Vec<u8>) -> (r: Vec<u8>)
    requires
        key@.len() == 4,
    ensures
        r@ == spec_unmask(payload@, key@),
{
    let mut r: Vec<u8> = Vec::new();
    let mut i: usize = 0;
    while i < payload.len()
        invariant
            i <= payload@.len(),
            key@.len() == 4,
            r@.len() == i,
            forall|j: int| 0 <= j < i ==> r@[j] == (payload@[j] ^ key@[j % 4]),
        decreases payload@.len() - i,
    {
        r.push(payload[i] ^ key[i % 4]);
        i += 1;
    }
    assert(r@ =~= spec_unmask(payload@, key@));
    r
}

/// Parses one WebSocket frame from the start of the buffer. On
/// success, returns the frame and the number of bytes it occupied;
/// trailing bytes are left for the next frame. A buffer that does not
/// yet hold the whole frame is a short read, `IoError`; an opcode
/// outside the closed set, or a declared length beyond the machine's
/// range, is `InvalidFrame`.
pub fn parse_frame(data: &Vec<u8>) -> (r: Result<(WebSocketFrame, usize), WebSocketError>)
    ensures
        match spec_parse_err(data@) {
            Some(e) => r == Err::<(WebSocketFrame, usize), WebSocketError>(e),
            None => (r matches Ok(p) && p.0.opcode == spec_parsed_opcode(data@) && p.0.payload@
                == spec_parsed_payload(data@) && p.1 == spec_frame_size(data@)),
        },
{
    if data.len() < 2 {
        return Err(WebSocketError::IoError);
    }
    let b0 = data[0];
    let b1 = data[1];
    let opcode = match OpCode::from_byte(b0 & 0x0f) {
        Ok(op) => op,
        Err(e) => {
            return Err(e);
        },
    };
    let len7 = b1 & 0x7f;
    let masked = (b1 & 0x80) == 0x80;
    let ext: usize = if len7 == 126 {
        2
    } else if len7 == 127 {
        8
    } else {
        0
    };
    if data.len() < 2 + ext {
        return Err(WebSocketError::IoError);
    }
    let payload_len64: u64 = if len7 < 126 {
        len7 as u64
    } else {
        be_val(data, 2, 2 + ext)
    };
    proof {
        assert(payload_len64 as nat == spec_payload_len(data@));
    }
    if payload_len64 > usize::MAX as u64 {
        return Err(WebSocketError::InvalidFrame);
    }
    let payload_len = payload_len64 as usize;
    let off = 2 + ext + if masked {
        4
    } else {
        0
    };
    if data.len() < off {
        return Err(WebSocketError::IoError);
    }
    if data.len() - off < payload_len {
        return Err(WebSocketError::IoError);
    }
    let raw = copy_range(data, off, off + payload_len);
    let payload = if masked {
        let key = copy_range(data, 2 + ext, 2 + ext + 4);
        unmask(&raw, &key)
    } else {
        raw
    };
    Ok((WebSocketFrame { opcode, payload }, off + payload_len))
}

/// The concrete bound for eight bytes: one more than `u64::MAX`.
proof fn lemma_be_bound_8()
    ensures
        be_bound(8) == 0x10000000000000000,
{
    lemma_be_bound_7();
}

/// Frame round trip: parsing the serialization of any frame whose
/// payload length the machine can represent succeeds and yields the
/// same opcode and payload, consuming exactly the emitted bytes.
pub proof fn lemma_frame_round_trip(op: OpCode, payload: Seq<u8>)
    requires
        payload.len() <= usize::MAX,
    ensures
        ({
            let s = spec_serialize(op, payload);
            &&& spec_parse_err(s) is None
            &&& spec_parsed_opcode(s) == op
            &&& spec_parsed_payload(s) == payload
            &&& spec_frame_size(s) == s.len()
        }),
{
    let n = payload.len();
    let h = spec_header(op, n);
    let s = spec_serialize(op, payload);
    let v = opcode_value(op);
    assert(((0x80u8 | v) & 0x0f) == v) by (bit_vector)
        requires
            v <= 0xA,
    ;
    assert(s[0] == spec_fin_opcode_byte(op));
    assert(opcode_of_nibble(s[0] & 0x0f) == Some(op));
    if n <= 125 {
        let b1 = n as u8;
        assert((b1 & 0x7f) == b1 && (b1 & 0x80) != 0x80) by (bit_vector)
            requires
                b1 <= 125,
        ;
        assert(s[1] == b1);
        assert(spec_payload_len(s) == n);
        assert(spec_payload_off(s) == 2);
    } else if n <= 65535 {
        assert((126u8 & 0x7f) == 126 && (126u8 & 0x80) != 0x80) by (bit_vector);
        lemma_be_bytes_len(n, 2);
        assert(s[1] == 126);
        assert(s.subrange(2, 4) =~= spec_be_bytes(n, 2));
        assert(be_bound(2) == 0x10000) by {
            assert(be_bound(0) == 1);
            assert(be_bound(1) == 256);
        };
        lemma_be_bytes_val(n, 2);
        assert(spec_payload_len(s) == n);
        assert(spec_payload_off(s) == 4);
    } else {
        assert((127u8 & 0x7f) == 127 && (127u8 & 0x80) != 0x80) by (bit_vector);
        lemma_be_bytes_len(n, 8);
        assert(s[1] == 127);
        assert(s.subrange(2, 10) =~= spec_be_bytes(n, 8));
        lemma_be_bound_8();
        lemma_be_bytes_val(n, 8);
        assert(spec_payload_len(s) == n);
        assert(spec_payload_off(s) == 10);
    }
    assert(s.len() == h.len() + n);
    assert(spec_frame_size(s) == s.len());
    assert(spec_parse_err(s) is None);
    assert(s.subrange(spec_payload_off(s) as int, spec_payload_off(s) + n as int) =~= payload);
    assert(spec_parsed_payload(s) == payload);
}

/// Mask involution: applying the same 4-byte key twice restores any
/// payload.
pub proof fn lemma_unmask_involution(p: Seq<u8>, k: Seq<u8>)
    requires
        k.len() == 4,
    ensures
        spec_unmask(spec_unmask(p, k), k) == p,
{
    assert forall|i: int| 0 <= i < p.len() implies spec_unmask(spec_unmask(p, k), k)[i] == p[i] by {
        let a = p[i];
        let b = k[i % 4];
        assert(((a ^ b) ^ b) == a) by (bit_vector);
    }
    assert(spec_unmask(spec_unmask(p, k), k) =~= p);
}

/// Length boundaries: the serialized header is 2 bytes for payloads
/// up to 125, 4 bytes up to 65535, and 10 bytes beyond, and the whole
/// serialized frame is the header followed by the payload.
pub proof fn lemma_header_length(op: OpCode, payload: Seq<u8>)
    ensures
        payload.len() <= 125 ==> spec_header(op, payload.len()).len() == 2,
        126 <= payload.len() <= 65535 ==> spec_header(op, payload.len()).len() == 4,
        payload.len() > 65535 ==> spec_header(op, payload.len()).len() == 10,
        spec_serialize(op, payload).len() == spec_header(op, payload.len()).len() + payload.len(),
{
    lemma_be_bytes_len(payload.len(), 2);
    lemma_be_bytes_len(payload.len(), 8);
}

/// Opcode validation: a buffer whose first byte carries a low nibble
/// outside the closed opcode set parses to `InvalidFrame`.
pub proof fn lemma_invalid_opcode_rejected(s: Seq<u8>)
    requires
        s.len() >= 2,
        ({
            let v = s[0] & 0x0f;
            v != 0x0 && v != 0x1 && v != 0x2 && v != 0x8 && v != 0x9 && v != 0xA
        }),
    ensures
        spec_parse_err(s) == Some(WebSocketError::InvalidFrame),
{
}

} // verus!
