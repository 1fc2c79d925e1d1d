//! The frame codec: byte-level framing of messages.
//!
//! A plaintext frame is `code (1 byte) || payload length (2 bytes, big
//! endian) || payload`, where the payload is the UTF-8 encoding of the
//! message's canonical string. A frame whose total size would exceed
//! [`MSG_LENGTH`] is refused on both the encoding and the decoding side,
//! never truncated.

use vstd::prelude::*;
use vstd::slice::slice_subrange;
use vstd::utf8::decode_utf8;
use vstd::utf8::encode_utf8;
use vstd::utf8::encode_utf8_decode_utf8;
use vstd::utf8::encode_utf8_valid_utf8;
use vstd::utf8::valid_utf8;

use crate::error::ChatError;
use crate::error::ProtocolError;
use crate::msg::Msg;
use crate::msg::MsgView;
use crate::msg::code_of;
use crate::msg::header_of;
use crate::msg::known_code;
use crate::msg::lemma_header_round_trip;
use crate::msg::lemma_msg_round_trip;
use crate::msg::nicked_code;
use crate::msg::parts_of;
use crate::msg::split_of;
use crate::msg::string_of;
use crate::msg::wf_msg;

verus! {

/// Bytes of the random nonce that prefixes every sealed frame.
pub const NONCE_SIZE: usize = 12;

/// The maximum total size of any frame or sealed envelope body: 512 bytes of
/// protocol data plus the envelope's length field and nonce.
pub const MSG_LENGTH: usize = 512 + 2 + NONCE_SIZE;

/// Length of a compressed elliptic-curve public key as exchanged during the
/// handshake.
pub const ECDH_PUBLIC_LEN: usize = 33;

/// The UTF-8 payload length of a message's canonical string.
pub open spec fn payload_len_of(v: MsgView) -> int {
    encode_utf8(string_of(v)).len() as int
}

/// Whether a message's frame fits the protocol maximum.
pub open spec fn frame_fits(v: MsgView) -> bool {
    3 + payload_len_of(v) <= MSG_LENGTH as int
}

/// The exact plaintext frame bytes of a message.
pub open spec fn frame_of(v: MsgView) -> Seq<u8> {
    header_of(code_of(v), payload_len_of(v)) + encode_utf8(string_of(v))
}

/// The payload length a frame header declares.
pub open spec fn declared_len(bytes: Seq<u8>) -> int
    recommends
        bytes.len() >= 3,
{
    bytes[1] as int * 256 + bytes[2] as int
}

/// Whether a byte string is a complete frame of admissible size.
pub open spec fn frame_shape_ok(bytes: Seq<u8>) -> bool {
    &&& bytes.len() >= 3
    &&& 3 + declared_len(bytes) <= MSG_LENGTH as int
    &&& bytes.len() == 3 + declared_len(bytes)
}

/// The payload bytes of a frame, after the three header bytes.
pub open spec fn payload_bytes(bytes: Seq<u8>) -> Seq<u8> {
    bytes.subrange(3, bytes.len() as int)
}

/// What lossy UTF-8 decoding makes of a byte string.
pub uninterp spec fn lossy_of(bytes: Seq<u8>) -> Seq<char>;

/// The message a complete frame decodes to, if any.
pub open spec fn decoded_of(bytes: Seq<u8>) -> Option<MsgView> {
    if frame_shape_ok(bytes) {
        parts_of(bytes[0], lossy_of(payload_bytes(bytes)))
    } else {
        None
    }
}

/// Relies on `String::from_utf8_lossy`: bytes that are valid UTF-8 decode to
/// exactly their character sequence.
#[verifier::external_body]
fn utf8_lossy(bytes: &[u8]) -> (r: String)
    ensures
        r@ == lossy_of(bytes@),
        valid_utf8(bytes@) ==> r@ == decode_utf8(bytes@),
{
    String::from_utf8_lossy(bytes).into_owned()
}

/// Encodes a message into its plaintext frame: header, then UTF-8 payload.
/// Fails, rather than truncates, when the frame would exceed [`MSG_LENGTH`].
pub fn encode_frame(msg: &Msg) -> (r: Result<Vec<u8>, ChatError>)
    ensures
        match r {
            Ok(bytes) => frame_fits(msg@) && bytes@ == frame_of(msg@),
            Err(e) => !frame_fits(msg@) && e == ChatError::Protocol(ProtocolError::Oversized),
        },
{
    let s = msg.string();
    let payload = s.as_str().as_bytes();
    if payload.len() > MSG_LENGTH - 3 {
        return Err(ChatError::Protocol(ProtocolError::Oversized));
    }
    let header = msg.encode_header();
    let mut out: Vec<u8> = Vec::new();
    out.push(header[0]);
    out.push(header[1]);
    out.push(header[2]);
    out.extend_from_slice(payload);
    proof {
        assert(out@ =~= frame_of(msg@));
    }
    Ok(out)
}

/// The full contract of decoding `bytes` as one plaintext frame: which
/// message comes out, and which error on which malformed input.
pub open spec fn decodes_to(bytes: Seq<u8>, r: Result<Msg, ChatError>) -> bool {
    &&& match r {
        Ok(m) => {
            &&& frame_shape_ok(bytes)
            &&& decoded_of(bytes) == Some(m@)
            &&& valid_utf8(payload_bytes(bytes)) ==> parts_of(
                bytes[0],
                decode_utf8(payload_bytes(bytes)),
            ) == Some(m@)
        },
        Err(ChatError::Protocol(ProtocolError::Oversized)) => bytes.len() >= 3 && 3 + declared_len(
            bytes,
        ) > MSG_LENGTH as int,
        Err(ChatError::Protocol(ProtocolError::Truncated)) => bytes.len() < 3 || (3 + declared_len(
            bytes,
        ) <= MSG_LENGTH as int && bytes.len() != 3 + declared_len(bytes)),
        Err(ChatError::Protocol(ProtocolError::InvalidCode)) => frame_shape_ok(bytes)
            && !known_code(bytes[0]),
        Err(ChatError::Protocol(ProtocolError::InvalidPayload)) => frame_shape_ok(bytes)
            && nicked_code(bytes[0]) && split_of(lossy_of(payload_bytes(bytes))) is None,
        Err(_) => false,
    }
    &&& frame_shape_ok(bytes) && valid_utf8(payload_bytes(bytes)) ==> (parts_of(
        bytes[0],
        decode_utf8(payload_bytes(bytes)),
    ) matches Some(v) ==> (r matches Ok(m) && m@ == v))
}

/// Decodes one complete plaintext frame. The declared length is checked
/// against [`MSG_LENGTH`] before anything else of the payload is touched;
/// unknown codes and NUL-less nicked payloads are rejected with distinct
/// errors.
pub fn decode_frame(bytes: &[u8]) -> (r: Result<Msg, ChatError>)
    ensures
        decodes_to(bytes@, r),
{
    if bytes.len() < 3 {
        return Err(ChatError::Protocol(ProtocolError::Truncated));
    }
    let (code, length) = Msg::parse_header(bytes);
    if length + 3 > MSG_LENGTH {
        return Err(ChatError::Protocol(ProtocolError::Oversized));
    }
    if bytes.len() != length + 3 {
        return Err(ChatError::Protocol(ProtocolError::Truncated));
    }
    let payload = slice_subrange(bytes, 3, bytes.len());
    let s = utf8_lossy(payload);
    match Msg::from_parts(code, s) {
        Some(m) => Ok(m),
        None => {
            if code == 100 || code == 101 || code == 103 {
                Err(ChatError::Protocol(ProtocolError::InvalidPayload))
            } else {
                Err(ChatError::Protocol(ProtocolError::InvalidCode))
            }
        },
    }
}

/// Round trip of the frame codec: the frame of any well-formed message that
/// fits the bound is complete, carries valid UTF-8, and decodes back to the
/// same message.
pub proof fn lemma_frame_round_trip(v: MsgView)
    requires
        wf_msg(v),
        frame_fits(v),
    ensures
        frame_shape_ok(frame_of(v)),
        valid_utf8(payload_bytes(frame_of(v))),
        parts_of(frame_of(v)[0], decode_utf8(payload_bytes(frame_of(v)))) == Some(v),
{
    let f = frame_of(v);
    let p = encode_utf8(string_of(v));
    let h = header_of(code_of(v), p.len() as int);
    lemma_header_round_trip(code_of(v), p.len() as int);
    assert(f[0] == h[0]);
    assert(f[1] == h[1]);
    assert(f[2] == h[2]);
    assert(payload_bytes(f) =~= p);
    encode_utf8_valid_utf8(string_of(v));
    encode_utf8_decode_utf8(string_of(v));
    lemma_msg_round_trip(v);
}

} // verus!
