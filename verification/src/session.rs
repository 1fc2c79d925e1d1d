//! A session: one logical connection's framing state.
//!
//! A fresh session sends and receives plaintext frames. Once a handshake
//! completes, every frame is sealed under a fresh random nonce and carried
//! inside an envelope `ciphertext length (2 bytes, big endian) || nonce (12
//! bytes) || ciphertext`. The session holds no transport: it produces the
//! exact bytes to write, and consumes the bytes read, so that any byte pipe
//! can carry a connection. Receiving is driven in three steps — ask for the
//! prefix length, derive the remaining length from the prefix, then finish —
//! so a caller never reads more than one frame, and an oversized declared
//! length is rejected before its payload is touched.

use vstd::prelude::*;
use vstd::slice::slice_subrange;

use crate::codec::ECDH_PUBLIC_LEN;
use crate::codec::MSG_LENGTH;
use crate::codec::NONCE_SIZE;
use crate::codec::decode_frame;
use crate::codec::decodes_to;
use crate::codec::encode_frame;
use crate::codec::frame_fits;
use crate::codec::frame_of;
use crate::codec::lemma_frame_round_trip;
use crate::codec::payload_len_of;
use crate::crypto::aead_open;
use crate::crypto::aead_seal;
use crate::crypto::derived_key_of;
use crate::crypto::ec_public_of;
use crate::crypto::ecdh_derive;
use crate::crypto::is_ec_public;
use crate::crypto::is_ec_secret;
use crate::crypto::generate_nonce;
use crate::crypto::keypair_generate;
use crate::crypto::opened_of;
use crate::crypto::sealed_of;
use crate::error::ChatError;
use crate::error::ProtocolError;
use crate::msg::Msg;
use crate::msg::wf_msg;

verus! {

/// A 16-bit big-endian quantity read from two bytes.
pub open spec fn be16(hi: u8, lo: u8) -> int {
    hi as int * 256 + lo as int
}

/// Whether `env` is a well-formed sealed envelope for `frame` under `key`:
/// a big-endian ciphertext length, a 12-byte nonce, and a ciphertext — the
/// frame's length plus the 16-byte tag — that seals, and opens back to,
/// exactly `frame`.
pub open spec fn sealed_envelope(key: Seq<u8>, env: Seq<u8>, frame: Seq<u8>) -> bool {
    &&& env.len() >= 14
    &&& ({
        let clen = be16(env[0], env[1]);
        let nonce = env.subrange(2, 14);
        let ct = env.subrange(14, env.len() as int);
        &&& ct.len() == clen
        &&& ct.len() == frame.len() + 16
        &&& clen <= MSG_LENGTH as int
        &&& ct == sealed_of(key, nonce, frame)
        &&& opened_of(key, nonce, ct) == Some(frame)
    })
}

/// One connection's framing state: plaintext until a key is installed.
pub struct Session {
    key: Option<Vec<u8>>,
}

impl Session {
    /// A session key, if installed, is 32 bytes.
    pub closed spec fn wf(self) -> bool {
        self.key matches Some(k) ==> k@.len() == 32
    }

    /// Whether a cipher is installed.
    pub closed spec fn encrypted(self) -> bool {
        self.key is Some
    }

    /// The installed key bytes; empty while plaintext.
    pub closed spec fn skey(self) -> Seq<u8> {
        match self.key {
            Some(k) => k@,
            None => Seq::empty(),
        }
    }

    /// Bytes of prefix a receiver must read first: the envelope length field
    /// when encrypted, the frame header when plaintext.
    pub open spec fn prefix_len(self) -> int {
        if self.encrypted() {
            2
        } else {
            3
        }
    }

    /// A fresh plaintext session.
    pub fn new() -> (s: Session)
        ensures
            s.wf(),
            !s.encrypted(),
    {
        Session { key: None }
    }

    /// Whether the handshake has completed on this session.
    pub fn is_encrypted(&self) -> (b: bool)
        ensures
            b == self.encrypted(),
    {
        self.key.is_some()
    }

    /// A fresh ephemeral key pair for the handshake: the 32-byte secret and
    /// the 33-byte compressed public key to send to the peer.
    pub fn handshake_keypair() -> (r: (Vec<u8>, Vec<u8>))
        ensures
            r.0@.len() == 32,
            r.1@.len() == ECDH_PUBLIC_LEN,
            r.1@ == ec_public_of(r.0@),
            is_ec_secret(r.0@),
            is_ec_public(r.1@),
    {
        keypair_generate()
    }

    /// Derives the shared key from our ephemeral secret and the peer's
    /// public key, and installs it. Succeeds exactly when the secret is a
    /// valid scalar and the peer key a valid point. Idempotent: a session
    /// that already holds a key is left untouched and reports success, so
    /// no re-keying can occur. A malformed peer key fails with `Crypto` and
    /// leaves the session plaintext — it never falls back silently.
    pub fn complete_handshake(&mut self, secret: &[u8], peer_public: &[u8]) -> (r: Result<
        (),
        ChatError,
    >)
        requires
            old(self).wf(),
        ensures
            final(self).wf(),
            old(self).encrypted() ==> (r matches Ok(_) && *final(self) == *old(self)),
            !old(self).encrypted() ==> (r is Ok <==> is_ec_secret(secret@) && is_ec_public(
                peer_public@,
            )),
            !old(self).encrypted() ==> match r {
                Ok(_) => final(self).encrypted() && final(self).skey() == derived_key_of(
                    secret@,
                    peer_public@,
                ) && (forall|other: Seq<u8>|
                    peer_public@ == ec_public_of(other) ==> final(self).skey() == derived_key_of(
                        other,
                        ec_public_of(secret@),
                    )),
                Err(e) => e == ChatError::Crypto && *final(self) == *old(self),
            },
    {
        if self.key.is_some() {
            return Ok(());
        }
        match ecdh_derive(secret, peer_public) {
            Some(k) => {
                self.key = Some(k);
                Ok(())
            },
            None => Err(ChatError::Crypto),
        }
    }

    /// Duplicates the session state into an independent pair, one for each
    /// transport direction. Both halves carry the cipher state as it stands
    /// now; a handshake must complete before splitting.
    pub fn split(self) -> (r: (Session, Session))
        requires
            self.wf(),
        ensures
            r.0.wf() && r.1.wf(),
            r.0.encrypted() == self.encrypted() && r.1.encrypted() == self.encrypted(),
            r.0.skey() == self.skey() && r.1.skey() == self.skey(),
    {
        let copy = match &self.key {
            Some(k) => {
                let mut k2: Vec<u8> = Vec::new();
                k2.extend_from_slice(k.as_slice());
                Some(k2)
            },
            None => None,
        };
        (Session { key: copy }, self)
    }

    /// Turns a message into the exact bytes to write for this session: the
    /// plaintext frame, or a sealed envelope under a fresh random nonce.
    /// Fails — exactly, and with a protocol error — when the frame, before
    /// or after sealing, would exceed [`MSG_LENGTH`].
    pub fn send_bytes(&self, msg: &Msg) -> (r: Result<Vec<u8>, ChatError>)
        requires
            self.wf(),
        ensures
            r is Ok <==> frame_fits(msg@) && (self.encrypted() ==> 19 + payload_len_of(msg@)
                <= MSG_LENGTH as int),
            match r {
                Ok(out) => {
                    &&& !self.encrypted() ==> out@ == frame_of(msg@)
                    &&& self.encrypted() ==> sealed_envelope(self.skey(), out@, frame_of(msg@))
                },
                Err(e) => e == ChatError::Protocol(ProtocolError::Oversized),
            },
    {
        let frame = match encode_frame(msg) {
            Ok(f) => f,
            Err(e) => {
                return Err(e);
            },
        };
        match &self.key {
            None => Ok(frame),
            Some(k) => {
                let nonce = generate_nonce();
                match aead_seal(k.as_slice(), nonce.as_slice(), frame.as_slice()) {
                    None => {
                        proof {
                            assert(false);
                        }
                        Err(ChatError::Protocol(ProtocolError::Oversized))
                    },
                    Some(ct) => {
                        if ct.len() > MSG_LENGTH {
                            return Err(ChatError::Protocol(ProtocolError::Oversized));
                        }
                        let clen = ct.len();
                        let mut out: Vec<u8> = Vec::new();
                        out.push((clen / 256) as u8);
                        out.push((clen % 256) as u8);
                        out.extend_from_slice(nonce.as_slice());
                        out.extend_from_slice(ct.as_slice());
                        proof {
                            assert(out@.subrange(2, 14) =~= nonce@);
                            assert(out@.subrange(14, out@.len() as int) =~= ct@);
                        }
                        Ok(out)
                    },
                }
            },
        }
    }

    /// How many bytes a receiver must read before anything else can be said
    /// of the incoming frame.
    pub fn recv_prefix_len(&self) -> (n: usize)
        ensures
            n == self.prefix_len(),
    {
        if self.is_encrypted() {
            2
        } else {
            3
        }
    }

    /// From the prefix just read, the exact number of bytes that completes
    /// the frame. An oversized declared length is rejected here, before any
    /// of those bytes is read.
    pub fn recv_rest_len(&self, prefix: &[u8]) -> (r: Result<usize, ChatError>)
        requires
            self.wf(),
            prefix@.len() == self.prefix_len(),
        ensures
            !self.encrypted() ==> match r {
                Ok(n) => n == be16(prefix@[1], prefix@[2]) && 3 + n <= MSG_LENGTH as int,
                Err(e) => e == ChatError::Protocol(ProtocolError::Oversized) && 3 + be16(
                    prefix@[1],
                    prefix@[2],
                ) > MSG_LENGTH as int,
            },
            self.encrypted() ==> match r {
                Ok(n) => n == NONCE_SIZE + be16(prefix@[0], prefix@[1]) && be16(
                    prefix@[0],
                    prefix@[1],
                ) <= MSG_LENGTH as int,
                Err(e) => e == ChatError::Protocol(ProtocolError::Oversized) && be16(
                    prefix@[0],
                    prefix@[1],
                ) > MSG_LENGTH as int,
            },
    {
        if self.is_encrypted() {
            let clen = (prefix[0] as usize) * 256 + (prefix[1] as usize);
            if clen > MSG_LENGTH {
                Err(ChatError::Protocol(ProtocolError::Oversized))
            } else {
                Ok(NONCE_SIZE + clen)
            }
        } else {
            let (_, length) = Msg::parse_header(prefix);
            if length + 3 > MSG_LENGTH {
                Err(ChatError::Protocol(ProtocolError::Oversized))
            } else {
                Ok(length)
            }
        }
    }

    /// Completes a receive from the prefix and the remaining bytes. On an
    /// encrypted session the envelope is opened first; a failed
    /// authentication tag is a hard `Crypto` error that yields no plaintext.
    pub fn recv_finish(&self, prefix: &[u8], rest: &[u8]) -> (r: Result<Msg, ChatError>)
        requires
            self.wf(),
            prefix@.len() == self.prefix_len(),
            !self.encrypted() ==> rest@.len() == be16(prefix@[1], prefix@[2]) && 3 + rest@.len()
                <= MSG_LENGTH as int,
            self.encrypted() ==> rest@.len() == NONCE_SIZE + be16(prefix@[0], prefix@[1]) && be16(
                prefix@[0],
                prefix@[1],
            ) <= MSG_LENGTH as int,
        ensures
            !self.encrypted() ==> decodes_to(prefix@ + rest@, r),
            self.encrypted() ==> ({
                let nonce = rest@.subrange(0, NONCE_SIZE as int);
                let ct = rest@.subrange(NONCE_SIZE as int, rest@.len() as int);
                match opened_of(self.skey(), nonce, ct) {
                    Some(pt) => decodes_to(pt, r),
                    None => r == Err::<Msg, ChatError>(ChatError::Crypto),
                }
            }),
    {
        match &self.key {
            None => {
                let mut f: Vec<u8> = Vec::new();
                f.extend_from_slice(prefix);
                f.extend_from_slice(rest);
                let r = decode_frame(f.as_slice());
                proof {
                    assert(f@ =~= prefix@ + rest@);
                }
                r
            },
            Some(k) => {
                let nonce = slice_subrange(rest, 0, NONCE_SIZE);
                let ct = slice_subrange(rest, NONCE_SIZE, rest.len());
                match aead_open(k.as_slice(), nonce, ct) {
                    None => Err(ChatError::Crypto),
                    Some(pt) => decode_frame(pt.as_slice()),
                }
            },
        }
    }
}

/// Runs the handshake between two fresh endpoints as if over a loopback
/// pipe: each generates an ephemeral key pair, hands the other its public
/// half, and completes against it. Whenever both completions succeed, the
/// two sessions hold the same symmetric key. Fresh key pairs are always
/// valid against each other, so the exchange cannot fail.
pub fn handshake_loopback() -> (r: (Session, Session))
    ensures
        r.0.wf() && r.1.wf(),
        r.0.encrypted() && r.1.encrypted(),
        r.0.skey() == r.1.skey(),
{
    let (a_secret, a_public) = Session::handshake_keypair();
    let (b_secret, b_public) = Session::handshake_keypair();
    let mut a = Session::new();
    let mut b = Session::new();
    if let Err(_) = a.complete_handshake(&a_secret, &b_public) {
        proof {
            assert(false);
        }
    }
    if let Err(_) = b.complete_handshake(&b_secret, &a_public) {
        proof {
            assert(false);
        }
    }
    proof {
        assert(b_public@ == ec_public_of(b_secret@));
        assert(a.skey() == derived_key_of(b_secret@, ec_public_of(a_secret@)));
        assert(ec_public_of(a_secret@) == a_public@);
        assert(b.skey() == derived_key_of(b_secret@, a_public@));
    }
    (a, b)
}

/// Drives one message through a matched pair of sessions, exactly as two
/// connected peers would: the sender produces its bytes, the receiver
/// consumes them prefix-first. For any well-formed message that fits the
/// size bounds, the transfer succeeds and what comes out equals what went
/// in, on plaintext and on encrypted sessions alike.
pub fn pipe_transfer(tx: &Session, rx: &Session, msg: &Msg) -> (r: Result<Msg, ChatError>)
    requires
        tx.wf(),
        rx.wf(),
        tx.encrypted() == rx.encrypted(),
        tx.skey() == rx.skey(),
        wf_msg(msg@),
        frame_fits(msg@),
        tx.encrypted() ==> 19 + payload_len_of(msg@) <= MSG_LENGTH as int,
    ensures
        r matches Ok(m) && m@ == msg@,
{
    let env = match tx.send_bytes(msg) {
        Ok(e) => e,
        Err(e) => {
            proof {
                assert(false);
            }
            return Err(e);
        },
    };
    proof {
        lemma_frame_round_trip(msg@);
    }
    let plen = rx.recv_prefix_len();
    let prefix = slice_subrange(env.as_slice(), 0, plen);
    let rest = slice_subrange(env.as_slice(), plen, env.len());
    let n = match rx.recv_rest_len(prefix) {
        Ok(n) => n,
        Err(_) => {
            proof {
                assert(false);
            }
            return Err(ChatError::Crypto);
        },
    };
    assert(rest@.len() == n);
    let out = rx.recv_finish(prefix, rest);
    proof {
        if !rx.encrypted() {
            assert(prefix@ + rest@ =~= env@);
        } else {
            assert(rest@.subrange(0, NONCE_SIZE as int) =~= env@.subrange(2, 14));
            assert(rest@.subrange(NONCE_SIZE as int, rest@.len() as int) =~= env@.subrange(
                14,
                env@.len() as int,
            ));
        }
    }
    out
}

} // verus!
