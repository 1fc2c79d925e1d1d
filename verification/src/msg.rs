//! The message model: typed chat messages, their wire codes, and the
//! canonical string payload of each variant.
//!
//! A "nicked" variant carries the originating nickname alongside the original
//! payload; on the wire the two strings are joined by a single NUL character.
//! Splitting and joining on that NUL are inverses as long as the nickname
//! itself contains no NUL, which [`lemma_split_join`] proves.

use vstd::prelude::*;
use vstd::arithmetic::div_mod::lemma_fundamental_div_mod;

verus! {

/// A typed chat message. Each variant owns exactly one wire code.
#[derive(Debug, Clone, PartialEq)]
pub enum Msg {
    UserMsg(String),
    NickedUserMsg(String, String),
    NickChange(String),
    NickedNickChange(String, String),
    NickedConnect(String),
    NickedDisconnect(String),
    Command(String),
    NickedCommand(String, String),
    ConnectionEncrypted,
    ConnectionAccepted,
    ConnectionRejected(String),
}

/// The abstract form of a message: payloads as character sequences.
pub enum MsgView {
    UserMsg(Seq<char>),
    NickedUserMsg(Seq<char>, Seq<char>),
    NickChange(Seq<char>),
    NickedNickChange(Seq<char>, Seq<char>),
    NickedConnect(Seq<char>),
    NickedDisconnect(Seq<char>),
    Command(Seq<char>),
    NickedCommand(Seq<char>, Seq<char>),
    ConnectionEncrypted,
    ConnectionAccepted,
    ConnectionRejected(Seq<char>),
}

impl View for Msg {
    type V = MsgView;

    open spec fn view(&self) -> MsgView {
        match self {
            Msg::UserMsg(s) => MsgView::UserMsg(s@),
            Msg::NickedUserMsg(n, s) => MsgView::NickedUserMsg(n@, s@),
            Msg::NickChange(s) => MsgView::NickChange(s@),
            Msg::NickedNickChange(n, s) => MsgView::NickedNickChange(n@, s@),
            Msg::NickedConnect(n) => MsgView::NickedConnect(n@),
            Msg::NickedDisconnect(n) => MsgView::NickedDisconnect(n@),
            Msg::Command(s) => MsgView::Command(s@),
            Msg::NickedCommand(n, s) => MsgView::NickedCommand(n@, s@),
            Msg::ConnectionEncrypted => MsgView::ConnectionEncrypted,
            Msg::ConnectionAccepted => MsgView::ConnectionAccepted,
            Msg::ConnectionRejected(s) => MsgView::ConnectionRejected(s@),
        }
    }
}

/// The wire code of each variant. Codes are wire-stable: they must never be
/// reassigned.
pub open spec fn code_of(v: MsgView) -> u8 {
    match v {
        MsgView::UserMsg(_) => 0,
        MsgView::NickedUserMsg(_, _) => 100,
        MsgView::NickChange(_) => 1,
        MsgView::NickedNickChange(_, _) => 101,
        MsgView::NickedConnect(_) => 98,
        MsgView::NickedDisconnect(_) => 99,
        MsgView::Command(_) => 3,
        MsgView::NickedCommand(_, _) => 103,
        MsgView::ConnectionEncrypted => 253,
        MsgView::ConnectionAccepted => 254,
        MsgView::ConnectionRejected(_) => 255,
    }
}

/// Whether some variant owns this code.
pub open spec fn known_code(code: u8) -> bool {
    ||| code == 0
    ||| code == 1
    ||| code == 3
    ||| code == 98
    ||| code == 99
    ||| code == 100
    ||| code == 101
    ||| code == 103
    ||| code == 253
    ||| code == 254
    ||| code == 255
}

/// Whether this code belongs to a nicked variant, whose payload is two
/// strings joined by a NUL.
pub open spec fn nicked_code(code: u8) -> bool {
    ||| code == 100
    ||| code == 101
    ||| code == 103
}

/// Whether the sequence contains a NUL character.
pub open spec fn has_nul(s: Seq<char>) -> bool {
    exists|i: int| 0 <= i < s.len() && s[i] == '\0'
}

/// The index of the first NUL in `s`, or `s.len()` if there is none.
pub open spec fn first_nul(s: Seq<char>) -> int
    decreases s.len(),
{
    if s.len() == 0 {
        0
    } else if s[0] == '\0' {
        0
    } else {
        1 + first_nul(s.drop_first())
    }
}

/// The canonical nicked payload: nickname, NUL, original payload.
pub open spec fn join_of(nick: Seq<char>, rest: Seq<char>) -> Seq<char> {
    nick + seq!['\0'] + rest
}

/// Splitting a nicked payload at its first NUL; `None` when no NUL exists.
pub open spec fn split_of(s: Seq<char>) -> Option<(Seq<char>, Seq<char>)> {
    if first_nul(s) < s.len() {
        Some((s.subrange(0, first_nul(s)), s.subrange(first_nul(s) + 1, s.len() as int)))
    } else {
        None
    }
}

/// The message decoded from a code and a payload string, or `None` for an
/// unknown code or a nicked payload without a NUL.
pub open spec fn parts_of(code: u8, s: Seq<char>) -> Option<MsgView> {
    if code == 0 {
        Some(MsgView::UserMsg(s))
    } else if code == 1 {
        Some(MsgView::NickChange(s))
    } else if code == 3 {
        Some(MsgView::Command(s))
    } else if code == 98 {
        Some(MsgView::NickedConnect(s))
    } else if code == 99 {
        Some(MsgView::NickedDisconnect(s))
    } else if code == 253 {
        Some(MsgView::ConnectionEncrypted)
    } else if code == 254 {
        Some(MsgView::ConnectionAccepted)
    } else if code == 255 {
        Some(MsgView::ConnectionRejected(s))
    } else if nicked_code(code) {
        match split_of(s) {
            Some(p) => {
                if code == 100 {
                    Some(MsgView::NickedUserMsg(p.0, p.1))
                } else if code == 101 {
                    Some(MsgView::NickedNickChange(p.0, p.1))
                } else {
                    Some(MsgView::NickedCommand(p.0, p.1))
                }
            },
            None => None,
        }
    } else {
        None
    }
}

/// The canonical string payload of each variant. String-less variants carry
/// a fixed descriptive text.
pub open spec fn string_of(v: MsgView) -> Seq<char> {
    match v {
        MsgView::UserMsg(s) => s,
        MsgView::NickedUserMsg(n, s) => join_of(n, s),
        MsgView::NickChange(s) => s,
        MsgView::NickedNickChange(n, s) => join_of(n, s),
        MsgView::NickedConnect(n) => n,
        MsgView::NickedDisconnect(n) => n,
        MsgView::Command(s) => s,
        MsgView::NickedCommand(n, s) => join_of(n, s),
        MsgView::ConnectionEncrypted => "connection encrypted; commence ECDH"@,
        MsgView::ConnectionAccepted => "connection accepted"@,
        MsgView::ConnectionRejected(s) => s,
    }
}

/// A message whose encoding decodes back to itself: nicked variants must not
/// hide a NUL inside the nickname.
pub open spec fn wf_msg(v: MsgView) -> bool {
    match v {
        MsgView::NickedUserMsg(n, _) => !has_nul(n),
        MsgView::NickedNickChange(n, _) => !has_nul(n),
        MsgView::NickedCommand(n, _) => !has_nul(n),
        _ => true,
    }
}

proof fn lemma_first_nul_range(s: Seq<char>)
    ensures
        0 <= first_nul(s) <= s.len(),
    decreases s.len(),
{
    if s.len() > 0 && s[0] != '\0' {
        lemma_first_nul_range(s.drop_first());
    }
}

proof fn lemma_first_nul_lower(s: Seq<char>, i: int)
    requires
        0 <= i <= s.len(),
        forall|j: int| 0 <= j < i ==> s[j] != '\0',
    ensures
        first_nul(s) >= i,
    decreases i,
{
    lemma_first_nul_range(s);
    if i > 0 {
        assert(s[0] != '\0');
        assert forall|j: int| 0 <= j < i - 1 implies s.drop_first()[j] != '\0' by {
            assert(s.drop_first()[j] == s[j + 1]);
        }
        lemma_first_nul_lower(s.drop_first(), i - 1);
        assert(first_nul(s) == 1 + first_nul(s.drop_first()));
    }
}

proof fn lemma_first_nul_at(s: Seq<char>, i: int)
    requires
        0 <= i < s.len(),
        s[i] == '\0',
        forall|j: int| 0 <= j < i ==> s[j] != '\0',
    ensures
        first_nul(s) == i,
    decreases i,
{
    if i == 0 {
    } else {
        assert(s[0] != '\0');
        assert(s.drop_first()[i - 1] == s[i]);
        assert forall|j: int| 0 <= j < i - 1 implies s.drop_first()[j] != '\0' by {
            assert(s.drop_first()[j] == s[j + 1]);
        }
        lemma_first_nul_at(s.drop_first(), i - 1);
    }
}

/// Joining and splitting on NUL are symmetric: for any nickname without an
/// embedded NUL and any payload, splitting the join gives both back.
pub proof fn lemma_split_join(nick: Seq<char>, rest: Seq<char>)
    requires
        !has_nul(nick),
    ensures
        split_of(join_of(nick, rest)) == Some((nick, rest)),
{
    let s = join_of(nick, rest);
    assert(s[nick.len() as int] == '\0');
    assert forall|j: int| 0 <= j < nick.len() implies s[j] != '\0' by {
        assert(s[j] == nick[j]);
    }
    lemma_first_nul_at(s, nick.len() as int);
    assert(s.subrange(0, nick.len() as int) =~= nick);
    assert(s.subrange(nick.len() as int + 1, s.len() as int) =~= rest);
}

/// Round trip of the message model: decoding a message's own code and
/// canonical payload gives the message back.
pub proof fn lemma_msg_round_trip(v: MsgView)
    requires
        wf_msg(v),
    ensures
        parts_of(code_of(v), string_of(v)) == Some(v),
{
    match v {
        MsgView::NickedUserMsg(n, s) => lemma_split_join(n, s),
        MsgView::NickedNickChange(n, s) => lemma_split_join(n, s),
        MsgView::NickedCommand(n, s) => lemma_split_join(n, s),
        _ => {},
    }
}

/// The high byte of a 16-bit big-endian length.
pub open spec fn len_hi(n: int) -> u8 {
    (n / 256) as u8
}

/// The low byte of a 16-bit big-endian length.
pub open spec fn len_lo(n: int) -> u8 {
    (n % 256) as u8
}

/// The three header bytes of a frame: code, then the payload length in
/// big-endian byte order.
pub open spec fn header_of(code: u8, len: int) -> Seq<u8> {
    seq![code, len_hi(len), len_lo(len)]
}

/// Parsing a header inverts encoding it, for any length that fits the
/// two-byte field.
pub proof fn lemma_header_round_trip(code: u8, len: int)
    requires
        0 <= len <= 0xFFFF,
    ensures
        header_of(code, len)[0] == code,
        header_of(code, len)[1] as int * 256 + header_of(code, len)[2] as int == len,
{
    lemma_fundamental_div_mod(len, 256);
}

impl Msg {
    /// The numeric code of the message variant.
    pub fn code(&self) -> (c: u8)
        ensures
            c == code_of(self@),
    {
        match self {
            Msg::UserMsg(_) => 0,
            Msg::NickedUserMsg(_, _) => 100,
            Msg::NickChange(_) => 1,
            Msg::NickedNickChange(_, _) => 101,
            Msg::NickedConnect(_) => 98,
            Msg::NickedDisconnect(_) => 99,
            Msg::Command(_) => 3,
            Msg::NickedCommand(_, _) => 103,
            Msg::ConnectionEncrypted => 253,
            Msg::ConnectionAccepted => 254,
            Msg::ConnectionRejected(_) => 255,
        }
    }

    /// Constructs a message from a code and a payload string. Returns `None`
    /// on an unknown code, and on a nicked code whose payload has no NUL.
    /// String-less variants ignore the passed string.
    pub fn from_parts(code: u8, string: String) -> (r: Option<Msg>)
        ensures
            match r {
                Some(m) => parts_of(code, string@) == Some(m@),
                None => parts_of(code, string@) is None,
            },
    {
        if code == 0 {
            Some(Msg::UserMsg(string))
        } else if code == 1 {
            Some(Msg::NickChange(string))
        } else if code == 3 {
            Some(Msg::Command(string))
        } else if code == 98 {
            Some(Msg::NickedConnect(string))
        } else if code == 99 {
            Some(Msg::NickedDisconnect(string))
        } else if code == 253 {
            Some(Msg::ConnectionEncrypted)
        } else if code == 254 {
            Some(Msg::ConnectionAccepted)
        } else if code == 255 {
            Some(Msg::ConnectionRejected(string))
        } else if code == 100 || code == 101 || code == 103 {
            match Msg::nicked_split(string) {
                Some(p) => {
                    if code == 100 {
                        Some(Msg::NickedUserMsg(p.0, p.1))
                    } else if code == 101 {
                        Some(Msg::NickedNickChange(p.0, p.1))
                    } else {
                        Some(Msg::NickedCommand(p.0, p.1))
                    }
                },
                None => None,
            }
        } else {
            None
        }
    }

    /// Splits a nicked payload at its first NUL into nickname and original
    /// payload; `None` when the payload holds no NUL.
    pub fn nicked_split(string: String) -> (r: Option<(String, String)>)
        ensures
            match r {
                Some(p) => split_of(string@) == Some((p.0@, p.1@)),
                None => split_of(string@) is None,
            },
    {
        let s = string.as_str();
        let len = s.unicode_len();
        let mut i: usize = 0;
        while i < len
            invariant
                i <= len,
                len == s@.len(),
                s@ == string@,
                forall|j: int| 0 <= j < i ==> s@[j] != '\0',
            decreases len - i,
        {
            if s.get_char(i) == '\0' {
                proof {
                    lemma_first_nul_at(s@, i as int);
                }
                let nick = s.substring_char(0, i).to_owned();
                let rest = s.substring_char(i + 1, len).to_owned();
                return Some((nick, rest));
            }
            i = i + 1;
        }
        proof {
            lemma_first_nul_lower(s@, len as int);
        }
        None
    }

    /// Joins a nickname and a payload with a single NUL between them.
    pub fn nicked_join(nick: &str, rest: &str) -> (r: String)
        ensures
            r@ == join_of(nick@, rest@),
    {
        proof {
            reveal_strlit("\0");
        }
        let mut out = nick.to_owned();
        out.append("\0");
        out.append(rest);
        proof {
            assert(out@ =~= join_of(nick@, rest@));
        }
        out
    }

    /// The canonical string payload of the message, NUL-joined for nicked
    /// variants, with fixed defaults for the string-less variants.
    pub fn string(&self) -> (s: String)
        ensures
            s@ == string_of(self@),
    {
        match self {
            Msg::UserMsg(s) => s.clone(),
            Msg::NickedUserMsg(n, s) => Msg::nicked_join(n.as_str(), s.as_str()),
            Msg::NickChange(s) => s.clone(),
            Msg::NickedNickChange(n, s) => Msg::nicked_join(n.as_str(), s.as_str()),
            Msg::NickedConnect(n) => n.clone(),
            Msg::NickedDisconnect(n) => n.clone(),
            Msg::Command(s) => s.clone(),
            Msg::NickedCommand(n, s) => Msg::nicked_join(n.as_str(), s.as_str()),
            Msg::ConnectionEncrypted => "connection encrypted; commence ECDH".to_owned(),
            Msg::ConnectionAccepted => "connection accepted".to_owned(),
            Msg::ConnectionRejected(s) => s.clone(),
        }
    }

    /// Reads a plaintext frame header: the code byte, then the payload
    /// length from two big-endian bytes.
    pub fn parse_header(header: &[u8]) -> (r: (u8, usize))
        requires
            header@.len() >= 3,
        ensures
            r.0 == header@[0],
            r.1 == header@[1] as int * 256 + header@[2] as int,
    {
        let code = header[0];
        let length = (header[1] as usize) * 256 + (header[2] as usize);
        (code, length)
    }

    /// Encodes the three header bytes of this message's plaintext frame.
    pub fn encode_header(&self) -> (r: [u8; 3])
        requires
            vstd::utf8::encode_utf8(string_of(self@)).len() <= 0xFFFF,
        ensures
            r@ == header_of(code_of(self@), vstd::utf8::encode_utf8(string_of(self@)).len() as int),
    {
        let s = self.string();
        let len = s.as_str().len();
        let hi = (len / 256) as u8;
        let lo = (len % 256) as u8;
        let out = [self.code(), hi, lo];
        proof {
            assert(out@ =~= header_of(code_of(self@), len as int));
        }
        out
    }
}

} // verus!
