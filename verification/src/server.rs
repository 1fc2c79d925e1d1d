//! The server side: nickname registry, broadcast router, and the
//! per-connection lifecycle decisions.
//!
//! The registry maps each nickname to the numeric handle of the session's
//! outbound half; it refuses a connection past its capacity, or one whose
//! nickname is already present, before anything is registered. The router
//! keeps broadcasts in arrival order and fans each one out to every
//! registered handle. The surrounding process owns the transports and the
//! locking; every decision it must take stands here, verified.

use vstd::prelude::*;

use crate::error::RejectReason;
use crate::msg::Msg;
use crate::msg::MsgView;

verus! {

/// The server-side map from nickname to the handle of a session's outbound
/// half, bounded by a configured capacity. Backed by a vector in
/// registration order; nicknames are unique by invariant.
pub struct Registry {
    max_users: usize,
    entries: Vec<(String, u64)>,
}

impl View for Registry {
    type V = Seq<(Seq<char>, u64)>;

    closed spec fn view(&self) -> Seq<(Seq<char>, u64)> {
        self.entries@.map_values(|e: (String, u64)| (e.0@, e.1))
    }
}

impl Registry {
    /// The configured capacity.
    pub closed spec fn max_spec(self) -> int {
        self.max_users as int
    }

    /// Whether some entry carries this nickname.
    pub open spec fn contains_nick(self, nick: Seq<char>) -> bool {
        exists|i: int| 0 <= i < self@.len() && self@[i].0 == nick
    }

    /// Nicknames are pairwise distinct and the registry never exceeds its
    /// capacity.
    pub open spec fn wf(self) -> bool {
        &&& forall|i: int, j: int| 0 <= i < j < self@.len() ==> self@[i].0 != self@[j].0
        &&& self@.len() <= self.max_spec()
    }

    /// An empty registry with the given capacity.
    pub fn new(max_users: usize) -> (r: Registry)
        ensures
            r.wf(),
            r@ == Seq::<(Seq<char>, u64)>::empty(),
            r.max_spec() == max_users,
    {
        let r = Registry { max_users, entries: Vec::new() };
        proof {
            assert(r@ =~= Seq::<(Seq<char>, u64)>::empty());
        }
        r
    }

    /// The configured capacity.
    pub fn max_users(&self) -> (n: usize)
        ensures
            n == self.max_spec(),
    {
        self.max_users
    }

    /// How many sessions are registered.
    pub fn len(&self) -> (n: usize)
        ensures
            n == self@.len(),
    {
        self.entries.len()
    }

    /// Whether this nickname is registered.
    pub fn contains(&self, nick: &String) -> (b: bool)
        ensures
            b == self.contains_nick(nick@),
    {
        let n = self.entries.len();
        let mut i: usize = 0;
        while i < n
            invariant
                i <= n,
                n == self.entries@.len(),
                forall|j: int| 0 <= j < i ==> self@[j].0 != nick@,
            decreases n - i,
        {
            if self.entries[i].0 == *nick {
                proof {
                    assert(self@[i as int].0 == nick@);
                }
                return true;
            }
            i = i + 1;
        }
        false
    }

    /// Registers a nickname under a single check-and-insert: a full registry
    /// refuses with `TooManyUsers`, a present nickname with `NickTaken`, and
    /// a refused nickname is never inserted.
    pub fn insert(&mut self, nick: String, id: u64) -> (r: Result<(), RejectReason>)
        requires
            old(self).wf(),
        ensures
            final(self).wf(),
            final(self).max_spec() == old(self).max_spec(),
            old(self)@.len() >= old(self).max_spec() ==> (r == Err::<(), RejectReason>(
                RejectReason::TooManyUsers,
            ) && final(self)@ == old(self)@),
            old(self)@.len() < old(self).max_spec() && old(self).contains_nick(nick@) ==> (r
                == Err::<(), RejectReason>(RejectReason::NickTaken) && final(self)@ == old(self)@),
            old(self)@.len() < old(self).max_spec() && !old(self).contains_nick(nick@) ==> (r
                == Ok::<(), RejectReason>(()) && final(self)@ == old(self)@.push((nick@, id))),
    {
        if self.entries.len() >= self.max_users {
            return Err(RejectReason::TooManyUsers);
        }
        if self.contains(&nick) {
            return Err(RejectReason::NickTaken);
        }
        let ghost prior = self@;
        let ghost nick_view = nick@;
        self.entries.push((nick, id));
        proof {
            assert(self@ =~= prior.push((nick_view, id)));
        }
        Ok(())
    }

    /// Removes a nickname, keeping every other entry in order; absent
    /// nicknames leave the registry untouched.
    pub fn remove(&mut self, nick: &String)
        requires
            old(self).wf(),
        ensures
            final(self).wf(),
            final(self).max_spec() == old(self).max_spec(),
            !old(self).contains_nick(nick@) ==> final(self)@ == old(self)@,
            old(self).contains_nick(nick@) ==> exists|i: int|
                0 <= i < old(self)@.len() && old(self)@[i].0 == nick@ && final(self)@ == old(self)@.remove(i),
            !final(self).contains_nick(nick@),
    {
        let n = self.entries.len();
        let mut i: usize = 0;
        while i < n
            invariant
                i <= n,
                n == self.entries@.len(),
                *self == *old(self),
                old(self).wf(),
                forall|j: int| 0 <= j < i ==> self@[j].0 != nick@,
            decreases n - i,
        {
            if self.entries[i].0 == *nick {
                let ghost prior = self@;
                let ghost at = i as int;
                assert(prior[at].0 == nick@);
                self.entries.remove(i);
                proof {
                    assert(self@ =~= prior.remove(at));
                    assert forall|j: int| 0 <= j < self@.len() implies self@[j] == (if j < at {
                        prior[j]
                    } else {
                        prior[j + 1]
                    }) by {}
                    assert forall|a: int, b: int|
                        0 <= a < b < self@.len() implies self@[a].0 != self@[b].0 by {
                        let pa = if a < at {
                            a
                        } else {
                            a + 1
                        };
                        let pb = if b < at {
                            b
                        } else {
                            b + 1
                        };
                        assert(self@[a] == prior[pa]);
                        assert(self@[b] == prior[pb]);
                        assert(prior[pa].0 != prior[pb].0);
                    }
                    assert forall|j: int| 0 <= j < self@.len() implies self@[j].0 != nick@ by {
                        if j < at {
                            assert(self@[j] == prior[j]);
                            assert(prior[j].0 != prior[at].0);
                        } else {
                            assert(self@[j] == prior[j + 1]);
                            assert(prior[at].0 != prior[j + 1].0);
                        }
                    }
                    assert(!self.contains_nick(nick@));
                }
                return ;
            }
            i = i + 1;
        }
    }

    /// The registered handles, in registration order.
    pub fn ids(&self) -> (r: Vec<u64>)
        ensures
            r@.len() == self@.len(),
            forall|i: int| 0 <= i < self@.len() ==> r@[i] == self@[i].1,
    {
        let n = self.entries.len();
        let mut out: Vec<u64> = Vec::new();
        let mut i: usize = 0;
        while i < n
            invariant
                i <= n,
                n == self.entries@.len(),
                out@.len() == i,
                forall|j: int| 0 <= j < i ==> out@[j] == self@[j].1,
            decreases n - i,
        {
            out.push(self.entries[i].1);
            i = i + 1;
        }
        out
    }
}

/// The view of a queued recipient: the nickname characters, if directed.
pub open spec fn opt_nick_view(o: Option<String>) -> Option<Seq<char>> {
    match o {
        Some(s) => Some(s@),
        None => None,
    }
}

/// The broadcast queue: messages leave in the order they arrived. A `None`
/// recipient means a broadcast to every registered session; a directed
/// recipient is an unimplemented extension and is delivered to nobody.
pub struct Router {
    queue: Vec<(Msg, Option<String>)>,
}

impl View for Router {
    type V = Seq<(MsgView, Option<Seq<char>>)>;

    closed spec fn view(&self) -> Seq<(MsgView, Option<Seq<char>>)> {
        self.queue@.map_values(|e: (Msg, Option<String>)| (e.0@, opt_nick_view(e.1)))
    }
}

impl Router {
    /// An empty queue.
    pub fn new() -> (r: Router)
        ensures
            r@ == Seq::<(MsgView, Option<Seq<char>>)>::empty(),
    {
        let r = Router { queue: Vec::new() };
        proof {
            assert(r@ =~= Seq::<(MsgView, Option<Seq<char>>)>::empty());
        }
        r
    }

    /// Appends an entry at the back of the queue.
    pub fn enqueue(&mut self, msg: Msg, recipient: Option<String>)
        ensures
            final(self)@ == old(self)@.push((msg@, opt_nick_view(recipient))),
    {
        let ghost prior = self@;
        let ghost entry = (msg@, opt_nick_view(recipient));
        self.queue.push((msg, recipient));
        proof {
            assert(self@ =~= prior.push(entry));
        }
    }

    /// Takes the oldest entry, first in, first out.
    pub fn dequeue(&mut self) -> (r: Option<(Msg, Option<String>)>)
        ensures
            old(self)@.len() == 0 ==> (r is None && final(self)@ == old(self)@),
            old(self)@.len() > 0 ==> (r matches Some(e) && (e.0@, opt_nick_view(e.1)) == old(self)@[0] && final(self)@ == old(self)@.drop_first()),
    {
        if self.queue.len() == 0 {
            None
        } else {
            let ghost prior = self@;
            let e = self.queue.remove(0);
            proof {
                assert(self@ =~= prior.drop_first());
            }
            Some(e)
        }
    }
}

/// What the server decides about a connection's first frame.
pub enum AuthDecision {
    /// The first frame was not a nickname request: drop the connection.
    Abort,
    /// Send this rejection and close without registering.
    Reject(Msg),
    /// Send this acceptance, then proceed (after the handshake, if the
    /// reply asks for encryption) to register the carried nickname.
    Accept(Msg, String),
}

/// Rewraps a client's raw message into its nicked counterpart carrying the
/// connection's nickname; messages of any other variant are ignored.
pub fn rewrap_inbound(nick: &String, msg: Msg) -> (r: Option<Msg>)
    ensures
        match msg@ {
            MsgView::UserMsg(s) => r matches Some(m) && m@ == MsgView::NickedUserMsg(nick@, s),
            MsgView::NickChange(s) => r matches Some(m) && m@ == MsgView::NickedNickChange(
                nick@,
                s,
            ),
            MsgView::Command(s) => r matches Some(m) && m@ == MsgView::NickedCommand(nick@, s),
            _ => r is None,
        },
{
    match msg {
        Msg::UserMsg(s) => Some(Msg::NickedUserMsg(nick.clone(), s)),
        Msg::NickChange(s) => Some(Msg::NickedNickChange(nick.clone(), s)),
        Msg::Command(s) => Some(Msg::NickedCommand(nick.clone(), s)),
        _ => None,
    }
}

/// The message-routing engine: the registry, the broadcast queue, and the
/// encryption policy, with one verified step for each lifecycle decision a
/// connection task must take.
pub struct Server {
    registry: Registry,
    router: Router,
    require_encryption: bool,
}

impl Server {
    /// The registry's contents.
    pub closed spec fn reg(self) -> Seq<(Seq<char>, u64)> {
        self.registry@
    }

    /// The queued entries, oldest first.
    pub closed spec fn queue(self) -> Seq<(MsgView, Option<Seq<char>>)> {
        self.router@
    }

    /// The configured capacity.
    pub closed spec fn max_users_spec(self) -> int {
        self.registry.max_spec()
    }

    /// Whether this server accepts only encrypted sessions.
    pub closed spec fn requires_encryption(self) -> bool {
        self.require_encryption
    }

    /// Whether this nickname is registered.
    pub open spec fn has_nick(self, nick: Seq<char>) -> bool {
        exists|i: int| 0 <= i < self.reg().len() && self.reg()[i].0 == nick
    }

    /// The registry's invariant.
    pub closed spec fn wf(self) -> bool {
        self.registry.wf()
    }

    /// A fresh server with an empty registry and queue.
    pub fn new(max_users: usize, require_encryption: bool) -> (s: Server)
        ensures
            s.wf(),
            s.reg() == Seq::<(Seq<char>, u64)>::empty(),
            s.queue() == Seq::<(MsgView, Option<Seq<char>>)>::empty(),
            s.max_users_spec() == max_users,
            s.requires_encryption() == require_encryption,
    {
        Server { registry: Registry::new(max_users), router: Router::new(), require_encryption }
    }

    /// Whether the handshake policy asks every connection to encrypt.
    pub fn encryption_required(&self) -> (b: bool)
        ensures
            b == self.requires_encryption(),
    {
        self.require_encryption
    }

    /// How many sessions are registered.
    pub fn user_count(&self) -> (n: usize)
        ensures
            n == self.reg().len(),
    {
        self.registry.len()
    }

    /// Decides a connection's fate from its first frame. Anything but a
    /// nickname request aborts; a full registry refuses with "too many
    /// users"; a taken nickname with "nick taken"; otherwise the reply says
    /// whether to accept in plaintext or to run the handshake first.
    pub fn authenticate(&self, first: &Msg) -> (d: AuthDecision)
        requires
            self.wf(),
        ensures
            !(first@ is NickChange) ==> d is Abort,
            first@ matches MsgView::NickChange(n) ==> ({
                if self.reg().len() >= self.max_users_spec() {
                    d matches AuthDecision::Reject(m) && m@ == MsgView::ConnectionRejected(
                        "too many users"@,
                    )
                } else if self.has_nick(n) {
                    d matches AuthDecision::Reject(m) && m@ == MsgView::ConnectionRejected(
                        "nick taken"@,
                    )
                } else {
                    d matches AuthDecision::Accept(reply, nick) && nick@ == n && reply@ == (
                    if self.requires_encryption() {
                        MsgView::ConnectionEncrypted
                    } else {
                        MsgView::ConnectionAccepted
                    })
                }
            }),
    {
        match first {
            Msg::NickChange(n) => {
                if self.registry.len() >= self.registry.max_users() {
                    AuthDecision::Reject(
                        Msg::ConnectionRejected(RejectReason::TooManyUsers.message()),
                    )
                } else if self.registry.contains(n) {
                    AuthDecision::Reject(Msg::ConnectionRejected(RejectReason::NickTaken.message()))
                } else {
                    let reply = if self.require_encryption {
                        Msg::ConnectionEncrypted
                    } else {
                        Msg::ConnectionAccepted
                    };
                    AuthDecision::Accept(reply, n.clone())
                }
            },
            _ => AuthDecision::Abort,
        }
    }

    /// Registers an authenticated connection's outbound handle and queues the
    /// `NickedConnect` broadcast. The checks are re-made under the same
    /// exclusive access as the insertion, so a decision that raced another
    /// connection comes back as the rejection to send.
    pub fn register(&mut self, nick: String, id: u64) -> (r: Result<(), RejectReason>)
        requires
            old(self).wf(),
        ensures
            final(self).wf(),
            final(self).max_users_spec() == old(self).max_users_spec(),
            final(self).requires_encryption() == old(self).requires_encryption(),
            match r {
                Ok(_) => {
                    &&& old(self).reg().len() < old(self).max_users_spec()
                    &&& !old(self).has_nick(nick@)
                    &&& final(self).reg() == old(self).reg().push((nick@, id))
                    &&& final(self).queue() == old(self).queue().push(
                        (MsgView::NickedConnect(nick@), None),
                    )
                },
                Err(RejectReason::TooManyUsers) => old(self).reg().len() >= old(self).max_users_spec()
                    && final(self).reg() == old(self).reg()
                    && final(self).queue() == old(self).queue(),
                Err(RejectReason::NickTaken) => old(self).reg().len() < old(self).max_users_spec()
                    && old(self).has_nick(nick@)
                    && final(self).reg() == old(self).reg()
                    && final(self).queue() == old(self).queue(),
            },
    {
        let nick_copy = nick.clone();
        match self.registry.insert(nick, id) {
            Ok(_) => {
                self.router.enqueue(Msg::NickedConnect(nick_copy), None);
                Ok(())
            },
            Err(e) => Err(e),
        }
    }

    /// Queues the nicked counterpart of one inbound client message as a
    /// broadcast; other variants are ignored. The registry is untouched.
    pub fn inbound(&mut self, nick: &String, msg: Msg)
        requires
            old(self).wf(),
        ensures
            final(self).wf(),
            final(self).reg() == old(self).reg(),
            final(self).max_users_spec() == old(self).max_users_spec(),
            final(self).requires_encryption() == old(self).requires_encryption(),
            match msg@ {
                MsgView::UserMsg(s) => final(self).queue() == old(self).queue().push(
                    (MsgView::NickedUserMsg(nick@, s), None),
                ),
                MsgView::NickChange(s) => final(self).queue() == old(self).queue().push(
                    (MsgView::NickedNickChange(nick@, s), None),
                ),
                MsgView::Command(s) => final(self).queue() == old(self).queue().push(
                    (MsgView::NickedCommand(nick@, s), None),
                ),
                _ => final(self).queue() == old(self).queue(),
            },
    {
        match rewrap_inbound(nick, msg) {
            Some(m) => self.router.enqueue(m, None),
            None => {},
        }
    }

    /// Tears a connection down: the nickname leaves the registry first, and
    /// the `NickedDisconnect` broadcast is queued after it, so nothing can
    /// be attributed to the nickname once that broadcast is delivered.
    pub fn disconnect(&mut self, nick: &String)
        requires
            old(self).wf(),
        ensures
            final(self).wf(),
            final(self).max_users_spec() == old(self).max_users_spec(),
            final(self).requires_encryption() == old(self).requires_encryption(),
            !final(self).has_nick(nick@),
            !old(self).has_nick(nick@) ==> final(self).reg() == old(self).reg(),
            old(self).has_nick(nick@) ==> exists|i: int|
                0 <= i < old(self).reg().len() && old(self).reg()[i].0 == nick@ && final(self).reg() == old(self).reg().remove(i),
            final(self).queue() == old(self).queue().push(
                (MsgView::NickedDisconnect(nick@), None),
            ),
    {
        self.registry.remove(nick);
        self.router.enqueue(Msg::NickedDisconnect(nick.clone()), None);
    }

    /// Drains one queue entry and names every handle it must be sent to: a
    /// broadcast goes to every registered session, in registration order; a
    /// directed entry is the unimplemented extension and goes to nobody.
    pub fn route_one(&mut self) -> (r: Option<(Msg, Vec<u64>)>)
        requires
            old(self).wf(),
        ensures
            final(self).wf(),
            final(self).reg() == old(self).reg(),
            final(self).max_users_spec() == old(self).max_users_spec(),
            final(self).requires_encryption() == old(self).requires_encryption(),
            old(self).queue().len() == 0 ==> (r is None && final(self).queue() == old(self).queue()),
            old(self).queue().len() > 0 ==> ({
                &&& final(self).queue() == old(self).queue().drop_first()
                &&& r matches Some(p) && p.0@ == old(self).queue()[0].0 && (if old(self).queue()[0].1 is None {
                    p.1@.len() == old(self).reg().len() && (forall|i: int|
                        0 <= i < old(self).reg().len() ==> p.1@[i] == old(self).reg()[i].1)
                } else {
                    p.1@.len() == 0
                })
            }),
    {
        match self.router.dequeue() {
            None => None,
            Some(e) => {
                let targets = match &e.1 {
                    None => self.registry.ids(),
                    Some(_) => Vec::new(),
                };
                Some((e.0, targets))
            },
        }
    }
}

} // verus!
