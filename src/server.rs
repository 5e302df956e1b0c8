//! `ChatServer` keeps the list of connected sessions. Peers send messages to
//! other peers through it.

use vstd::prelude::*;
use crate::client;

verus! {

/// Text for one session's connection.
pub struct Message(pub String);

/// A new session asks to be registered; `addr` is the handle used to reach it.
pub struct Connect<S> {
    pub addr: S,
}

/// A session has gone away.
pub struct Disconnect {
    pub id: usize,
}

/// Request for the list of rooms.
pub struct ListRooms;

/// A session asks to join a room.
pub struct Join {
    /// Client id
    pub id: usize,
}

/// One text to deliver to each listed session, in order.
pub struct Broadcast {
    pub text: String,
    pub recipients: Vec<usize>,
}

/// The rooms that `ListRooms` reports: a single room.
pub open spec fn room_names() -> Seq<Seq<char>> {
    seq!["Main"@]
}

/// The registry of live sessions. Identities come from a counter that starts
/// at 1, so an identity is never handed out twice and 0 never names a session.
pub struct ChatServer<S> {
    sessions: Vec<(usize, S)>,
    next_id: usize,
    issued: Ghost<Seq<usize>>,
}

impl<S> Default for ChatServer<S> {
    fn default() -> (r: Self)
        ensures
            r.wf(),
            r.entries().len() == 0,
            r.issued().len() == 0,
    {
        Self::new()
    }
}

impl<S> ChatServer<S> {
    /// The registered sessions, in the order they connected.
    pub closed spec fn entries(&self) -> Seq<(usize, S)> {
        self.sessions@
    }

    /// Every identity handed out so far, in the order it was handed out.
    pub closed spec fn issued(&self) -> Seq<usize> {
        self.issued@
    }

    pub open spec fn ids(&self) -> Seq<usize> {
        self.entries().map_values(|e: (usize, S)| e.0)
    }

    pub open spec fn members(&self) -> Set<usize> {
        self.ids().to_set()
    }

    pub closed spec fn wf(&self) -> bool {
        &&& self.ids().no_duplicates()
        &&& self.issued@.no_duplicates()
        &&& self.next_id == self.issued@.len() + 1
        &&& forall|i: int| 0 <= i < self.ids().len() ==> self.issued@.contains(#[trigger] self.ids()[i])
        &&& forall|i: int| 0 <= i < self.issued@.len() ==> 1 <= #[trigger] self.issued@[i] < self.next_id
    }

    /// What a disconnect of `id` does, taking `before` to `after` and
    /// notifying `notified`.
    pub open spec fn disconnect_effect(before: Self, after: Self, id: usize, notified: Seq<usize>) -> bool {
        &&& after.issued() == before.issued()
        &&& !after.members().contains(id)
        &&& after.members() == before.members().remove(id)
        &&& !before.members().contains(id) ==> after.entries() == before.entries() && notified.len() == 0
        &&& before.members().contains(id) ==> notified == after.ids() && exists|k: int|
            0 <= k < before.entries().len() && (#[trigger] before.entries()[k]).0 == id
                && after.entries() == before.entries().remove(k)
    }

    /// An empty registry.
    pub fn new() -> (r: Self)
        ensures
            r.wf(),
            r.entries().len() == 0,
            r.issued().len() == 0,
    {
        ChatServer { sessions: Vec::new(), next_id: 1, issued: Ghost(Seq::empty()) }
    }

    /// Send message to all users
    pub fn send_message(&self, message: &str) -> (r: Broadcast)
        ensures
            r.text@ == message@,
            r.recipients@ == self.ids(),
    {
        let mut recipients: Vec<usize> = Vec::new();
        let mut i: usize = 0;
        while i < self.sessions.len()
            invariant
                i <= self.sessions@.len(),
                recipients@ == self.ids().subrange(0, i as int),
            decreases self.sessions@.len() - i,
        {
            recipients.push(self.sessions[i].0);
            i = i + 1;
            assert(recipients@ =~= self.ids().subrange(0, i as int));
        }
        assert(recipients@ =~= self.ids());
        Broadcast { text: message.to_owned(), recipients }
    }

    /// Registers a new session under a fresh identity. The sessions already
    /// present are told that someone joined; the new one is not. Fails only
    /// when the identities are used up.
    pub fn handle_connect(&mut self, msg: Connect<S>) -> (r: Option<(usize, Broadcast)>)
        requires
            old(self).wf(),
        ensures
            final(self).wf(),
            r is None <==> old(self).issued().len() + 1 >= usize::MAX,
            r is None ==> final(self).entries() == old(self).entries()
                && final(self).issued() == old(self).issued(),
            r matches Some((id, b)) ==> {
                &&& !old(self).issued().contains(id)
                &&& !old(self).members().contains(id)
                &&& final(self).issued() == old(self).issued().push(id)
                &&& final(self).entries() == old(self).entries().push((id, msg.addr))
                &&& final(self).members() == old(self).members().insert(id)
                &&& b.text@ == "Someone joined"@
                &&& b.recipients@ == old(self).ids()
            },
    {
        if self.next_id == usize::MAX {
            return None;
        }
        let notice = self.send_message("Someone joined");
        let id = self.next_id;
        proof {
            if self.issued@.contains(id) {
                let j = choose|j: int| 0 <= j < self.issued@.len() && self.issued@[j] == id;
                assert(self.issued@[j] < self.next_id);
            }
            if self.members().contains(id) {
                let j = choose|j: int| 0 <= j < self.ids().len() && self.ids()[j] == id;
                assert(self.issued@.contains(self.ids()[j]));
            }
        }
        let ghost old_ids = self.ids();
        let ghost old_issued = self.issued@;
        self.sessions.push((id, msg.addr));
        self.next_id = id + 1;
        self.issued = Ghost(self.issued@.push(id));
        proof {
            assert(self.ids() =~= old_ids.push(id));
            assert forall|x: usize| #[trigger] self.members().contains(x) <==> old_ids.to_set().insert(id).contains(x) by {
                if self.members().contains(x) {
                    let i = choose|i: int| 0 <= i < self.ids().len() && self.ids()[i] == x;
                    if i < old_ids.len() {
                        assert(old_ids[i] == x);
                    }
                }
                if old_ids.to_set().contains(x) && x != id {
                    let i = choose|i: int| 0 <= i < old_ids.len() && old_ids[i] == x;
                    assert(self.ids()[i] == x);
                }
                if x == id {
                    assert(self.ids()[old_ids.len() as int] == x);
                }
            }
            assert(self.members() =~= old_ids.to_set().insert(id));
            assert forall|i: int| 0 <= i < self.ids().len() implies self.issued@.contains(#[trigger] self.ids()[i]) by {
                if i < old_ids.len() {
                    assert(old_ids[i] == self.ids()[i]);
                    assert(old_issued.contains(old_ids[i]));
                    let j = choose|j: int| 0 <= j < old_issued.len() && old_issued[j] == old_ids[i];
                    assert(self.issued@[j] == old_ids[i]);
                } else {
                    assert(self.issued@[self.issued@.len() - 1] == id);
                }
            }
        }
        Some((id, notice))
    }

    /// Removes a session. Nothing happens, and nobody is told, when `msg.id`
    /// is not registered; otherwise the remaining sessions are told that
    /// someone disconnected.
    pub fn handle_disconnect(&mut self, msg: Disconnect) -> (r: Broadcast)
        requires
            old(self).wf(),
        ensures
            final(self).wf(),
            Self::disconnect_effect(*old(self), *final(self), msg.id, r.recipients@),
            r.text@ == "Someone disconnected"@,
    {
        let mut k: usize = 0;
        while k < self.sessions.len() && self.sessions[k].0 != msg.id
            invariant
                k <= self.sessions@.len(),
                forall|j: int| 0 <= j < k ==> self.ids()[j] != msg.id,
            decreases self.sessions@.len() - k,
        {
            k = k + 1;
        }
        if k == self.sessions.len() {
            proof {
                assert(!self.members().contains(msg.id));
                assert(self.members().remove(msg.id) =~= self.members());
            }
            return Broadcast { text: "Someone disconnected".to_owned(), recipients: Vec::new() };
        }
        let ghost before = *self;
        let _removed = self.sessions.remove(k);
        proof {
            let old_ids = before.ids();
            assert(self.ids() =~= old_ids.remove(k as int));
            assert(old_ids[k as int] == msg.id);
            assert(before.members().contains(msg.id));
            assert forall|a: int, b: int| 0 <= a < b < self.ids().len() implies self.ids()[a] != self.ids()[b] by {
                let a2 = if a < k { a } else { a + 1 };
                let b2 = if b < k { b } else { b + 1 };
                assert(self.ids()[a] == old_ids[a2]);
                assert(self.ids()[b] == old_ids[b2]);
            }
            assert forall|x: usize| #[trigger] self.members().contains(x) <==> before.members().remove(msg.id).contains(x) by {
                if self.members().contains(x) {
                    let i = choose|i: int| 0 <= i < self.ids().len() && self.ids()[i] == x;
                    let i2 = if i < k { i } else { i + 1 };
                    assert(old_ids[i2] == x);
                    assert(i2 != k);
                }
                if before.members().remove(msg.id).contains(x) {
                    let i = choose|i: int| 0 <= i < old_ids.len() && old_ids[i] == x;
                    assert(i != k);
                    let i2 = if i < k { i } else { i - 1 };
                    assert(self.ids()[i2] == x);
                }
            }
            assert(self.members() =~= before.members().remove(msg.id));
            assert forall|i: int| 0 <= i < self.ids().len() implies self.issued@.contains(#[trigger] self.ids()[i]) by {
                let i2 = if i < k { i } else { i + 1 };
                assert(self.ids()[i] == old_ids[i2]);
            }
        }
        self.send_message("Someone disconnected")
    }

    /// Relays a chat line to every session, its sender included.
    pub fn handle_message(&self, msg: client::Message) -> (r: Broadcast)
        ensures
            r.text@ == msg.msg@,
            r.recipients@ == self.ids(),
    {
        self.send_message(msg.msg.as_str())
    }

    /// The rooms there are.
    pub fn handle_list_rooms(&self, _msg: ListRooms) -> (r: Vec<String>)
        ensures
            r@.map_values(|s: String| s@) == room_names(),
    {
        let mut rooms: Vec<String> = Vec::new();
        rooms.push("Main".to_owned());
        assert(rooms@.map_values(|s: String| s@) =~= room_names());
        rooms
    }

    /// Joining a room changes no membership: every session is told that
    /// someone connected.
    pub fn handle_join(&self, _msg: Join) -> (r: Broadcast)
        ensures
            r.text@ == "Someone connected"@,
            r.recipients@ == self.ids(),
    {
        self.send_message("Someone connected")
    }

    /// The handle of a registered session.
    pub fn recipient(&self, id: usize) -> (r: Option<&S>)
        requires
            self.wf(),
        ensures
            r is Some <==> self.members().contains(id),
            r matches Some(s) ==> exists|k: int|
                0 <= k < self.entries().len() && #[trigger] self.entries()[k] == (id, *s),
    {
        let mut k: usize = 0;
        while k < self.sessions.len()
            invariant
                k <= self.sessions@.len(),
                forall|j: int| 0 <= j < k ==> self.ids()[j] != id,
            decreases self.sessions@.len() - k,
        {
            if self.sessions[k].0 == id {
                assert(self.ids()[k as int] == id);
                return Some(&self.sessions[k].1);
            }
            k = k + 1;
        }
        None
    }

    /// Identities are pairwise distinct: no identity was handed out twice,
    /// no two registered sessions share one, and each registered session
    /// holds one that was handed out.
    pub proof fn lemma_identities_distinct(&self)
        requires
            self.wf(),
        ensures
            self.issued().no_duplicates(),
            self.ids().no_duplicates(),
            forall|x: usize| #[trigger] self.members().contains(x) ==> self.issued().contains(x),
    {
        assert forall|x: usize| #[trigger] self.members().contains(x) implies self.issued().contains(x) by {
            let i = choose|i: int| 0 <= i < self.ids().len() && self.ids()[i] == x;
            assert(self.issued@.contains(self.ids()[i]));
        }
    }

    /// Once `id` is disconnected it is no member, so no broadcast lists it;
    /// and it stays among the identities handed out, which a later connect
    /// never hands out again.
    pub proof fn lemma_disconnected_not_delivered(before: Self, after: Self, id: usize, notified: Seq<usize>)
        requires
            before.wf(),
            before.members().contains(id),
            Self::disconnect_effect(before, after, id, notified),
        ensures
            !after.ids().contains(id),
            !notified.contains(id),
            after.issued().contains(id),
    {
        before.lemma_identities_distinct();
        assert(!after.members().contains(id));
    }

    /// Disconnecting twice, or disconnecting an identity that is not
    /// registered, is harmless: the later call changes nothing and notifies
    /// nobody.
    pub proof fn lemma_disconnect_idempotent(
        s0: Self,
        s1: Self,
        s2: Self,
        id: usize,
        first: Seq<usize>,
        second: Seq<usize>,
    )
        requires
            Self::disconnect_effect(s0, s1, id, first),
            Self::disconnect_effect(s1, s2, id, second),
        ensures
            s2.entries() == s1.entries(),
            second.len() == 0,
            s2.members() == s0.members().remove(id),
            !s0.members().contains(id) ==> s1.entries() == s0.entries() && first.len() == 0,
    {
    }
}

} // verus!
