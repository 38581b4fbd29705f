use vstd::prelude::*;
use vstd::std_specs::vec::vec_index;

use crate::ident::Uuid;
use crate::packet::Packet;

verus! {

/// An outside channel handle: the only path other tasks use to deliver
/// packets to a player's connection. Opaque here; app code sends on it.
#[verifier::external_type_specification]
#[verifier::external_body]
#[verifier::reject_recursive_types(T)]
pub struct ExSender<T>(tokio::sync::mpsc::Sender<T>);

/// A logged-in session: identity, name, where it connected from, which
/// backend it is on, and the channel that reaches its connection task.
pub struct ConnectedPlayer {
    pub uuid: Uuid,
    pub username: String,
    pub remote_addr: String,
    pub current_server: Option<String>,
    pub packet_tx: tokio::sync::mpsc::Sender<Packet>,
}

impl ConnectedPlayer {
    pub fn new(
        uuid: Uuid,
        username: String,
        remote_addr: String,
        packet_tx: tokio::sync::mpsc::Sender<Packet>,
    ) -> (r: ConnectedPlayer)
        ensures
            r.uuid == uuid,
            r.username@ == username@,
            r.remote_addr@ == remote_addr@,
            r.current_server is None,
    {
        ConnectedPlayer { uuid, username, remote_addr, current_server: None, packet_tx }
    }
}

/// True when no identifier appears twice.
pub open spec fn unique_uuids(s: Seq<ConnectedPlayer>) -> bool {
    forall|i: int, j: int| 0 <= i < j < s.len() ==> s[i].uuid != s[j].uuid
}

/// True when some entry carries this identifier.
pub open spec fn has_uuid(s: Seq<ConnectedPlayer>, u: Uuid) -> bool {
    exists|i: int| 0 <= i < s.len() && s[i].uuid == u
}

/// The index of the first entry carrying this identifier, or -1.
pub open spec fn find_idx(s: Seq<ConnectedPlayer>, u: Uuid) -> int
    decreases s.len(),
{
    if s.len() == 0 {
        -1
    } else if s[0].uuid == u {
        0
    } else {
        let r = find_idx(s.drop_first(), u);
        if r < 0 {
            -1
        } else {
            1 + r
        }
    }
}

/// `find_idx` finds a valid entry exactly when one exists.
pub proof fn lemma_find_valid(s: Seq<ConnectedPlayer>, u: Uuid)
    ensures
        has_uuid(s, u) <==> 0 <= find_idx(s, u),
        has_uuid(s, u) ==> find_idx(s, u) < s.len() && s[find_idx(s, u)].uuid == u,
    decreases s.len(),
{
    if s.len() == 0 {
    } else if s[0].uuid == u {
    } else {
        lemma_find_valid(s.drop_first(), u);
        if has_uuid(s, u) {
            let i = choose|i: int| 0 <= i < s.len() && s[i].uuid == u;
            assert(s.drop_first()[i - 1] == s[i]);
        }
        if has_uuid(s.drop_first(), u) {
            let i = choose|i: int| 0 <= i < s.drop_first().len() && s.drop_first()[i].uuid == u;
            assert(s[i + 1] == s.drop_first()[i]);
        }
    }
}

/// `find_idx` is the first match.
proof fn lemma_find_first(s: Seq<ConnectedPlayer>, u: Uuid, i: int)
    requires
        0 <= i < s.len(),
        s[i].uuid == u,
        forall|j: int| 0 <= j < i ==> s[j].uuid != u,
    ensures
        find_idx(s, u) == i,
    decreases s.len(),
{
    if i == 0 {
    } else {
        assert forall|j: int| 0 <= j < i - 1 implies s.drop_first()[j].uuid != u by {
            assert(s.drop_first()[j] == s[j + 1]);
        }
        assert(s.drop_first()[i - 1] == s[i]);
        lemma_find_first(s.drop_first(), u, i - 1);
    }
}

/// Removing the entry under an identifier leaves the directory one smaller,
/// with that identifier absent and every other entry kept.
pub proof fn lemma_remove_semantics(s: Seq<ConnectedPlayer>, u: Uuid)
    requires
        unique_uuids(s),
        has_uuid(s, u),
    ensures
        ({
            let t = s.remove(find_idx(s, u));
            &&& t.len() == s.len() - 1
            &&& unique_uuids(t)
            &&& !has_uuid(t, u)
            &&& forall|v: Uuid| v != u ==> (has_uuid(t, v) <==> has_uuid(s, v))
        }),
{
    lemma_find_valid(s, u);
    let k = find_idx(s, u);
    let t = s.remove(k);
    assert forall|i: int, j: int| 0 <= i < j < t.len() implies t[i].uuid != t[j].uuid by {
        let oi: int = if i < k {
            i
        } else {
            i + 1
        };
        let oj: int = if j < k {
            j
        } else {
            j + 1
        };
        assert(t[i] == s[oi] && t[j] == s[oj]);
    }
    assert forall|i: int| 0 <= i < t.len() implies t[i].uuid != u by {
        let oi: int = if i < k {
            i
        } else {
            i + 1
        };
        assert(t[i] == s[oi]);
    }
    assert forall|v: Uuid| v != u && has_uuid(s, v) implies has_uuid(t, v) by {
        let i = choose|i: int| 0 <= i < s.len() && s[i].uuid == v;
        if i < k {
            assert(t[i] == s[i]);
        } else {
            assert(t[i - 1] == s[i]);
        }
    }
    assert forall|v: Uuid| v != u && has_uuid(t, v) implies has_uuid(s, v) by {
        let i = choose|i: int| 0 <= i < t.len() && t[i].uuid == v;
        let oi: int = if i < k {
            i
        } else {
            i + 1
        };
        assert(t[i] == s[oi]);
    }
}

/// The directory of logged-in sessions, keyed by identifier: never two
/// entries under the same one. A second insert under an existing key
/// replaces the entry, last write wins.
pub struct PlayerRegistry {
    players: Vec<ConnectedPlayer>,
}

impl View for PlayerRegistry {
    type V = Seq<ConnectedPlayer>;

    closed spec fn view(&self) -> Seq<ConnectedPlayer> {
        self.players@
    }
}

impl PlayerRegistry {
    /// No identifier appears twice.
    pub open spec fn wf(&self) -> bool {
        unique_uuids(self@)
    }

    /// An empty directory.
    pub fn new() -> (r: PlayerRegistry)
        ensures
            r.wf(),
            r@.len() == 0,
    {
        PlayerRegistry { players: Vec::new() }
    }

    /// The index of the entry under this identifier, if present.
    fn find_index(&self, uuid: &Uuid) -> (r: Option<usize>)
        requires
            self.wf(),
        ensures
            r is Some <==> has_uuid(self@, *uuid),
            (r matches Some(i) ==> i == find_idx(self@, *uuid) && i < self@.len()),
    {
        let n = self.players.len();
        let mut i: usize = 0;
        while i < n
            invariant
                n == self@.len(),
                0 <= i <= n,
                self.wf(),
                forall|j: int| 0 <= j < i ==> self@[j].uuid != *uuid,
            decreases n - i,
        {
            if vec_index(&self.players, i).uuid == *uuid {
                proof {
                    lemma_find_first(self@, *uuid, i as int);
                }
                return Some(i);
            }
            i = i + 1;
        }
        proof {
            lemma_find_valid(self@, *uuid);
        }
        None
    }

    /// Registers a session. A new identifier is appended; an existing one
    /// has its entry replaced (last write wins).
    pub fn add(&mut self, player: ConnectedPlayer)
        requires
            old(self).wf(),
        ensures
            final(self).wf(),
            (!has_uuid(old(self)@, player.uuid) ==> final(self)@ == old(self)@.push(player)),
            (has_uuid(old(self)@, player.uuid) ==> final(self)@ == old(self)@.remove(
                find_idx(old(self)@, player.uuid),
            ).push(player)),
            final(self)@.len() == (if has_uuid(old(self)@, player.uuid) {
                old(self)@.len()
            } else {
                old(self)@.len() + 1
            }),
            has_uuid(final(self)@, player.uuid),
    {
        let ghost s0 = self@;
        match self.find_index(&player.uuid) {
            Some(i) => {
                self.players.remove(i);
                proof {
                    lemma_remove_semantics(s0, player.uuid);
                }
            },
            None => {
            },
        }
        let ghost s1 = self@;
        self.players.push(player);
        proof {
            assert forall|i: int, j: int|
                0 <= i < j < self@.len() implies self@[i].uuid != self@[j].uuid by {
                if j < self@.len() - 1 {
                    assert(self@[i] == s1[i] && self@[j] == s1[j]);
                } else {
                    assert(self@[i] == s1[i]);
                    assert(!has_uuid(s1, player.uuid));
                }
            }
            assert(self@[self@.len() - 1].uuid == player.uuid);
        }
    }

    /// Deregisters the session under this identifier, returning it, or
    /// reports it absent.
    pub fn remove(&mut self, uuid: &Uuid) -> (r: Option<ConnectedPlayer>)
        requires
            old(self).wf(),
        ensures
            final(self).wf(),
            r is Some <==> has_uuid(old(self)@, *uuid),
            (r matches Some(p) ==> p == old(self)@[find_idx(old(self)@, *uuid)] && final(self)@
                == old(self)@.remove(find_idx(old(self)@, *uuid)) && !has_uuid(
                final(self)@,
                *uuid,
            )),
            (r is None ==> final(self)@ == old(self)@),
    {
        let ghost s0 = self@;
        match self.find_index(uuid) {
            Some(i) => {
                let p = self.players.remove(i);
                proof {
                    lemma_remove_semantics(s0, *uuid);
                    lemma_find_valid(s0, *uuid);
                }
                Some(p)
            },
            None => None,
        }
    }

    /// The session under this identifier, if present.
    pub fn get(&self, uuid: &Uuid) -> (r: Option<&ConnectedPlayer>)
        requires
            self.wf(),
        ensures
            r is Some <==> has_uuid(self@, *uuid),
            (r matches Some(p) ==> *p == self@[find_idx(self@, *uuid)] && p.uuid == *uuid),
    {
        proof {
            lemma_find_valid(self@, *uuid);
        }
        match self.find_index(uuid) {
            Some(i) => Some(vec_index(&self.players, i)),
            None => None,
        }
    }

    /// How many sessions are registered.
    pub fn count(&self) -> (r: usize)
        ensures
            r == self@.len(),
    {
        self.players.len()
    }

    /// The entry at an index, for walking a snapshot of the directory.
    pub fn get_at(&self, i: usize) -> (r: &ConnectedPlayer)
        requires
            i < self@.len(),
        ensures
            *r == self@[i as int],
    {
        vec_index(&self.players, i)
    }

    /// A snapshot of all registered sessions, in registration order.
    pub fn list(&self) -> (r: Vec<&ConnectedPlayer>)
        ensures
            r@.len() == self@.len(),
            forall|i: int| 0 <= i < r@.len() ==> *r@[i] == self@[i],
    {
        let n = self.players.len();
        let mut r: Vec<&ConnectedPlayer> = Vec::new();
        let mut i: usize = 0;
        while i < n
            invariant
                n == self@.len(),
                0 <= i <= n,
                r@.len() == i,
                forall|j: int| 0 <= j < i ==> *r@[j] == self@[j],
            decreases n - i,
        {
            r.push(vec_index(&self.players, i));
            i = i + 1;
        }
        r
    }
}

} // verus!
