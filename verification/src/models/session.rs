//! Session model, repository trait, and in-memory implementation.

use vstd::hash_map::StringHashMap;
use vstd::prelude::*;

verus! {

broadcast use {vstd::seq_lib::group_seq_properties, vstd::seq_lib::group_filter_ensures};

/// A server-side session.
///
/// `id` is a 256-bit random token (hex-encoded). The token itself is not
/// signed here; the HMAC is applied at the cookie layer. Times are
/// milliseconds since the epoch.
#[derive(Debug)]
pub struct Session {
    pub id: String,
    pub user_id: u128,
    pub expires_at: i64,
    pub created_at: i64,
}

impl Clone for Session {
    fn clone(&self) -> (r: Self)
        ensures
            r == *self,
    {
        Session {
            id: self.id.clone(),
            user_id: self.user_id,
            expires_at: self.expires_at,
            created_at: self.created_at,
        }
    }
}

impl Session {
    /// Returns `true` if the session has expired relative to `now`.
    pub fn is_expired(&self, now: i64) -> (r: bool)
        ensures
            r == (self.expires_at <= now),
    {
        self.expires_at <= now
    }
}

/// Sessions keyed by their ID.
pub type SessionTable = Map<Seq<char>, Session>;

/// What a lookup of `id` at `now` returns, and the table afterwards: an
/// expired session counts as absent and is removed.
pub open spec fn find_step(t: SessionTable, id: Seq<char>, now: int) -> (Option<Session>, SessionTable) {
    if t.contains_key(id) {
        if t[id].expires_at <= now {
            (None, t.remove(id))
        } else {
            (Some(t[id]), t)
        }
    } else {
        (None, t)
    }
}

/// A lookup finds only live sessions: what it returns is the stored session
/// with that ID, expiring after `now`; a session whose expiry is at or before
/// `now` is not returned and is removed, while every other session stays.
pub proof fn law_lookup_live_only(t: SessionTable, id: Seq<char>, now: int)
    ensures
        find_step(t, id, now).0 matches Some(s) ==> t.contains_key(id) && t[id] == s && now < s.expires_at,
        t.contains_key(id) && now < t[id].expires_at ==> find_step(t, id, now).0 == Some(t[id]),
        t.contains_key(id) && t[id].expires_at <= now ==> find_step(t, id, now).0 is None
            && !find_step(t, id, now).1.contains_key(id),
        forall|k: Seq<char>| k != id ==> (#[trigger] find_step(t, id, now).1.contains_key(k) == t.contains_key(k)),
        forall|k: Seq<char>| k != id && t.contains_key(k) ==> #[trigger] find_step(t, id, now).1[k] == t[k],
{
}

/// Whether the session stored under a key belongs to `user_id`.
pub open spec fn owned_by(t: SessionTable, user_id: u128) -> spec_fn(Seq<char>) -> bool {
    |k: Seq<char>| t[k].user_id == user_id
}

/// Whether the session stored under a key belongs to someone else.
pub open spec fn not_owned_by(t: SessionTable, user_id: u128) -> spec_fn(Seq<char>) -> bool {
    |k: Seq<char>| t[k].user_id != user_id
}

/// The sessions that do not belong to `user_id`.
pub open spec fn without_user(t: SessionTable, user_id: u128) -> SessionTable {
    t.restrict(t.dom().filter(not_owned_by(t, user_id)))
}

/// How many sessions belong to `user_id`.
pub open spec fn user_session_count(t: SessionTable, user_id: u128) -> nat {
    t.dom().filter(owned_by(t, user_id)).len()
}

/// Persistence abstraction for sessions, over a table keyed by session ID.
pub trait SessionRepository: Sized {
    /// The stored sessions.
    spec fn sessions(&self) -> SessionTable;

    /// The store's internal consistency.
    spec fn wf(&self) -> bool;

    /// Insert a session, replacing one with the same ID.
    fn insert(&mut self, session: Session) -> (r: Session)
        requires
            old(self).wf(),
        ensures
            final(self).wf(),
            r == session,
            final(self).sessions() == old(self).sessions().insert(session.id@, session),
    ;

    /// Look up a session by its ID. An expired session (one with
    /// `expires_at <= now`) counts as absent and is deleted.
    fn find_by_id(&mut self, id: &str, now: i64) -> (r: Option<Session>)
        requires
            old(self).wf(),
        ensures
            final(self).wf(),
            (r, final(self).sessions()) == find_step(old(self).sessions(), id@, now as int),
    ;

    /// Delete a session by ID. Returns `true` if a session was removed.
    fn delete(&mut self, id: &str) -> (r: bool)
        requires
            old(self).wf(),
        ensures
            final(self).wf(),
            r == old(self).sessions().contains_key(id@),
            final(self).sessions() == old(self).sessions().remove(id@),
    ;

    /// Delete all sessions of a user (logout on all devices). Returns the
    /// number removed, as a `u32` (wrapping beyond `u32::MAX`).
    fn delete_by_user(&mut self, user_id: u128) -> (r: u32)
        requires
            old(self).wf(),
        ensures
            final(self).wf(),
            final(self).sessions() == without_user(old(self).sessions(), user_id),
            r == user_session_count(old(self).sessions(), user_id) as u32,
    ;
}

/// The IDs of a list of strings, as character sequences.
pub open spec fn views(ids: Seq<String>) -> Seq<Seq<char>> {
    ids.map_values(|s: String| s@)
}

/// In-memory session store: a map from ID to session, and the list of IDs
/// (each once) for the scans that visit every session.
pub struct InMemorySessionRepository {
    sessions: StringHashMap<Session>,
    ids: Vec<String>,
}

impl InMemorySessionRepository {
    pub fn new() -> (r: Self)
        ensures
            r.wf(),
            r.sessions() == Map::<Seq<char>, Session>::empty(),
    {
        let r = InMemorySessionRepository { sessions: StringHashMap::new(), ids: Vec::new() };
        assert(views(r.ids@).to_set() =~= r.sessions@.dom());
        r
    }

    /// Position of `id` in the ID list, if listed.
    fn position(&self, id: &String) -> (r: Option<usize>)
        requires
            self.wf(),
        ensures
            match r {
                Some(i) => i < self.ids.len() && self.ids@[i as int]@ == id@,
                None => !self.sessions@.contains_key(id@),
            },
    {
        let mut i: usize = 0;
        while i < self.ids.len()
            invariant
                self.wf(),
                i <= self.ids.len(),
                forall|j: int| 0 <= j < i ==> self.ids@[j]@ != id@,
            decreases self.ids.len() - i,
        {
            if self.ids[i] == *id {
                return Some(i);
            }
            i += 1;
        }
        proof {
            if self.sessions@.contains_key(id@) {
                assert(views(self.ids@).to_set().contains(id@));
                let j = choose|j: int| 0 <= j < views(self.ids@).len() && views(self.ids@)[j] == id@;
                assert(self.ids@[j]@ == id@);
            }
        }
        None
    }

    /// Remove `id` from the store when present.
    fn remove_id(&mut self, id: &str) -> (r: bool)
        requires
            old(self).wf(),
        ensures
            final(self).wf(),
            r == old(self).sessions@.contains_key(id@),
            final(self).sessions@ == old(self).sessions@.remove(id@),
    {
        let key = String::from_str(id);
        match self.position(&key) {
            Some(i) => {
                let ghost before = views(self.ids@);
                self.ids.swap_remove(i);
                self.sessions.remove(id);
                proof {
                    lemma_swap_remove_views(before, i as int);
                    assert(views(self.ids@) =~= before.update(i as int, before.last()).drop_last());
                    assert(views(self.ids@).to_set() =~= self.sessions@.dom());
                }
                true
            },
            None => {
                self.sessions.remove(id);
                assert(self.sessions@ =~= old(self).sessions@);
                false
            },
        }
    }
}

/// Removing one element of a list without duplicates, by moving the last
/// one into its place, removes exactly that element from its set.
proof fn lemma_swap_remove_views(s: Seq<Seq<char>>, i: int)
    requires
        s.no_duplicates(),
        0 <= i < s.len(),
    ensures
        s.update(i, s.last()).drop_last().no_duplicates(),
        s.update(i, s.last()).drop_last().to_set() =~= s.to_set().remove(s[i]),
{
    let t = s.update(i, s.last()).drop_last();
    let n = s.len() - 1;
    assert forall|a: int, b: int| 0 <= a < t.len() && 0 <= b < t.len() && a != b implies t[a] != t[b] by {
        let sa = if a == i { n } else { a };
        let sb = if b == i { n } else { b };
        assert(t[a] == s[sa]);
        assert(t[b] == s[sb]);
    }
    assert forall|x: Seq<char>| t.to_set().contains(x) <==> s.to_set().remove(s[i]).contains(x) by {
        if t.to_set().contains(x) {
            let a = choose|a: int| 0 <= a < t.len() && t[a] == x;
            let sa = if a == i { n } else { a };
            assert(s[sa] == x);
            assert(sa != i);
        }
        if s.to_set().remove(s[i]).contains(x) {
            let a = choose|a: int| 0 <= a < s.len() && s[a] == x;
            assert(a != i);
            if a == n {
                assert(t[i] == x);
            } else {
                assert(t[a] == x);
            }
        }
    }
}

/// Filtering keeps a list free of duplicates.
proof fn lemma_filter_no_duplicates(s: Seq<Seq<char>>, p: spec_fn(Seq<char>) -> bool)
    requires
        s.no_duplicates(),
    ensures
        s.filter(p).no_duplicates(),
    decreases s.len(),
{
    if s.len() > 0 {
        let r = s.drop_last();
        let x = s.last();
        assert(r.no_duplicates());
        lemma_filter_no_duplicates(r, p);
        assert(s =~= r.push(x));
        r.lemma_filter_push(x, p);
        if p(x) {
            assert(!r.contains(x));
            if r.filter(p).contains(x) {
                r.lemma_filter_contains_rev(p, x);
            }
            let f = r.filter(p);
            assert forall|a: int, b: int| 0 <= a < f.push(x).len() && 0 <= b < f.push(x).len() && a != b
                implies f.push(x)[a] != f.push(x)[b] by {
                if a == f.len() {
                    assert(f.contains(f[b]));
                } else if b == f.len() {
                    assert(f.contains(f[a]));
                }
            }
        }
    }
}

impl SessionRepository for InMemorySessionRepository {
    closed spec fn sessions(&self) -> SessionTable {
        self.sessions@
    }

    closed spec fn wf(&self) -> bool {
        &&& views(self.ids@).no_duplicates()
        &&& views(self.ids@).to_set() == self.sessions@.dom()
    }

    fn insert(&mut self, session: Session) -> (r: Session) {
        let key = session.id.clone();
        match self.position(&key) {
            Some(i) => {
                assert(views(self.ids@)[i as int] == session.id@);
                assert(views(self.ids@).to_set().contains(session.id@));
            },
            None => {
                let ghost before = views(self.ids@);
                self.ids.push(key);
                proof {
                    assert(views(self.ids@) =~= before.push(session.id@));
                    assert(!before.contains(session.id@)) by {
                        if before.contains(session.id@) {
                            assert(before.to_set().contains(session.id@));
                        }
                    }
                    assert forall|a: int, b: int| 0 <= a < views(self.ids@).len() && 0 <= b < views(self.ids@).len() && a != b
                        implies views(self.ids@)[a] != views(self.ids@)[b] by {
                        if a == before.len() {
                            assert(before.contains(before[b]));
                        } else if b == before.len() {
                            assert(before.contains(before[a]));
                        }
                    }
                    assert(views(self.ids@).to_set() =~= before.to_set().insert(session.id@));
                }
            },
        }
        let stored = session.clone();
        self.sessions.insert(stored.id.clone(), stored);
        proof {
            assert(views(self.ids@).to_set() =~= self.sessions@.dom());
        }
        session
    }

    fn find_by_id(&mut self, id: &str, now: i64) -> (r: Option<Session>) {
        let found = match self.sessions.get(id) {
            Some(s) => Some(s.clone()),
            None => None,
        };
        match found {
            Some(session) => {
                if session.is_expired(now) {
                    self.remove_id(id);
                    None
                } else {
                    Some(session)
                }
            },
            None => None,
        }
    }

    fn delete(&mut self, id: &str) -> (r: bool) {
        self.remove_id(id)
    }

    fn delete_by_user(&mut self, user_id: u128) -> (r: u32) {
        let ghost old_map = self.sessions@;
        let ghost ids_v = views(self.ids@);
        let ghost keep = not_owned_by(old_map, user_id);
        let ghost drop = owned_by(old_map, user_id);
        let mut kept: StringHashMap<Session> = StringHashMap::new();
        let mut kept_ids: Vec<String> = Vec::new();
        let mut removed: usize = 0;
        let mut i: usize = 0;
        while i < self.ids.len()
            invariant
                keep == not_owned_by(old_map, user_id),
                drop == owned_by(old_map, user_id),
                self.sessions@ == old_map,
                views(self.ids@) == ids_v,
                ids_v.no_duplicates(),
                ids_v.to_set() == old_map.dom(),
                i <= self.ids.len(),
                views(kept_ids@) == ids_v.take(i as int).filter(keep),
                kept@.dom() == ids_v.take(i as int).filter(keep).to_set(),
                forall|k: Seq<char>| #[trigger] kept@.contains_key(k) ==> kept@[k] == old_map[k],
                removed == ids_v.take(i as int).filter(drop).len(),
            decreases self.ids.len() - i,
        {
            let id = &self.ids[i];
            let ghost x = ids_v[i as int];
            assert(id@ == x);
            assert(ids_v.take(i + 1) =~= ids_v.take(i as int).push(x));
            proof {
                ids_v.take(i as int).lemma_filter_push(x, keep);
                ids_v.take(i as int).lemma_filter_push(x, drop);
            }
            assert(old_map.contains_key(x)) by {
                assert(ids_v.to_set().contains(x));
            }
            let s = self.sessions.get(id.as_str()).unwrap();
            assert(*s == old_map[x]);
            if s.user_id == user_id {
                assert(drop(x) && !keep(x));
                removed = removed + 1;
            } else {
                assert(keep(x) && !drop(x));
                let ghost before = views(kept_ids@);
                let ghost before_map = kept@;
                let id_copy = id.clone();
                kept.insert(id.clone(), s.clone());
                kept_ids.push(id_copy);
                assert(views(kept_ids@) =~= before.push(x));
                assert(kept@ == before_map.insert(x, old_map[x]));
                assert(kept@.dom() =~= before.push(x).to_set());
            }
            i += 1;
        }
        proof {
            assert(ids_v.take(ids_v.len() as int) =~= ids_v);
            lemma_filter_no_duplicates(ids_v, keep);
            lemma_filter_no_duplicates(ids_v, drop);
            assert(kept@ =~= without_user(old_map, user_id)) by {
                assert forall|k: Seq<char>| kept@.contains_key(k) <==> without_user(old_map, user_id).contains_key(k) by {
                    if kept@.contains_key(k) {
                        assert(ids_v.filter(keep).contains(k));
                        let j = choose|j: int| 0 <= j < ids_v.filter(keep).len() && ids_v.filter(keep)[j] == k;
                        assert(keep(ids_v.filter(keep)[j]));
                        ids_v.lemma_filter_contains_rev(keep, k);
                        assert(ids_v.to_set().contains(k));
                    }
                    if without_user(old_map, user_id).contains_key(k) {
                        assert(ids_v.to_set().contains(k));
                        ids_v.lemma_filter_contains_rev(keep, k);
                    }
                }
            }
            assert(ids_v.filter(drop).to_set() =~= old_map.dom().filter(drop)) by {
                assert forall|k: Seq<char>| ids_v.filter(drop).to_set().contains(k) <==> old_map.dom().filter(drop).contains(k) by {
                    if ids_v.filter(drop).to_set().contains(k) {
                        assert(ids_v.filter(drop).contains(k));
                        let j = choose|j: int| 0 <= j < ids_v.filter(drop).len() && ids_v.filter(drop)[j] == k;
                        assert(drop(ids_v.filter(drop)[j]));
                        ids_v.lemma_filter_contains_rev(drop, k);
                        assert(ids_v.to_set().contains(k));
                    }
                    if old_map.dom().filter(drop).contains(k) {
                        assert(ids_v.to_set().contains(k));
                        ids_v.lemma_filter_contains_rev(drop, k);
                    }
                }
            }
            ids_v.filter(drop).unique_seq_to_set();
        }
        self.sessions = kept;
        self.ids = kept_ids;
        removed as u32
    }
}

} // verus!
