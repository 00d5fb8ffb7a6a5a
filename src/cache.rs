use vstd::prelude::*;

use crate::error::AuthError;
use crate::store::{answer_view, select_user, selected};
use crate::user::User;

verus! {

/// The cached user for `name`, if there is one.
pub open spec fn lookup(m: Map<Seq<char>, User>, name: Seq<char>) -> Option<User> {
    if m.contains_key(name) {
        Some(m[name])
    } else {
        None
    }
}

/// The cache after an authentication step that produced `fetched`: a user is
/// stored under its username (replacing any earlier entry), a failure changes
/// nothing.
pub open spec fn recorded(m: Map<Seq<char>, User>, fetched: Result<User, AuthError>) -> Map<Seq<char>, User> {
    match fetched {
        Ok(u) => m.insert(u.username@, u),
        Err(_) => m,
    }
}

/// The cache without the sessions of the user with id `id`.
pub open spec fn without_user_id(m: Map<Seq<char>, User>, id: u64) -> Map<Seq<char>, User> {
    Map::new(|k: Seq<char>| m.contains_key(k) && m[k].id != id, |k: Seq<char>| m[k])
}

/// `users` holds exactly the entries of `m`, one per username.
spec fn consistent(users: Seq<User>, m: Map<Seq<char>, User>) -> bool {
    &&& m.dom().finite()
    &&& m.dom().len() == users.len()
    &&& forall|i: int, j: int|
        0 <= i < j < users.len() ==> (#[trigger] users[i]).username@ != (#[trigger] users[j]).username@
    &&& forall|i: int|
        0 <= i < users.len() ==> m.contains_key(#[trigger] users[i].username@) && m[users[i].username@]
            == users[i]
    &&& forall|k: Seq<char>|
        #[trigger] m.contains_key(k) ==> exists|i: int| 0 <= i < users.len() && users[i].username@ == k
}

/// The session cache: the last authenticated user for each username.
pub struct SessionCache {
    users: Vec<User>,
    entries: Ghost<Map<Seq<char>, User>>,
}

impl View for SessionCache {
    type V = Map<Seq<char>, User>;

    closed spec fn view(&self) -> Map<Seq<char>, User> {
        self.entries@
    }
}

impl SessionCache {
    /// The vector and the map describe the same entries.
    pub closed spec fn wf(&self) -> bool {
        consistent(self.users@, self.entries@)
    }

    /// An empty cache.
    pub fn new() -> (r: Self)
        ensures
            r@ == Map::<Seq<char>, User>::empty(),
            r.wf(),
    {
        SessionCache { users: Vec::new(), entries: Ghost(Map::empty()) }
    }

    /// The number of cached usernames.
    pub fn len(&self) -> (r: usize)
        requires
            self.wf(),
        ensures
            r == self@.len(),
    {
        self.users.len()
    }

    /// The position of `name` in the cache, if it is cached.
    fn position(&self, name: &String) -> (r: Option<usize>)
        requires
            self.wf(),
        ensures
            r matches Some(i) ==> i < self.users@.len() && self.users@[i as int].username@ == name@,
            r is None ==> !self@.contains_key(name@),
    {
        let mut i: usize = 0;
        while i < self.users.len()
            invariant
                i <= self.users@.len(),
                forall|j: int| 0 <= j < i ==> (#[trigger] self.users@[j]).username@ != name@,
            decreases self.users@.len() - i,
        {
            if self.users[i].username == *name {
                return Some(i);
            }
            i = i + 1;
        }
        None
    }

    /// A copy of the user cached for `username`.
    pub fn get(&self, username: &str) -> (r: Option<User>)
        requires
            self.wf(),
        ensures
            r == lookup(self@, username@),
            r matches Some(u) ==> u.username@ == username@,
    {
        let name: String = username.to_owned();
        match self.position(&name) {
            Some(i) => Some(self.users[i].clone()),
            None => None,
        }
    }

    /// Stores `user` under its username, replacing any earlier entry.
    pub fn put(&mut self, user: User)
        requires
            old(self).wf(),
        ensures
            final(self).wf(),
            final(self)@ == old(self)@.insert(user.username@, user),
    {
        let ghost key = user.username@;
        let ghost old_users = self.users@;
        match self.position(&user.username) {
            Some(i) => {
                self.users.set(i, user);
                proof {
                    assert(self.entries@.contains_key(key));
                    self.entries@ = self.entries@.insert(key, user);
                    assert(self.entries@.dom() =~= old(self).entries@.dom());
                    assert forall|k: Seq<char>| #[trigger] self.entries@.contains_key(k) implies exists|j: int|
                        0 <= j < self.users@.len() && self.users@[j].username@ == k by {
                        let j = choose|j: int| 0 <= j < old_users.len() && old_users[j].username@ == k;
                        assert(self.users@[j].username@ == k);
                    }
                }
            },
            None => {
                self.users.push(user);
                proof {
                    self.entries@ = self.entries@.insert(key, user);
                    let n = old_users.len() as int;
                    assert(self.users@[n] == user);
                    assert forall|k: Seq<char>| #[trigger] self.entries@.contains_key(k) implies exists|j: int|
                        0 <= j < self.users@.len() && self.users@[j].username@ == k by {
                        if k != key {
                            let j = choose|j: int| 0 <= j < old_users.len() && old_users[j].username@ == k;
                            assert(self.users@[j].username@ == k);
                        }
                    }
                }
            },
        }
    }

    /// Stores the user of a successful authentication step; a failed step
    /// leaves the cache as it was.
    pub fn record(&mut self, fetched: &Result<User, AuthError>)
        requires
            old(self).wf(),
        ensures
            final(self).wf(),
            final(self)@ == recorded(old(self)@, *fetched),
    {
        if let Ok(user) = fetched {
            self.put(user.clone());
        }
    }

    /// Finishes an authentication that missed the cache: turns the store's
    /// answer for `username` into the user, caches it on success, and
    /// returns it.
    pub fn finish(&mut self, username: &str, answer: Result<Vec<User>, AuthError>) -> (r: Result<User, AuthError>)
        requires
            old(self).wf(),
        ensures
            final(self).wf(),
            r == selected(username@, answer_view(answer)),
            final(self)@ == recorded(old(self)@, r),
            r matches Ok(u) ==> u.username@ == username@,
    {
        let fetched = select_user(username, answer);
        self.record(&fetched);
        fetched
    }

    /// Drops every entry that belongs to the user with id `id`.
    pub fn evict_user_id(&mut self, id: u64)
        requires
            old(self).wf(),
        ensures
            final(self).wf(),
            final(self)@ == without_user_id(old(self)@, id),
    {
        let ghost users = self.users@;
        let ghost m = self.entries@;
        let mut kept: Vec<User> = Vec::new();
        let ghost mut kept_map: Map<Seq<char>, User> = Map::empty();
        let mut i: usize = 0;
        while i < self.users.len()
            invariant
                self.users@ == users,
                self.entries@ == m,
                consistent(users, m),
                i <= users.len(),
                consistent(kept@, kept_map),
                forall|k: Seq<char>|
                    #[trigger] kept_map.contains_key(k) <==> exists|j: int|
                        0 <= j < i && users[j].username@ == k && users[j].id != id,
                forall|k: Seq<char>| #[trigger] kept_map.contains_key(k) ==> kept_map[k] == m[k],
            decreases users.len() - i,
        {
            let user = &self.users[i];
            if user.id != id {
                let ghost key = user.username@;
                let ghost before = kept@;
                proof {
                    assert(m.contains_key(key));
                    if kept_map.contains_key(key) {
                        let j = choose|j: int| 0 <= j < i && users[j].username@ == key && users[j].id != id;
                        assert(users[j].username@ != users[i as int].username@);
                    }
                }
                kept.push(user.clone());
                proof {
                    kept_map = kept_map.insert(key, users[i as int]);
                    assert(kept@[before.len() as int] == users[i as int]);
                    assert forall|k: Seq<char>| #[trigger] kept_map.contains_key(k) implies exists|t: int|
                        0 <= t < kept@.len() && kept@[t].username@ == k by {
                        if k != key {
                            let t = choose|t: int| 0 <= t < before.len() && before[t].username@ == k;
                            assert(kept@[t].username@ == k);
                        }
                    }
                    assert forall|k: Seq<char>| #[trigger] kept_map.contains_key(k) <==> exists|j: int|
                        0 <= j < i + 1 && users[j].username@ == k && users[j].id != id by {
                        if k == key {
                            assert(users[i as int].username@ == k);
                        }
                        if exists|j: int| 0 <= j < i + 1 && users[j].username@ == k && users[j].id != id {
                            let j = choose|j: int| 0 <= j < i + 1 && users[j].username@ == k && users[j].id != id;
                            if j < i {
                                assert(kept_map.contains_key(k));
                            }
                        }
                    }
                }
            } else {
                proof {
                    assert forall|k: Seq<char>| #[trigger] kept_map.contains_key(k) <==> exists|j: int|
                        0 <= j < i + 1 && users[j].username@ == k && users[j].id != id by {
                        if exists|j: int| 0 <= j < i + 1 && users[j].username@ == k && users[j].id != id {
                            let j = choose|j: int| 0 <= j < i + 1 && users[j].username@ == k && users[j].id != id;
                            assert(j < i);
                        }
                    }
                }
            }
            i = i + 1;
        }
        proof {
            assert forall|k: Seq<char>| #[trigger] kept_map.contains_key(k) <==> without_user_id(m, id).contains_key(k) by {
                if m.contains_key(k) && m[k].id != id {
                    let j = choose|j: int| 0 <= j < users.len() && users[j].username@ == k;
                    assert(users[j].id != id);
                }
            }
            assert(kept_map =~= without_user_id(m, id));
        }
        self.users = kept;
        self.entries = Ghost(kept_map);
    }
}

} // verus!
