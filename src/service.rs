use std::sync::Arc;

use vstd::prelude::*;

use crate::cache::{lookup, recorded, without_user_id, SessionCache};
use crate::error::AuthError;
use crate::password::{argon2id_hash, argon2id_phc, argon2id_tag};
use crate::store::{answer_view, select_user, selected, Database};
use crate::user::User;

verus! {

/// The shortest salt Argon2 accepts, in bytes.
pub const MIN_SALT_LEN: usize = 8;

/// The longest salt that fits a PHC string, in bytes.
pub const MAX_SALT_LEN: usize = 48;

/// The longest password Argon2 accepts, in bytes.
pub const MAX_PASSWORD_BYTES: usize = 0xFFFF_FFFF;

/// The authentication capability: check credentials, end sessions.
pub trait Authenticate {
    /// The state the operations need and keep.
    spec fn wf(&self) -> bool;

    /// The user with these credentials; a user handed out always carries the
    /// username that was asked for.
    fn authenticate(&mut self, username: &str, password: &str) -> (r: Result<User, AuthError>)
        requires
            old(self).wf(),
        ensures
            final(self).wf(),
            r matches Ok(u) ==> u.username@ == username@,
    ;

    /// Ends every session of the user with id `user_id`; there need be none.
    fn logout(&mut self, user_id: u64) -> (r: Result<(), AuthError>)
        requires
            old(self).wf(),
        ensures
            final(self).wf(),
            r is Ok,
    ;
}

/// The cache after an authentication of `name` against cache `m` that
/// returned `r`. A cached user is returned as it is and the cache stays as it
/// was: a cache hit does not check the password again, so an entry acts as a
/// trusted session for its username. On a miss, `r` is what the credential
/// store's answer yielded, and it is recorded.
pub open spec fn after_authenticate(m: Map<Seq<char>, User>, name: Seq<char>, r: Result<User, AuthError>) -> Map<
    Seq<char>,
    User,
> {
    if m.contains_key(name) {
        m
    } else {
        recorded(m, r)
    }
}

/// A password behind a fixed prefix: the kind of stand-in digest that a
/// password hash must never be.
pub open spec fn naive_form(password: Seq<char>) -> Seq<char> {
    seq!['h', 'a', 's', 'h', 'e', 'd', '_'] + password
}

/// The cache after the results of several authentications for the same
/// username are written, in the order they finish.
pub open spec fn recorded_all(m: Map<Seq<char>, User>, results: Seq<Result<User, AuthError>>) -> Map<Seq<char>, User>
    decreases results.len(),
{
    if results.len() == 0 {
        m
    } else {
        recorded(recorded_all(m, results.drop_last()), results.last())
    }
}

/// Once an authentication of `name` has returned a user, the cache holds that
/// user under `name`, so the next authentication of `name` is a hit that
/// returns the same user, whatever password it is given.
pub proof fn lemma_cache_hit(m: Map<Seq<char>, User>, name: Seq<char>, r: Result<User, AuthError>)
    requires
        r is Ok,
        r matches Ok(u) ==> u.username@ == name,
        m.contains_key(name) ==> r == Ok::<User, AuthError>(m[name]),
    ensures
        after_authenticate(m, name, r).contains_key(name),
        Ok::<User, AuthError>(after_authenticate(m, name, r)[name]) == r,
        after_authenticate(after_authenticate(m, name, r), name, r) == after_authenticate(m, name, r),
{
}

/// On a cache miss, a user found by the store is cached under the username.
pub proof fn lemma_miss_populates(m: Map<Seq<char>, User>, name: Seq<char>, u: User)
    requires
        !m.contains_key(name),
        u.username@ == name,
    ensures
        after_authenticate(m, name, Ok(u)) == m.insert(name, u),
        lookup(after_authenticate(m, name, Ok(u)), name) == Some(u),
{
}

/// On a cache miss, a failure of the store is returned as it is and the
/// cache is left unchanged.
pub proof fn lemma_store_error_propagates(m: Map<Seq<char>, User>, name: Seq<char>, e: AuthError)
    requires
        !m.contains_key(name),
    ensures
        selected(name, Err(e)) == Err::<User, AuthError>(e),
        after_authenticate(m, name, selected(name, Err(e))) == m,
{
}

/// Racing authentications of one username that all miss the cache and all
/// succeed leave exactly one entry for it, holding the user written last.
pub proof fn lemma_racing_misses(m: Map<Seq<char>, User>, name: Seq<char>, results: Seq<Result<User, AuthError>>)
    requires
        m.dom().finite(),
        results.len() > 0,
        forall|i: int| 0 <= i < results.len() ==> (#[trigger] results[i] matches Ok(u) && u.username@ == name),
    ensures
        recorded_all(m, results) == m.insert(name, results.last()->Ok_0),
        recorded_all(m, results).dom().len() == m.dom().len() + if m.contains_key(name) { 0int } else { 1int },
    decreases results.len(),
{
    let last = results.last();
    assert(results[results.len() - 1] == last);
    let u = last->Ok_0;
    assert(u.username@ == name);
    let rest = results.drop_last();
    if results.len() > 1 {
        assert forall|i: int| 0 <= i < rest.len() implies (#[trigger] rest[i] matches Ok(v) && v.username@ == name) by {
            assert(rest[i] == results[i]);
        }
        lemma_racing_misses(m, name, rest);
        assert(recorded_all(m, results) == recorded_all(m, rest).insert(name, u));
        assert(recorded_all(m, results) =~= m.insert(name, u));
    } else {
        assert(rest =~= Seq::<Result<User, AuthError>>::empty());
        assert(recorded_all(m, rest) == m);
        assert(recorded_all(m, results) == m.insert(name, u));
    }
    if m.contains_key(name) {
        assert(m.insert(name, last->Ok_0).dom() =~= m.dom());
    }
}

/// Lets a request through only when it is authenticated.
pub fn gate_request(authenticated: bool) -> (r: Result<(), AuthError>)
    ensures
        authenticated ==> r is Ok,
        !authenticated ==> r == Err::<(), AuthError>(AuthError::InvalidCredentials),
{
    if authenticated {
        Ok(())
    } else {
        Err(AuthError::InvalidCredentials)
    }
}

/// The authentication service: a session cache in front of a credential store.
pub struct AuthService<D: Database + ?Sized> {
    db: Arc<D>,
    cache: SessionCache,
}

impl<D: Database + ?Sized> View for AuthService<D> {
    type V = Map<Seq<char>, User>;

    closed spec fn view(&self) -> Map<Seq<char>, User> {
        self.cache@
    }
}

impl<D: Database + ?Sized> AuthService<D> {
    /// A service over `db` with an empty cache.
    pub fn new(db: Arc<D>) -> (r: Self)
        ensures
            r.wf(),
            r@ == Map::<Seq<char>, User>::empty(),
    {
        AuthService { cache: SessionCache::new(), db }
    }

    /// The session cache.
    pub fn cache(&self) -> (r: &SessionCache)
        requires
            self.wf(),
        ensures
            r.wf(),
            r@ == self@,
    {
        &self.cache
    }

    /// Asks the credential store about these credentials (username and
    /// password reach it unchanged) and turns its answer into the user:
    /// whatever the store answers, the result is what `select_user` makes of
    /// that answer.
    fn fetch_user(&self, username: &str, password: &str) -> (r: Result<User, AuthError>)
        ensures
            exists|answer: Result<Seq<User>, AuthError>| r == selected(username@, answer),
            r matches Ok(u) ==> u.username@ == username@,
    {
        let answer = self.db.query(username, password);
        let r = select_user(username, answer);
        assert(r == selected(username@, answer_view(answer)));
        r
    }
}

impl AuthService<dyn Database> {
    /// Hashes a password with Argon2id and the given salt, as a PHC string
    /// (`$argon2id$v=19$m=...,t=...,p=...$<salt>$<hash>`). A salt outside
    /// 8 to 48 bytes, or a password longer than `u32::MAX` bytes, gives
    /// `None`. Callers draw a fresh random salt for each password they store.
    pub fn hash_password(password: &str, salt: &[u8]) -> (r: Option<String>)
        ensures
            r is Some <==> MIN_SALT_LEN <= salt@.len() <= MAX_SALT_LEN && password.len()
                <= MAX_PASSWORD_BYTES,
            r matches Some(h) ==> h@ == argon2id_phc(password@, salt@),
            r matches Some(h) ==> h@ != naive_form(password@),
    {
        if salt.len() < MIN_SALT_LEN || salt.len() > MAX_SALT_LEN || password.len() > MAX_PASSWORD_BYTES {
            return None;
        }
        let r = argon2id_hash(password, salt);
        proof {
            if r is Some {
                let h = r->Some_0;
                assert(h@[0] == h@.subrange(0, 10)[0]);
                assert(naive_form(password@)[0] == 'h');
            }
        }
        r
    }
}

impl<D: Database + ?Sized> Authenticate for AuthService<D> {
    closed spec fn wf(&self) -> bool {
        self.cache.wf()
    }

    fn authenticate(&mut self, username: &str, password: &str) -> (r: Result<User, AuthError>)
        ensures
            old(self)@.contains_key(username@) ==> r == Ok::<User, AuthError>(old(self)@[username@]),
            final(self)@ == after_authenticate(old(self)@, username@, r),
    {
        if let Some(user) = self.cache.get(username) {
            return Ok(user);
        }
        let fetched = self.fetch_user(username, password);
        self.cache.record(&fetched);
        fetched
    }

    fn logout(&mut self, user_id: u64) -> (r: Result<(), AuthError>)
        ensures
            final(self)@ == without_user_id(old(self)@, user_id),
    {
        self.cache.evict_user_id(user_id);
        Ok(())
    }
}

} // verus!
