use vstd::prelude::*;

use crate::error::AuthError;
use crate::user::User;

verus! {

/// A credential store: given a username and a password, it answers with the
/// user records that match, or with a failure. Backends (a database, a remote
/// identity provider, an in-memory double) implement it.
pub trait Database {
    fn query(&self, username: &str, password: &str) -> Result<Vec<User>, AuthError>;
}

/// The first record of `rows` whose username is `name`.
pub open spec fn first_named(rows: Seq<User>, name: Seq<char>) -> Option<User>
    decreases rows.len(),
{
    if rows.len() == 0 {
        None
    } else if rows[0].username@ == name {
        Some(rows[0])
    } else {
        first_named(rows.drop_first(), name)
    }
}

/// The user that a store's answer yields for `name`: a store failure is passed
/// on, and an answer without a record for `name` rejects the credentials.
pub open spec fn selected(name: Seq<char>, answer: Result<Seq<User>, AuthError>) -> Result<User, AuthError> {
    match answer {
        Err(e) => Err(e),
        Ok(rows) => match first_named(rows, name) {
            Some(u) => Ok(u),
            None => Err(AuthError::InvalidCredentials),
        },
    }
}

/// The answer of a store with its records as a sequence.
pub open spec fn answer_view(answer: Result<Vec<User>, AuthError>) -> Result<Seq<User>, AuthError> {
    match answer {
        Ok(rows) => Ok(rows@),
        Err(e) => Err(e),
    }
}

proof fn lemma_first_named_names(rows: Seq<User>, name: Seq<char>)
    ensures
        first_named(rows, name) matches Some(u) ==> u.username@ == name && rows.contains(u),
    decreases rows.len(),
{
    if rows.len() > 0 && rows[0].username@ != name {
        lemma_first_named_names(rows.drop_first(), name);
        if first_named(rows, name) is Some {
            let u = first_named(rows, name)->Some_0;
            let k = choose|k: int| 0 <= k < rows.drop_first().len() && rows.drop_first()[k] == u;
            assert(rows[k + 1] == u);
        }
    } else if rows.len() > 0 {
        assert(rows[0] == rows[0]);
    }
}

/// Turns a store's answer for `username` into the authenticated user.
pub fn select_user(username: &str, answer: Result<Vec<User>, AuthError>) -> (r: Result<User, AuthError>)
    ensures
        r == selected(username@, answer_view(answer)),
        r matches Ok(u) ==> u.username@ == username@,
        r matches Ok(u) ==> answer matches Ok(rows) && rows@.contains(u),
{
    proof {
        if answer is Ok {
            lemma_first_named_names(answer->Ok_0@, username@);
        }
    }
    let rows = match answer {
        Err(e) => return Err(e),
        Ok(rows) => rows,
    };
    let name: String = username.to_owned();
    let ghost all = rows@;
    let mut i: usize = 0;
    assert(all.subrange(0, all.len() as int) =~= all);
    while i < rows.len()
        invariant
            i <= rows.len(),
            rows@ == all,
            answer_view(answer) == Ok::<Seq<User>, AuthError>(all),
            name@ == username@,
            first_named(all, username@) == first_named(all.subrange(i as int, all.len() as int), username@),
        decreases rows.len() - i,
    {
        let ghost rest = all.subrange(i as int, all.len() as int);
        assert(rest.drop_first() =~= all.subrange(i + 1, all.len() as int));
        assert(rest[0] == all[i as int]);
        if rows[i].username == name {
            return Ok(rows[i].clone());
        }
        i = i + 1;
    }
    assert(all.subrange(i as int, all.len() as int) =~= Seq::<User>::empty());
    Err(AuthError::InvalidCredentials)
}

} // verus!
