use vstd::prelude::*;

verus! {

/// An authenticated identity, as handed out by a credential store.
#[derive(Debug, PartialEq, Eq)]
pub struct User {
    pub id: u64,
    pub username: String,
    pub email: String,
}

impl Clone for User {
    fn clone(&self) -> (r: Self)
        ensures
            r == *self,
    {
        User { id: self.id, username: self.username.clone(), email: self.email.clone() }
    }
}

} // verus!
