//! Users and the login that comes with a request.

use vstd::prelude::*;

verus! {

/// The name of a user; each user has a list of their own.
#[derive(Debug)]
pub struct UserId(pub String);

impl Clone for UserId {
    fn clone(&self) -> (res: Self)
        ensures
            res == *self,
    {
        UserId(self.0.clone())
    }
}

impl View for UserId {
    type V = Seq<char>;

    open spec fn view(&self) -> Seq<char> {
        self.0@
    }
}

impl From<String> for UserId {
    fn from(s: String) -> (res: Self) {
        UserId(s)
    }
}

impl vstd::std_specs::convert::FromSpecImpl<String> for UserId {
    open spec fn obeys_from_spec() -> bool {
        true
    }

    open spec fn from_spec(s: String) -> Self {
        UserId(s)
    }
}

impl UserId {
    /// The user named `s`.
    pub fn from_name(s: &str) -> (res: Self)
        ensures
            res@ == s@,
    {
        UserId(s.to_owned())
    }

    /// The name, as `{}` writes it.
    pub fn to_string(&self) -> (res: String)
        ensures
            res@ == self@,
    {
        self.0.clone()
    }
}

/// The user a request comes from and the password it carries.
#[derive(Debug)]
pub struct UserContext {
    pub user: UserId,
    pub password: String,
}

impl UserContext {
    /// The context of `user` with `password`.
    pub fn new(user: UserId, password: String) -> (res: Self)
        ensures
            res.user == user,
            res.password == password,
    {
        UserContext { user, password }
    }
}

} // verus!
