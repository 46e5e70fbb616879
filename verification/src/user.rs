use vstd::prelude::*;

verus! {

/// The credentials a visitor submits on the login form.
#[derive(Debug, Clone, PartialEq)]
pub struct UserWithPlaintextPassword {
    pub username: String,
    pub password: String,
}

/// A user known by name only.
#[derive(Debug, Clone, PartialEq)]
pub struct User {
    pub username: String,
}

impl UserWithPlaintextPassword {
    /// A field-by-field copy of the credentials.
    pub fn duplicate(&self) -> (r: UserWithPlaintextPassword)
        ensures
            r == *self,
    {
        UserWithPlaintextPassword { username: self.username.clone(), password: self.password.clone() }
    }
}

} // verus!
