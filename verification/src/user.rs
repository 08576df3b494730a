//! User records: the error taxonomy, the record type, and its
//! validating constructor.

use vstd::prelude::*;

verus! {

/// The outcome of a fallible store or construction operation.
#[derive(Clone, Copy, Debug, PartialEq, Eq, Structural)]
pub enum UserError {
    NotFound,
    AlreadyExists,
    InvalidData,
    CapacityExceeded,
}

impl UserError {
    /// A human-readable description of the error.
    pub fn message(&self) -> (m: &'static str)
        ensures
            self is NotFound ==> m@ == "User not found"@,
            self is AlreadyExists ==> m@ == "User already exists"@,
            self is InvalidData ==> m@ == "Invalid user data"@,
            self is CapacityExceeded ==> m@ == "User store is full"@,
    {
        match self {
            UserError::NotFound => "User not found",
            UserError::AlreadyExists => "User already exists",
            UserError::InvalidData => "Invalid user data",
            UserError::CapacityExceeded => "User store is full",
        }
    }
}

/// The mathematical content of a user record.
pub struct UserView {
    pub id: u32,
    pub name: Seq<char>,
    pub email: Seq<char>,
    pub created_at: Seq<char>,
    pub is_active: bool,
}

/// A user record: an id assigned by the store, non-empty name and
/// email, a creation timestamp set once, and an activity flag.
#[derive(Debug, Clone, PartialEq)]
pub struct User {
    pub id: u32,
    pub name: String,
    pub email: String,
    pub created_at: String,
    pub is_active: bool,
}

impl View for User {
    type V = UserView;

    open spec fn view(&self) -> UserView {
        UserView {
            id: self.id,
            name: self.name@,
            email: self.email@,
            created_at: self.created_at@,
            is_active: self.is_active,
        }
    }
}

impl User {
    /// A record is valid when its name and its email are non-empty.
    pub open spec fn valid(self) -> bool {
        self@.name.len() > 0 && self@.email.len() > 0
    }

    /// Validating constructor: fails with `InvalidData` exactly when the
    /// name or the email is empty; otherwise the record carries the
    /// given fields, the current time as its creation timestamp, and
    /// starts active.
    pub fn new(id: u32, name: String, email: String) -> (r: Result<User, UserError>)
        ensures
            r is Ok <==> (name@.len() > 0 && email@.len() > 0),
            r matches Ok(u) ==> u.id == id && u@.name == name@ && u@.email == email@ && u.is_active
                && u.valid(),
            r matches Err(e) ==> e == UserError::InvalidData,
    {
        if name.as_str().is_empty() || email.as_str().is_empty() {
            return Err(UserError::InvalidData);
        }
        Ok(User { id, name, email, created_at: current_timestamp(), is_active: true })
    }
}

/// Relies on chrono::Utc::now and DateTime::to_rfc3339 for the creation
/// timestamp; the result depends on the clock, so nothing is stated of
/// it.
#[verifier::external_body]
fn current_timestamp() -> String {
    chrono::Utc::now().to_rfc3339()
}

} // verus!
