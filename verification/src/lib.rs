//! An in-memory user record store with validating construction, plus
//! string-formatting and input-validation helpers, all with verified
//! contracts.

pub mod chars;
pub mod store;
pub mod text;
pub mod user;
pub mod validate;
