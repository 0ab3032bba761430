//! The plain payloads the HTTP layer hands to the core.
//!
//! The web framework parses forms and JSON bodies into its own types;
//! only these bare records cross into the library.

use vstd::prelude::*;

verus! {

/// A login attempt: the submitted credentials.
pub struct LoginFormData {
    pub username: String,
    pub password: String,
}

/// An article edit: the new title and body.
pub struct ArticleUpdate {
    pub title: String,
    pub data: String,
}

} // verus!
