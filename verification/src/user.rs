//! A chat user's identity on a single platform, as a platform reports it.

use vstd::prelude::*;

verus! {

/// A chat user as one platform lists it: an optional stable id, the account
/// name, and optional display name and avatar.
#[derive(Debug, Clone)]
pub struct User {
    pub id: Option<String>,
    pub name: String,
    pub display_name: Option<String>,
    pub avatar_url: Option<String>,
}

} // verus!
