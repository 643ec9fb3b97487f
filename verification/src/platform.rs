//! Opaque identifier for a chat platform (e.g. "irc", "discord").

use vstd::prelude::*;

use crate::table::{Duplicate, TableKey};

verus! {

/// Identifies one chat platform by its name.
#[derive(Debug, Hash)]
pub struct PlatformId(String);

impl View for PlatformId {
    type V = Seq<char>;

    closed spec fn view(&self) -> Seq<char> {
        self.0@
    }
}

impl Clone for PlatformId {
    fn clone(&self) -> (r: Self)
        ensures
            r@ == self@,
    {
        PlatformId(self.0.clone())
    }
}

impl Duplicate for PlatformId {
    fn duplicate(&self) -> (r: Self) {
        PlatformId(self.0.clone())
    }
}

impl TableKey for PlatformId {
    fn key_eq(&self, other: &Self) -> (r: bool) {
        self.0 == other.0
    }

    fn key_clone(&self) -> (r: Self) {
        PlatformId(self.0.clone())
    }
}

impl PlatformId {
    /// A platform identifier carrying the given name.
    pub fn new(name: &str) -> (r: Self)
        ensures
            r@ == name@,
    {
        PlatformId(name.to_string())
    }

    /// The platform's name.
    pub fn as_str(&self) -> (r: &str)
        ensures
            r@ == self@,
    {
        self.0.as_str()
    }

    /// Whether both identifiers name the same platform.
    pub fn same_as(&self, other: &PlatformId) -> (r: bool)
        ensures
            r == (self@ == other@),
    {
        self.0 == other.0
    }
}

} // verus!
