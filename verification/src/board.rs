//! The message board's insertion record.
//!
//! The board itself — storage, ordering, rendering — is an external
//! collaborator; the library only prepares the record a newly posted
//! message is inserted with, authored by the posting member's callsign.

use vstd::prelude::*;
use crate::identity::User;

verus! {

/// A new message about to be stored: who wrote it and what it says.
pub struct NewMessage<'a> {
    pub author: &'a str,
    pub content: &'a str,
}

impl<'a> NewMessage<'a> {
    /// Build the record for a message posted by an authenticated member:
    /// the author column carries the member's callsign verbatim.
    pub fn posted_by(user: &'a User, content: &'a str) -> (m: NewMessage<'a>)
        ensures
            m.author@ == user.callsign@,
            m.content@ == content@,
    {
        NewMessage { author: user.callsign.as_str(), content }
    }
}

} // verus!
