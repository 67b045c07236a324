//! The identity and access state of one relay connection.

use vstd::prelude::*;

use crate::protocol::control::UserId;
use crate::text::{prefixed_decimal, spec_decimal};

verus! {

#[derive(Debug, Clone, PartialEq, Eq)]
pub struct Session {
    pub id: u64,
    pub user_id: Option<UserId>,
    pub display_name: String,
    pub access_granted: bool,
}

impl Session {
    /// A connection that has not said hello yet.
    pub fn anonymous(id: u64) -> (session: Session)
        ensures
            session.id == id,
            session.user_id is None,
            session.display_name@ == "session-"@ + spec_decimal(id as nat),
            !session.access_granted,
    {
        Session {
            id,
            user_id: None,
            display_name: prefixed_decimal("session-", id),
            access_granted: false,
        }
    }

    pub fn establish_identity(&mut self, user_id: UserId, access_granted: bool, display_name: String)
        ensures
            final(self).id == old(self).id,
            final(self).user_id == Some(user_id),
            final(self).access_granted == access_granted,
            final(self).display_name@ == display_name@,
    {
        self.user_id = Some(user_id);
        self.display_name = display_name;
        self.access_granted = access_granted;
    }

    pub fn update_display_name(&mut self, display_name: String)
        ensures
            final(self).id == old(self).id,
            final(self).user_id == old(self).user_id,
            final(self).access_granted == old(self).access_granted,
            final(self).display_name@ == display_name@,
    {
        self.display_name = display_name;
    }

    pub fn grant_access(&mut self)
        ensures
            final(self).id == old(self).id,
            final(self).user_id == old(self).user_id,
            final(self).access_granted,
            final(self).display_name@ == old(self).display_name@,
    {
        self.access_granted = true;
    }

    /// Access is held once the connection has an identity and was granted it.
    pub fn has_access(&self) -> (access: bool)
        ensures
            access == (self.user_id is Some && self.access_granted),
    {
        self.user_id.is_some() && self.access_granted
    }
}

} // verus!
