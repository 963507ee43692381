//! Session holder: the single slot recording who is currently logged in.
//!
//! The process has at most one operator at a time. The slot holds a copy
//! of the user's permission set taken at login time; later permission
//! edits do not affect it until the user logs in again.

use vstd::prelude::*;
use crate::models::UserSession;

verus! {

/// The single-slot store of the currently logged-in operator.
pub struct CurrentUser {
    session: Option<UserSession>,
}

impl View for CurrentUser {
    type V = Option<UserSession>;

    closed spec fn view(&self) -> Option<UserSession> {
        self.session
    }
}

impl CurrentUser {
    /// An empty slot: nobody is logged in.
    pub fn new() -> (r: Self)
        ensures
            r@ is None,
    {
        CurrentUser { session: None }
    }

    /// Records a login.
    pub fn set(&mut self, session: UserSession)
        ensures
            final(self)@ == Some(session),
    {
        self.session = Some(session);
    }

    /// Records a logout.
    pub fn clear(&mut self)
        ensures
            final(self)@ is None,
    {
        self.session = None;
    }

    /// A copy of the current session, if any; never a live reference, so
    /// the caller cannot alter the stored session.
    pub fn get(&self) -> (r: Option<UserSession>)
        ensures
            r == self@,
    {
        match &self.session {
            Some(s) => Some(s.clone()),
            None => None,
        }
    }
}

} // verus!
