//! Session state of the external agent CLI. The authentication check
//! itself runs an external process; the hosting application hands its
//! outcome to [`parse_auth_output`] and caches the resulting state in a
//! field owned by the session value.

use vstd::prelude::*;

use crate::strutil::contains_substring;
use crate::strutil::extract_after_colon;
use crate::strutil::spec_contains;

verus! {

/// The last known authentication state of the agent CLI.
pub struct SessionState {
    pub authenticated: bool,
    pub user_email: Option<String>,
    pub last_check: Option<String>,
}

impl Default for SessionState {
    /// The initial state: not authenticated, nothing known.
    fn default() -> (r: Self)
        ensures
            !r.authenticated,
            r.user_email is None,
            r.last_check is None,
    {
        SessionState { authenticated: false, user_email: None, last_check: None }
    }
}

impl Clone for SessionState {
    fn clone(&self) -> (r: Self)
        ensures
            r == *self,
    {
        SessionState {
            authenticated: self.authenticated,
            user_email: match &self.user_email {
                Some(e) => Some(e.clone()),
                None => None,
            },
            last_check: match &self.last_check {
                Some(t) => Some(t.clone()),
                None => None,
            },
        }
    }
}

/// The session cache.
pub struct ClaudeSession {
    pub state: SessionState,
}

impl ClaudeSession {
    /// A fresh session cache in the initial state.
    pub fn new() -> (r: Self)
        ensures
            !r.state.authenticated,
            r.state.user_email is None,
            r.state.last_check is None,
    {
        ClaudeSession { state: SessionState::default() }
    }

    /// The cached session state.
    pub fn get_cached_state(&self) -> (r: SessionState)
        ensures
            r == self.state,
    {
        self.state.clone()
    }

    /// Replaces the cache after an authentication check.
    pub fn set_state(&mut self, state: SessionState)
        ensures
            final(self).state == state,
    {
        self.state = state;
    }

    /// Clears the cache on logout.
    pub fn clear(&mut self)
        ensures
            !final(self).state.authenticated,
            final(self).state.user_email is None,
            final(self).state.last_check is None,
    {
        self.state = SessionState::default();
    }
}

/// The state an authentication status check concludes: authenticated
/// exactly when the check succeeded and its output reports a login, with
/// the email extracted from the output and the check time recorded.
pub fn parse_auth_output(success: bool, output: &str, checked_at: String) -> (r: SessionState)
    ensures
        r.authenticated == (success && spec_contains(output@, "Logged in"@)),
        match r.user_email {
            Some(e) => crate::strutil::spec_extract_after_colon(output@, "Logged in as"@) == Some(
                e@,
            ),
            None => crate::strutil::spec_extract_after_colon(output@, "Logged in as"@) is None,
        },
        r.last_check == Some(checked_at),
{
    let authenticated = success && contains_substring(output, "Logged in");
    let user_email = extract_email(output);
    SessionState { authenticated, user_email, last_check: Some(checked_at) }
}

/// The email an authentication report names: the text after the colon
/// that follows `Logged in as`, up to the end of that line, trimmed.
pub fn extract_email(output: &str) -> (r: Option<String>)
    ensures
        match r {
            Some(e) => crate::strutil::spec_extract_after_colon(output@, "Logged in as"@) == Some(
                e@,
            ),
            None => crate::strutil::spec_extract_after_colon(output@, "Logged in as"@) is None,
        },
{
    extract_after_colon(output, "Logged in as")
}

} // verus!
