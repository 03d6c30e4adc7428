//! Which server a JMAP store talks to, as read off its Camel settings.
//!
//! Camel's network settings are constructed with every property set, so a
//! setting nobody touched reads back as the empty string rather than as
//! nothing; both spellings mean "not configured".

use vstd::prelude::*;

verus! {

/// What a JMAP store needs from its settings in order to build a client. The
/// password is not here: Camel fetches it through its session at connect
/// time, never from a settings object that is written to a config file.
#[derive(Debug, Clone, PartialEq, Eq)]
pub struct ServerConfig {
    /// Scheme, host and — if the account names one — port, with no trailing
    /// slash.
    pub origin: String,
    /// The user name to authenticate as, if the account names one.
    pub user: Option<String>,
}

/// A user name as the settings hold it: the empty string is no user name.
pub open spec fn configured(user: Option<Seq<char>>) -> Option<Seq<char>> {
    match user {
        Some(u) => if u.len() > 0 {
            Some(u)
        } else {
            None
        },
        None => None,
    }
}

impl ServerConfig {
    /// The server at `origin`, authenticated as `user` — none, when the
    /// settings hold an empty user name.
    pub fn new(origin: String, user: Option<String>) -> (c: ServerConfig)
        ensures
            c.origin@ == origin@,
            match c.user {
                Some(u) => configured(
                    match user {
                        Some(v) => Some(v@),
                        None => None,
                    },
                ) == Some(u@),
                None => configured(
                    match user {
                        Some(v) => Some(v@),
                        None => None,
                    },
                ) is None,
            },
    {
        let user = match user {
            Some(u) => if u.as_str().is_empty() {
                None
            } else {
                Some(u)
            },
            None => None,
        };
        ServerConfig { origin, user }
    }
}

} // verus!
