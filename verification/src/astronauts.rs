//! Astronaut-status module configuration and the authorization decision of
//! its small HTTP API. The API transport, database and role updates happen
//! outside this library.

use vstd::prelude::*;

use crate::text::{str_eq, strip_prefix};

verus! {

#[derive(Debug)]
pub struct AstronautsConfig {
    pub enabled: bool,
    pub api_secret: String,
    pub role_id: u64,
    pub announce: Option<AstronautsAnnounceConfig>,
}

impl Default for AstronautsConfig {
    /// The startup configuration: disabled, with an empty secret.
    fn default() -> (r: AstronautsConfig)
        ensures
            !r.enabled,
            r.api_secret@.len() == 0,
            r.role_id == 0,
            r.announce is None,
    {
        AstronautsConfig { enabled: false, api_secret: String::new(), role_id: 0, announce: None }
    }
}

/// Where and how a newly granted status is announced.
#[derive(Debug)]
pub struct AstronautsAnnounceConfig {
    pub channel_id: u64,
    pub text: String,
    pub button: Option<AstronautsButtonConfig>,
}

/// The link button attached to an announcement.
#[derive(Debug)]
pub struct AstronautsButtonConfig {
    pub text: String,
    pub url: String,
}

/// What a status request does to the stored record.
#[derive(Debug, PartialEq, Eq, Structural)]
pub enum StatusChange {
    /// No record yet: create one with the requested state.
    Insert,
    /// The stored state differs: flip it and bump the counter.
    Update,
    /// The stored state already matches: leave the record alone.
    Unchanged,
}

/// Decide how a request to set the status to `add` changes a record whose
/// current state is `was_active` (`None`: no record).
pub fn status_change(was_active: Option<bool>, add: bool) -> (r: StatusChange)
    ensures
        was_active is None ==> r == StatusChange::Insert,
        was_active matches Some(x) && x != add ==> r == StatusChange::Update,
        was_active matches Some(x) && x == add ==> r == StatusChange::Unchanged,
{
    match was_active {
        None => StatusChange::Insert,
        Some(x) => if x != add {
            StatusChange::Update
        } else {
            StatusChange::Unchanged
        },
    }
}

/// Whether an `authorization` header grants access: it must read
/// `Secret <api_secret>` exactly.
pub fn authorized(auth: Option<&String>, api_secret: &String) -> (r: bool)
    ensures
        r == (auth matches Some(a) && "Secret "@.len() <= a@.len() && a@.subrange(
            0,
            "Secret "@.len() as int,
        ) == "Secret "@ && a@.skip("Secret "@.len() as int) == api_secret@),
{
    match auth {
        Some(a) => match strip_prefix(a.as_str(), "Secret ") {
            Some(rest) => str_eq(rest, api_secret.as_str()),
            None => false,
        },
        None => false,
    }
}

} // verus!
