//! Link-only channels: in a configured channel, a message from a human
//! without a link is deleted (unless the author's highest role reaches the
//! configured bypass role). The deletion and logging are performed outside
//! this library; the decision is made, and verified, here.

use vstd::prelude::*;

use crate::text::{contains_sub, spec_contains_sub};
use std::collections::HashSet;

verus! {

broadcast use vstd::std_specs::hash::group_hash_axioms;

#[derive(Debug)]
pub struct LinkOnlyConfig {
    pub enabled: bool,
    pub channels: HashSet<u64>,
    pub log_channel: Option<u64>,
    pub bypass_minimum_role: Option<u64>,
}

impl Default for LinkOnlyConfig {
    /// The startup configuration: disabled, applying to no channel.
    fn default() -> (r: LinkOnlyConfig)
        ensures
            !r.enabled,
            r.channels@ == Set::<u64>::empty(),
            r.log_channel is None,
            r.bypass_minimum_role is None,
    {
        LinkOnlyConfig {
            enabled: false,
            channels: HashSet::new(),
            log_channel: None,
            bypass_minimum_role: None,
        }
    }
}

/// Whether a message body contains a link.
pub open spec fn spec_has_link(content: Seq<char>) -> bool {
    spec_contains_sub(content, "https://"@) || spec_contains_sub(content, "http://"@)
}

pub fn has_link(content: &str) -> (r: bool)
    ensures
        r == spec_has_link(content@),
{
    contains_sub(content, "https://") || contains_sub(content, "http://")
}

#[derive(Debug)]
pub struct LinkOnly {
    pub config: LinkOnlyConfig,
}

impl LinkOnly {
    pub fn new() -> (r: LinkOnly)
        ensures
            !r.config.enabled,
    {
        LinkOnly { config: Default::default() }
    }

    /// Whether a message must be deleted: link-only mode applies to its
    /// channel, it carries no link, it is from a human, and the author's
    /// highest role position does not reach the bypass role's position
    /// (both positions are resolved by the caller).
    pub fn should_delete(
        &self,
        channel_id: u64,
        content: &str,
        author_is_bot: bool,
        author_is_system: bool,
        member_position: Option<i64>,
        bypass_position: Option<i64>,
    ) -> (r: bool)
        ensures
            r == (self.config.channels@.contains(channel_id) && !spec_has_link(content@)
                && !author_is_bot && !author_is_system && !(bypass_position matches Some(bp)
                && member_position matches Some(mp) && mp >= bp)),
    {
        if !self.config.channels.contains(&channel_id) {
            return false;
        }
        if has_link(content) {
            return false;
        }
        if author_is_bot || author_is_system {
            return false;
        }
        if let Some(bp) = bypass_position {
            if let Some(mp) = member_position {
                if mp >= bp {
                    return false;
                }
            }
        }
        true
    }
}

} // verus!
