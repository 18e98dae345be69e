//! The announcer's decision core: one state-transition function per event.
//!
//! The event loop that owns this state is a thin driver: it receives one
//! event (or a timer expiry, which stands for `UpdateSubscriptions`), calls
//! the matching handler here, and performs the returned side effects — the
//! one-at-a-time hub subscribe call, whose result it reports back through
//! [`Announcer::on_subscribe_result`], and the fire-and-forget announcement
//! and log sends. All state changes are decided here and are verified.

use vstd::prelude::*;

use crate::text::{replace_all, spec_replace};
use crate::youtube::buffer::{spec_insert, Buffer};
use crate::youtube::feed::Publication;
use crate::youtube::ids::YoutubeChannel;
use crate::youtube::ledger::{
    first_candidate,
    lease_expiry,
    no_candidate,
    wake_at,
    Ledger,
    YoutubeConfig,
    IDLE_WAKE_SECS,
    VALIDATION_TIMEOUT_SECS,
};

verus! {

/// Size of the deduplication window for announced content ids.
pub const DEDUP_CAPACITY: usize = 10;

/// The placeholder in an announcement template that is replaced by the
/// content id.
pub const ID_MARKER: &'static str = "%ID%";

/// An inbound event for the announcer loop.
#[derive(Debug)]
pub enum Event {
    /// A content notification delivered by the hub.
    Publication(Publication),
    /// A reconciliation tick: fired by the timer, or synthesized after a
    /// configuration change.
    UpdateSubscriptions,
    /// The hub confirmed a subscription for this many lease seconds.
    Subscribed(YoutubeChannel, u64),
    /// The hub denied a subscription, with an optional reason.
    SubscriptionDenied(YoutubeChannel, Option<String>),
}

/// A downstream announcement to dispatch: the destination channel, the
/// rendered text, and the title for operator logs.
#[derive(Debug)]
pub struct Announcement {
    pub channel_id: u64,
    pub text: String,
    pub title: String,
}

/// What a reconciliation tick decided.
#[derive(Debug)]
pub enum ReconsiderAction {
    /// The module is disabled: stay idle and keep the previous wake time.
    Disabled,
    /// Issue a subscribe call for this topic and report its result through
    /// [`Announcer::on_subscribe_result`].
    Subscribe(YoutubeChannel),
    /// Nothing to subscribe: sleep until this instant.
    Wake(u64),
}

/// The outcome of a reconciliation tick: the pending attempts whose
/// validation timed out (to be reported), and the action to perform.
#[derive(Debug)]
pub struct Reconsidered {
    pub timed_out: Vec<YoutubeChannel>,
    pub action: ReconsiderAction,
}

/// The state owned by the event loop: the subscription ledger, the
/// deduplication window, and whether the current tick is in the middle of a
/// subscribe attempt (in which case an asynchronous confirmation must not
/// clobber the attempt's 30-second backoff timer).
pub struct Announcer {
    pub ledger: Ledger,
    pub history: Buffer,
    pub subscribing: bool,
}

impl Announcer {
    pub open spec fn wf(&self) -> bool {
        &&& self.ledger.wf()
        &&& self.history.wf()
    }

    /// Fresh state: nothing pending, nothing subscribed, nothing announced.
    pub fn new() -> (r: Announcer)
        ensures
            r.wf(),
            r.ledger.pending().len() == 0,
            r.ledger.subscribed().len() == 0,
            r.history@.len() == 0,
            !r.subscribing,
            r.history.cap() == DEDUP_CAPACITY,
    {
        Announcer { ledger: Ledger::new(), history: Buffer::new(DEDUP_CAPACITY), subscribing: false }
    }

    /// Handle a content notification.
    ///
    /// A publication for a desired topic whose content id is not in the
    /// deduplication window yields exactly one announcement, rendered from
    /// the topic's template, and enters the window. A duplicate id, a topic
    /// that is not desired, or a disabled module yields none and changes
    /// nothing. The ledger is never touched.
    pub fn on_publication(&mut self, p: Publication, cfg: &YoutubeConfig) -> (r: Option<
        Announcement,
    >)
        requires
            old(self).wf(),
            cfg.wf(),
        ensures
            final(self).wf(),
            final(self).ledger == old(self).ledger,
            final(self).subscribing == old(self).subscribing,
            final(self).history.cap() == old(self).history.cap(),
            !(cfg.enabled && cfg.desired(p.yt_channel@) && !old(self).history@.contains(p.yt_id@))
                ==> (r is None && final(self).history@ == old(self).history@),
            cfg.enabled && cfg.desired(p.yt_channel@) && !old(self).history@.contains(p.yt_id@)
                ==> (r matches Some(a) && a.channel_id == cfg.rule_of(p.yt_channel@).channel_id
                && a.text@ == spec_replace(cfg.rule_of(p.yt_channel@).text@, ID_MARKER@, p.yt_id@)
                && a.title@ == p.title@ && final(self).history@ == spec_insert(
                old(self).history@,
                old(self).history.cap(),
                p.yt_id@,
            )),
    {
        if !cfg.enabled {
            return None;
        }
        let rule = match cfg.rule_for(&p.yt_channel) {
            Some(rule) => rule,
            None => {
                return None;
            },
        };
        if self.history.contains(&p.yt_id.0) {
            return None;
        }
        proof {
            reveal_strlit("%ID%");
        }
        let text = replace_all(rule.text.as_str(), ID_MARKER, p.yt_id.as_str());
        let channel_id = rule.channel_id;
        self.history.insert(p.yt_id.0);
        Some(Announcement { channel_id, text, title: p.title })
    }

    /// Handle a reconciliation tick.
    ///
    /// Expired entries are swept first; the topics whose validation timed
    /// out are returned for reporting. A disabled module then does nothing
    /// more. Otherwise the first desired topic that is neither pending nor
    /// subscribed becomes the subscribe candidate; if every desired topic
    /// is tracked, the loop sleeps until the earliest deadline or expiry.
    pub fn on_reconsider(&mut self, cfg: &YoutubeConfig, now: u64) -> (r: Reconsidered)
        requires
            old(self).wf(),
            cfg.wf(),
            now + IDLE_WAKE_SECS <= u64::MAX,
        ensures
            final(self).wf(),
            final(self).history == old(self).history,
            final(self).ledger.pending() == old(self).ledger.pending().filter(
                crate::youtube::ledger::alive_after(now),
            ),
            final(self).ledger.subscribed() == old(self).ledger.subscribed().filter(
                crate::youtube::ledger::alive_after(now),
            ),
            r.timed_out@.map_values(|c: YoutubeChannel| c@) == old(self).ledger.pending().filter(
                crate::youtube::ledger::expired_by(now),
            ).map_values(|e: (YoutubeChannel, u64)| e.0@),
            !cfg.enabled ==> (r.action == ReconsiderAction::Disabled && final(self).subscribing
                == old(self).subscribing),
            cfg.enabled ==> !(r.action is Disabled),
            r.action matches ReconsiderAction::Subscribe(t) ==> (cfg.enabled
                && final(self).subscribing && first_candidate(final(self).ledger, *cfg, t@)),
            r.action matches ReconsiderAction::Wake(w) ==> (cfg.enabled && !final(self).subscribing
                && no_candidate(final(self).ledger, *cfg) && wake_at(final(self).ledger, now, w)),
    {
        let timed_out = self.ledger.sweep(now);
        if !cfg.enabled {
            return Reconsidered { timed_out, action: ReconsiderAction::Disabled };
        }
        match self.ledger.candidate(cfg) {
            Some(t) => {
                self.subscribing = true;
                Reconsidered { timed_out, action: ReconsiderAction::Subscribe(t) }
            },
            None => {
                self.subscribing = false;
                let w = self.ledger.next_wake(now);
                Reconsidered { timed_out, action: ReconsiderAction::Wake(w) }
            },
        }
    }

    /// Record the outcome of the subscribe call issued for this tick's
    /// candidate, and give the tick's backoff wake time.
    ///
    /// On success the topic becomes pending with a 30-second confirmation
    /// deadline. On failure nothing changes at all: the topic remains the
    /// standing candidate and is retried on the next tick. Either way the
    /// next wake is 30 seconds from now.
    pub fn on_subscribe_result(&mut self, topic: YoutubeChannel, ok: bool, now: u64) -> (wake: u64)
        requires
            old(self).wf(),
            !old(self).ledger.tracked_topic(topic@),
            now + VALIDATION_TIMEOUT_SECS <= u64::MAX,
        ensures
            final(self).wf(),
            wake == now + VALIDATION_TIMEOUT_SECS,
            ok ==> (final(self).ledger.pending() == old(self).ledger.pending().push(
                (topic, (now + VALIDATION_TIMEOUT_SECS) as u64),
            ) && final(self).ledger.subscribed() == old(self).ledger.subscribed()
                && final(self).history == old(self).history
                && final(self).subscribing == old(self).subscribing),
            !ok ==> *final(self) == *old(self),
    {
        if ok {
            self.ledger.insert_pending(topic, now + VALIDATION_TIMEOUT_SECS);
        }
        now + VALIDATION_TIMEOUT_SECS
    }

    /// Handle a hub confirmation: the topic stops being pending and is
    /// subscribed with its renewal scheduled ten minutes before the granted
    /// lease runs out.
    ///
    /// When the confirmation arrives asynchronously (not as part of an
    /// attempt issued in this very tick), the wake time is recomputed from
    /// the new ledger; during an attempt the attempt's backoff timer is
    /// left in place.
    pub fn on_subscribed(&mut self, topic: YoutubeChannel, lease_seconds: u64, now: u64) -> (wake:
        Option<u64>)
        requires
            old(self).wf(),
            lease_expiry(now, lease_seconds) <= u64::MAX,
            now + IDLE_WAKE_SECS <= u64::MAX,
        ensures
            final(self).wf(),
            final(self).ledger.pending() == old(self).ledger.pending().filter(
                crate::youtube::ledger::key_ne(topic@),
            ),
            final(self).ledger.subscribed() == old(self).ledger.subscribed().filter(
                crate::youtube::ledger::key_ne(topic@),
            ).push((topic, lease_expiry(now, lease_seconds) as u64)),
            final(self).history == old(self).history,
            final(self).subscribing == old(self).subscribing,
            old(self).subscribing ==> wake is None,
            !old(self).subscribing ==> (wake matches Some(w) && wake_at(final(self).ledger, now, w)),
    {
        let delta: u64 = if lease_seconds >= crate::youtube::ledger::RENEWAL_MARGIN_SECS {
            lease_seconds - crate::youtube::ledger::RENEWAL_MARGIN_SECS
        } else {
            0
        };
        let expiry = now + delta;
        self.ledger.remove_pending(&topic);
        self.ledger.remove_subscribed(&topic);
        self.ledger.insert_subscribed(topic, expiry);
        if self.subscribing {
            None
        } else {
            Some(self.ledger.next_wake(now))
        }
    }

    /// Handle a hub denial: the pending attempt is dropped, and the next
    /// tick comes after the usual 30-second backoff, giving a fresh
    /// opportunity to attempt the same or another topic. The denial reason
    /// is only reported, never recorded.
    pub fn on_denied(&mut self, topic: &YoutubeChannel, now: u64) -> (wake: u64)
        requires
            old(self).wf(),
            now + VALIDATION_TIMEOUT_SECS <= u64::MAX,
        ensures
            final(self).wf(),
            wake == now + VALIDATION_TIMEOUT_SECS,
            final(self).ledger.pending() == old(self).ledger.pending().filter(
                crate::youtube::ledger::key_ne(topic@),
            ),
            final(self).ledger.subscribed() == old(self).ledger.subscribed(),
            final(self).history == old(self).history,
            final(self).subscribing == old(self).subscribing,
    {
        self.ledger.remove_pending(topic);
        now + VALIDATION_TIMEOUT_SECS
    }
}

/// Duplicate suppression: as soon as a content id enters the deduplication
/// window, the window contains it, so an identical publication handled next
/// yields no announcement (by the contract of
/// [`Announcer::on_publication`]).
pub proof fn lemma_duplicate_suppressed(h: Seq<Seq<char>>, cap: nat, id: Seq<char>)
    ensures
        spec_insert(h, cap, id).contains(id),
{
    let out = spec_insert(h, cap, id);
    assert(out.last() == id);
    assert(out[out.len() - 1] == id);
}

} // verus!
