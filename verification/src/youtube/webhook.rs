//! Webhook decision logic: what each inbound HTTP request means.
//!
//! The HTTP layer itself lives outside this library; it hands the parsed
//! query of a GET, or the UTF-8 body of a POST, to the functions here and
//! sends back the response they choose. No event ever reaches the
//! reconciler from a request that is malformed or names an unknown topic.

use vstd::prelude::*;

use crate::text::{
    dec_digits_of,
    dec_value,
    parse_u64,
    spec_trim,
    str_eq,
    strip_prefix,
    valid_u64_string,
};
use crate::youtube::announcer::Event;
use crate::youtube::feed::{entry_child_text, schema_complete, Publication, BASE_NS, YT_NS};
use crate::youtube::ids::YoutubeChannel;
use crate::youtube::ledger::YoutubeConfig;

verus! {

/// The hub endpoint for outbound subscribe calls.
pub const HUB_URL: &'static str = "https://pubsubhubbub.appspot.com/subscribe";

/// Prefix of every topic feed URL; the topic identifier follows it.
pub const TOPIC_URL: &'static str = "https://www.youtube.com/xml/feeds/videos.xml?channel_id=";

/// The response the HTTP layer should send.
#[derive(Debug)]
pub enum WebhookResponse {
    /// Status 200 with the echoed challenge as the body.
    Challenge(String),
    /// Status 200.
    Accepted,
    /// Status 404.
    NotFound,
    /// Status 400.
    BadRequest,
}

/// Response plus the event, if any, to enqueue for the reconciler.
#[derive(Debug)]
pub struct GetOutcome {
    pub response: WebhookResponse,
    pub event: Option<Event>,
}

/// Outcome of a POST: whether to answer 200 (else 400), and the decoded
/// publication event, if any.
#[derive(Debug)]
pub struct PostOutcome {
    pub ok: bool,
    pub event: Option<Event>,
}

/// Whether the query holds the key `k`.
pub open spec fn q_has(q: Seq<(String, String)>, k: Seq<char>) -> bool {
    exists|i: int| 0 <= i < q.len() && (#[trigger] q[i]).0@ == k
}

/// The value of the first query entry with key `k`.
pub open spec fn q_first(q: Seq<(String, String)>, k: Seq<char>) -> Seq<char>
    decreases q.len(),
{
    if q.len() == 0 {
        Seq::<char>::empty()
    } else if q[0].0@ == k {
        q[0].1@
    } else {
        q_first(q.drop_first(), k)
    }
}

/// A match at `i`, with no match before it, is the first match.
proof fn lemma_q_first_at(q: Seq<(String, String)>, k: Seq<char>, i: int)
    requires
        0 <= i < q.len(),
        q[i].0@ == k,
        forall|j: int| 0 <= j < i ==> (#[trigger] q[j]).0@ != k,
    ensures
        q_first(q, k) == q[i].1@,
    decreases i,
{
    if i > 0 {
        let d = q.drop_first();
        assert(forall|j: int| 0 <= j < i - 1 ==> (#[trigger] d[j]).0@ != k) by {
            assert(forall|j: int| 0 <= j < i - 1 ==> d[j] == q[j + 1]);
        }
        assert(d[i - 1] == q[i]);
        lemma_q_first_at(d, k, i - 1);
    }
}

/// First query value under key `k`, if any.
fn lookup<'a>(q: &'a Vec<(String, String)>, k: &str) -> (r: Option<&'a String>)
    ensures
        (r is Some) == q_has(q@, k@),
        r matches Some(v) ==> v@ == q_first(q@, k@),
{
    let n = q.len();
    let mut i: usize = 0;
    while i < n
        invariant
            n == q@.len(),
            i <= n,
            forall|j: int| 0 <= j < i ==> (#[trigger] q@[j]).0@ != k@,
        decreases n - i,
    {
        if str_eq(q[i].0.as_str(), k) {
            proof {
                lemma_q_first_at(q@, k@, i as int);
            }
            return Some(&q[i].1);
        }
        i = i + 1;
    }
    None
}

/// The feed URL of a topic: the fixed prefix followed by the identifier.
/// The hub client subscribes with this as `hub.topic`; the inbound
/// verification check strips the same prefix.
pub fn feed_url(topic: &YoutubeChannel) -> (r: String)
    ensures
        r@ == TOPIC_URL@ + topic@,
{
    let mut url = TOPIC_URL.to_owned();
    url.append(topic.as_str());
    url
}

/// The topic identifier in a feed URL: what follows the fixed prefix.
pub open spec fn topic_suffix(topic: Seq<char>) -> Seq<char> {
    topic.subrange(TOPIC_URL@.len() as int, topic.len() as int)
}

/// Whether a feed URL is well-formed: the fixed prefix followed by the
/// topic identifier.
pub open spec fn topic_url_ok(topic: Seq<char>) -> bool {
    TOPIC_URL@.len() <= topic.len() && topic.subrange(0, TOPIC_URL@.len() as int) == TOPIC_URL@
}

/// Decide a webhook GET: hub verification (`hub.mode=subscribe`), denial
/// (`hub.mode=denied`), or rejection.
///
/// A request missing `hub.mode` or `hub.topic`, with a topic outside the
/// feed-URL scheme, with an unknown mode, or (for verification) missing
/// `hub.challenge` or a parseable `hub.lease_seconds`, is answered 400 with
/// no event. A topic that is not desired is answered 404 with no event.
/// A verification echoes the challenge and records `Subscribed`; a denial
/// is accepted and records `SubscriptionDenied` with the optional reason.
pub fn http_get(cfg: &YoutubeConfig, query: &Vec<(String, String)>) -> (r: GetOutcome)
    requires
        cfg.wf(),
    ensures
        (r.event is None) == !(r.response is Challenge || r.response is Accepted),
        !q_has(query@, "hub.mode"@) || !q_has(query@, "hub.topic"@) || !topic_url_ok(
            q_first(query@, "hub.topic"@),
        ) ==> r.response is BadRequest,
        q_has(query@, "hub.mode"@) && q_has(query@, "hub.topic"@) && topic_url_ok(
            q_first(query@, "hub.topic"@),
        ) ==> {
            let channel = topic_suffix(q_first(query@, "hub.topic"@));
            let mode = q_first(query@, "hub.mode"@);
            &&& !cfg.desired(channel) ==> r.response is NotFound
            &&& cfg.desired(channel) && mode == "denied"@ ==> (r.response is Accepted
                && (r.event matches Some(Event::SubscriptionDenied(c, reason)) && c@ == channel && (
                if q_has(query@, "hub.reason"@) {
                    reason matches Some(s) && s@ == q_first(query@, "hub.reason"@)
                } else {
                    reason is None
                })))
            &&& cfg.desired(channel) && mode == "subscribe"@ && q_has(query@, "hub.challenge"@)
                && q_has(query@, "hub.lease_seconds"@) && valid_u64_string(
                q_first(query@, "hub.lease_seconds"@),
            ) ==> (r.response matches WebhookResponse::Challenge(body) && body@ == q_first(
                query@,
                "hub.challenge"@,
            ) && (r.event matches Some(Event::Subscribed(c, n)) && c@ == channel && n == dec_value(
                dec_digits_of(q_first(query@, "hub.lease_seconds"@)),
            )))
            &&& cfg.desired(channel) && mode == "subscribe"@ && !(q_has(query@, "hub.challenge"@)
                && q_has(query@, "hub.lease_seconds"@) && valid_u64_string(
                q_first(query@, "hub.lease_seconds"@),
            )) ==> r.response is BadRequest
            &&& cfg.desired(channel) && mode != "denied"@ && mode != "subscribe"@
                ==> r.response is BadRequest
        },
{
    proof {
        reveal_strlit("denied");
        reveal_strlit("subscribe");
        assert("denied"@.len() == 6);
        assert("subscribe"@.len() == 9);
        assert("denied"@ != "subscribe"@);
    }
    let reject = GetOutcome { response: WebhookResponse::BadRequest, event: None };
    let mode = match lookup(query, "hub.mode") {
        Some(m) => m,
        None => {
            return reject;
        },
    };
    let topic = match lookup(query, "hub.topic") {
        Some(t) => t,
        None => {
            return reject;
        },
    };
    let channel_id = match strip_prefix(topic.as_str(), TOPIC_URL) {
        Some(rest) => rest,
        None => {
            return reject;
        },
    };
    let yt_channel = YoutubeChannel::new(channel_id.to_owned());
    if cfg.rule_for(&yt_channel).is_none() {
        return GetOutcome { response: WebhookResponse::NotFound, event: None };
    }
    if str_eq(mode.as_str(), "denied") {
        let reason = match lookup(query, "hub.reason") {
            Some(s) => Some(s.clone()),
            None => None,
        };
        GetOutcome {
            response: WebhookResponse::Accepted,
            event: Some(Event::SubscriptionDenied(yt_channel, reason)),
        }
    } else if str_eq(mode.as_str(), "subscribe") {
        let challenge = match lookup(query, "hub.challenge") {
            Some(c) => c,
            None => {
                return reject;
            },
        };
        let lease = match lookup(query, "hub.lease_seconds") {
            Some(l) => l,
            None => {
                return reject;
            },
        };
        let lease_seconds = match parse_u64(lease.as_str()) {
            Some(n) => n,
            None => {
                return reject;
            },
        };
        GetOutcome {
            response: WebhookResponse::Challenge(challenge.clone()),
            event: Some(Event::Subscribed(yt_channel, lease_seconds)),
        }
    } else {
        reject
    }
}

/// Decide a webhook POST: decode the notification body, answering 200 with
/// a `Publication` event exactly when it carries the complete feed schema,
/// and 400 with no event otherwise. The event's fields are the first texts
/// of the entry's `title`, `videoId` and `channelId` children.
pub fn http_post(body: &str) -> (r: PostOutcome)
    ensures
        r.ok == (r.event is Some),
        r.ok == schema_complete(spec_trim(body@)),
        r.event matches Some(e) ==> (e matches Event::Publication(p) && (entry_child_text(
            spec_trim(body@),
            "title"@,
            BASE_NS@,
        ) matches Some(x) && p.title@ == x) && (entry_child_text(
            spec_trim(body@),
            "videoId"@,
            YT_NS@,
        ) matches Some(x) && p.yt_id@ == x) && (entry_child_text(
            spec_trim(body@),
            "channelId"@,
            YT_NS@,
        ) matches Some(x) && p.yt_channel@ == x)),
{
    match Publication::parse(body) {
        Ok(p) => PostOutcome { ok: true, event: Some(Event::Publication(p)) },
        Err(_) => PostOutcome { ok: false, event: None },
    }
}

} // verus!
