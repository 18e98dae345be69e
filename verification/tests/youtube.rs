use galaxyofdreams::youtube::announcer::{Announcer, Event, ReconsiderAction};
use galaxyofdreams::youtube::buffer::Buffer;
use galaxyofdreams::youtube::feed::{PubError, Publication};
use galaxyofdreams::youtube::ids::{YoutubeChannel, YoutubeId};
use galaxyofdreams::youtube::ledger::{Ledger, Subscription, YoutubeConfig};
use galaxyofdreams::youtube::webhook::{http_get, http_post, WebhookResponse, TOPIC_URL};

const DATA: &str = r#"
    <feed xmlns:yt="http://www.youtube.com/xml/schemas/2015" xmlns="http://www.w3.org/2005/Atom">
      <link rel="hub" href="https://pubsubhubbub.appspot.com"/>
      <link rel="self" href="https://www.youtube.com/xml/feeds/videos.xml?channel_id=CHANNEL_ID"/>
      <title>YouTube video feed</title>
      <updated>2015-04-01T19:05:24.552394234+00:00</updated>
      <entry>
        <id>yt:video:VIDEO_ID</id>
        <yt:videoId>VIDEO_ID</yt:videoId>
        <yt:channelId>CHANNEL_ID</yt:channelId>
        <title>Video title</title>
        <link rel="alternate" href="http://www.youtube.com/watch?v=VIDEO_ID"/>
        <author>
         <name>Channel title</name>
         <uri>http://www.youtube.com/channel/CHANNEL_ID</uri>
        </author>
        <published>2015-03-06T21:40:57+00:00</published>
        <updated>2015-03-09T19:05:24.552394234+00:00</updated>
      </entry>
    </feed>
"#;

#[test]
fn publication() {
    let publication = Publication::parse(DATA).unwrap();
    assert_eq!(publication.title.as_str(), "Video title");
    assert_eq!(publication.yt_channel.as_str(), "CHANNEL_ID");
    assert_eq!(publication.yt_id.as_str(), "VIDEO_ID");
}

#[test]
fn parse_rejects_invalid_xml() {
    assert!(matches!(Publication::parse("not xml at all"), Err(PubError::InvalidXml)));
    assert!(matches!(Publication::parse(""), Err(PubError::InvalidXml)));
}

#[test]
fn parse_reports_missing_entry() {
    let body = r#"<feed xmlns="http://www.w3.org/2005/Atom"><title>x</title></feed>"#;
    assert!(matches!(Publication::parse(body), Err(PubError::MissingChild("entry"))));
}

#[test]
fn parse_reports_missing_video_id() {
    let body = r#"<feed xmlns:yt="http://www.youtube.com/xml/schemas/2015" xmlns="http://www.w3.org/2005/Atom">
      <entry>
        <yt:channelId>CHANNEL_ID</yt:channelId>
        <title>Video title</title>
      </entry>
    </feed>"#;
    assert!(matches!(Publication::parse(body), Err(PubError::MissingChild("videoId"))));
}

#[test]
fn parse_reports_empty_title() {
    let body = r#"<feed xmlns:yt="http://www.youtube.com/xml/schemas/2015" xmlns="http://www.w3.org/2005/Atom">
      <entry>
        <yt:videoId>VIDEO_ID</yt:videoId>
        <yt:channelId>CHANNEL_ID</yt:channelId>
        <title></title>
      </entry>
    </feed>"#;
    assert!(matches!(Publication::parse(body), Err(PubError::MissingChildInner("title"))));
}

#[test]
fn parse_reports_missing_channel_id() {
    let body = r#"<feed xmlns:yt="http://www.youtube.com/xml/schemas/2015" xmlns="http://www.w3.org/2005/Atom">
      <entry>
        <title>Video title</title>
        <yt:videoId>VIDEO_ID</yt:videoId>
      </entry>
    </feed>"#;
    assert!(matches!(Publication::parse(body), Err(PubError::MissingChild("channelId"))));
}

#[test]
fn parse_reports_first_failure_in_schema_order() {
    // Both title and videoId are missing: title is reported first.
    let body = r#"<feed xmlns:yt="http://www.youtube.com/xml/schemas/2015" xmlns="http://www.w3.org/2005/Atom">
      <entry>
        <yt:channelId>CHANNEL_ID</yt:channelId>
      </entry>
    </feed>"#;
    assert!(matches!(Publication::parse(body), Err(PubError::MissingChild("title"))));
}

fn topic(id: &str) -> YoutubeChannel {
    YoutubeChannel::new(id.to_string())
}

fn config(entries: Vec<(&str, u64, &str)>) -> YoutubeConfig {
    YoutubeConfig {
        enabled: true,
        subscriptions: entries
            .into_iter()
            .map(|(t, c, template)| {
                (topic(t), Subscription { channel_id: c, text: template.to_string() })
            })
            .collect(),
        log_channel: None,
    }
}

#[test]
fn dedup_buffer_evicts_oldest() {
    // A capacity-3 window: inserting four distinct ids evicts the first.
    let mut buffer = Buffer::new(3);
    for id in ["a", "b", "c"] {
        assert!(buffer.insert(id.to_string()).is_none());
    }
    assert!(buffer.contains(&"a".to_string()));
    let evicted = buffer.insert("d".to_string());
    assert_eq!(evicted, Some("a".to_string()));
    assert!(!buffer.contains(&"a".to_string()));
    for id in ["b", "c", "d"] {
        assert!(buffer.contains(&id.to_string()));
    }
}

#[test]
fn dedup_buffer_full_cycle() {
    // The announcer's own capacity is ten: the eleventh distinct id pushes
    // the first one out, after which it may be announced again.
    let cfg = config(vec![("UC1", 1, "%ID%")]);
    let mut announcer = Announcer::new();
    for i in 0..11 {
        let p = publication_for("UC1", &format!("v{}", i), "t");
        assert!(announcer.on_publication(p, &cfg).is_some());
    }
    let again = publication_for("UC1", "v0", "t");
    assert!(announcer.on_publication(again, &cfg).is_some());
    let dup = publication_for("UC1", "v10", "t");
    assert!(announcer.on_publication(dup, &cfg).is_none());
}

fn publication_for(channel: &str, id: &str, title: &str) -> Publication {
    Publication {
        title: title.to_string(),
        yt_id: YoutubeId::new(id.to_string()),
        yt_channel: topic(channel),
    }
}

#[test]
fn lease_math() {
    // Subscribed(topic, 700) schedules expiry at now+100; Subscribed(topic,
    // 300) at now+0 (immediately eligible again).
    let mut announcer = Announcer::new();
    let now = 1000;
    announcer.on_subscribed(topic("UC1"), 700, now);
    assert_eq!(announcer.ledger.subscribed_until(&topic("UC1")), Some(1100));
    announcer.on_subscribed(topic("UC2"), 300, now);
    assert_eq!(announcer.ledger.subscribed_until(&topic("UC2")), Some(1000));
}

#[test]
fn duplicate_publication_single_announcement() {
    let cfg = config(vec![("UC1", 42, "new: %ID%")]);
    let mut announcer = Announcer::new();
    let first = announcer.on_publication(publication_for("UC1", "VID", "T"), &cfg);
    assert!(first.is_some());
    let second = announcer.on_publication(publication_for("UC1", "VID", "T"), &cfg);
    assert!(second.is_none());
}

#[test]
fn unknown_topic_publication_dropped() {
    let cfg = config(vec![("UC1", 42, "new: %ID%")]);
    let mut announcer = Announcer::new();
    let r = announcer.on_publication(publication_for("UCother", "VID", "T"), &cfg);
    assert!(r.is_none());
}

#[test]
fn disabled_module_drops_publications() {
    let mut cfg = config(vec![("UC1", 42, "new: %ID%")]);
    cfg.enabled = false;
    let mut announcer = Announcer::new();
    assert!(announcer.on_publication(publication_for("UC1", "VID", "T"), &cfg).is_none());
}

#[test]
fn announcement_renders_template() {
    let cfg = config(vec![("UC1", 42, "New video: %ID%")]);
    let mut announcer = Announcer::new();
    let a = announcer.on_publication(publication_for("UC1", "XYZ", "Hello"), &cfg).unwrap();
    assert_eq!(a.channel_id, 42);
    assert_eq!(a.text.as_str(), "New video: XYZ");
    assert_eq!(a.title.as_str(), "Hello");
}

#[test]
fn failed_subscribe_retries_same_topic() {
    // A failing subscribe attempt leaves the topic as the candidate; the
    // next tick, thirty seconds later, retries the same topic.
    let cfg = config(vec![("UC1", 1, "%ID%"), ("UC2", 2, "%ID%")]);
    let mut announcer = Announcer::new();
    let now = 100;
    let r = announcer.on_reconsider(&cfg, now);
    let t = match r.action {
        ReconsiderAction::Subscribe(t) => t,
        other => panic!("expected a subscribe action, got {:?}", other),
    };
    assert_eq!(t.as_str(), "UC1");
    let wake = announcer.on_subscribe_result(t, false, now);
    assert_eq!(wake, now + 30);
    assert!(!announcer.ledger.is_pending(&topic("UC1")));
    let r2 = announcer.on_reconsider(&cfg, wake);
    match r2.action {
        ReconsiderAction::Subscribe(t2) => assert_eq!(t2.as_str(), "UC1"),
        other => panic!("expected a retry of the same topic, got {:?}", other),
    }
}

#[test]
fn successful_subscribe_becomes_pending() {
    let cfg = config(vec![("UC1", 1, "%ID%")]);
    let mut announcer = Announcer::new();
    let now = 100;
    let r = announcer.on_reconsider(&cfg, now);
    let t = match r.action {
        ReconsiderAction::Subscribe(t) => t,
        other => panic!("expected a subscribe action, got {:?}", other),
    };
    let wake = announcer.on_subscribe_result(t, true, now);
    assert_eq!(wake, 130);
    assert_eq!(announcer.ledger.pending_until(&topic("UC1")), Some(130));
    // The next tick moves on to nothing (the only topic is pending) and
    // wakes at the pending deadline.
    let r2 = announcer.on_reconsider(&cfg, 110);
    match r2.action {
        ReconsiderAction::Wake(w) => assert_eq!(w, 130),
        other => panic!("expected a wake action, got {:?}", other),
    }
}

#[test]
fn validation_timeout_reported_and_retried() {
    let cfg = config(vec![("UC1", 1, "%ID%")]);
    let mut announcer = Announcer::new();
    let now = 100;
    let r = announcer.on_reconsider(&cfg, now);
    let t = match r.action {
        ReconsiderAction::Subscribe(t) => t,
        other => panic!("expected a subscribe action, got {:?}", other),
    };
    announcer.on_subscribe_result(t, true, now);
    // The deadline passes without a confirmation: the sweep drops the entry
    // and reports it, and the topic is a candidate again.
    let r2 = announcer.on_reconsider(&cfg, 131);
    assert_eq!(r2.timed_out.len(), 1);
    assert_eq!(r2.timed_out[0].as_str(), "UC1");
    assert!(matches!(r2.action, ReconsiderAction::Subscribe(ref t2) if t2.as_str() == "UC1"));
}

#[test]
fn denied_subscription_becomes_candidate_again() {
    let cfg = config(vec![("UC1", 1, "%ID%")]);
    let mut announcer = Announcer::new();
    let now = 100;
    let r = announcer.on_reconsider(&cfg, now);
    let t = match r.action {
        ReconsiderAction::Subscribe(t) => t,
        other => panic!("expected a subscribe action, got {:?}", other),
    };
    announcer.on_subscribe_result(t, true, now);
    let wake = announcer.on_denied(&topic("UC1"), 110);
    assert_eq!(wake, 140);
    assert!(!announcer.ledger.is_pending(&topic("UC1")));
}

#[test]
fn disabled_module_sleeps() {
    let mut cfg = config(vec![("UC1", 1, "%ID%")]);
    cfg.enabled = false;
    let mut announcer = Announcer::new();
    let r = announcer.on_reconsider(&cfg, 100);
    assert!(matches!(r.action, ReconsiderAction::Disabled));
}

#[test]
fn idle_ledger_wakes_far_in_the_future() {
    let ledger = Ledger::new();
    assert_eq!(ledger.next_wake(1000), 1000 + 24 * 60 * 60);
}

#[test]
fn renewal_comes_before_expiry() {
    // Renewal is scheduled ten minutes before the lease runs out, and the
    // wake timer follows the earliest expiry.
    let mut announcer = Announcer::new();
    let wake = announcer.on_subscribed(topic("UC1"), 3600, 1000);
    assert_eq!(wake, Some(1000 + 3000));
    let wake2 = announcer.on_subscribed(topic("UC2"), 1800, 1000);
    assert_eq!(wake2, Some(1000 + 1200));
}

#[test]
fn confirmation_during_attempt_keeps_backoff_timer() {
    let cfg = config(vec![("UC1", 1, "%ID%"), ("UC2", 2, "%ID%")]);
    let mut announcer = Announcer::new();
    let r = announcer.on_reconsider(&cfg, 100);
    let t = match r.action {
        ReconsiderAction::Subscribe(t) => t,
        other => panic!("expected a subscribe action, got {:?}", other),
    };
    announcer.on_subscribe_result(t, true, 100);
    // A confirmation that is part of an in-flight attempt's sequence leaves
    // the 30-second schedule in place (no new wake).
    let wake = announcer.on_subscribed(topic("UC1"), 700, 101);
    assert_eq!(wake, None);
    assert!(announcer.ledger.is_subscribed(&topic("UC1")));
    assert!(!announcer.ledger.is_pending(&topic("UC1")));
}

fn query(pairs: &[(&str, &str)]) -> Vec<(String, String)> {
    pairs.iter().map(|(k, v)| (k.to_string(), v.to_string())).collect()
}

#[test]
fn webhook_verification_round_trip() {
    // GET with mode=subscribe, a known topic, challenge=abc123 and
    // lease_seconds=700 answers 200 with body abc123, and the recorded
    // entry expires 100 seconds after the event is applied.
    let cfg = config(vec![("UCabc", 123, "New video: %ID%")]);
    let feed = format!("{}{}", TOPIC_URL, "UCabc");
    let q = query(&[
        ("hub.mode", "subscribe"),
        ("hub.topic", &feed),
        ("hub.challenge", "abc123"),
        ("hub.lease_seconds", "700"),
    ]);
    let out = http_get(&cfg, &q);
    match out.response {
        WebhookResponse::Challenge(body) => assert_eq!(body.as_str(), "abc123"),
        other => panic!("expected the challenge to be echoed, got {:?}", other),
    }
    let (t, lease) = match out.event {
        Some(Event::Subscribed(t, lease)) => (t, lease),
        other => panic!("expected a subscribed event, got {:?}", other),
    };
    assert_eq!(t.as_str(), "UCabc");
    assert_eq!(lease, 700);
    let mut announcer = Announcer::new();
    announcer.on_subscribed(t, lease, 5000);
    assert_eq!(announcer.ledger.subscribed_until(&topic("UCabc")), Some(5100));
}

#[test]
fn webhook_unknown_topic_is_not_found() {
    let cfg = config(vec![("UCabc", 123, "x")]);
    let feed = format!("{}{}", TOPIC_URL, "UCother");
    let q = query(&[
        ("hub.mode", "subscribe"),
        ("hub.topic", &feed),
        ("hub.challenge", "abc123"),
        ("hub.lease_seconds", "700"),
    ]);
    let out = http_get(&cfg, &q);
    assert!(matches!(out.response, WebhookResponse::NotFound));
    assert!(out.event.is_none());
}

#[test]
fn webhook_malformed_get_is_bad_request() {
    let cfg = config(vec![("UCabc", 123, "x")]);
    let feed = format!("{}{}", TOPIC_URL, "UCabc");
    // Missing hub.topic.
    let out = http_get(&cfg, &query(&[("hub.mode", "subscribe")]));
    assert!(matches!(out.response, WebhookResponse::BadRequest) && out.event.is_none());
    // Topic outside the feed-URL scheme.
    let out = http_get(
        &cfg,
        &query(&[("hub.mode", "subscribe"), ("hub.topic", "https://example.com/UCabc")]),
    );
    assert!(matches!(out.response, WebhookResponse::BadRequest) && out.event.is_none());
    // Missing challenge.
    let out = http_get(
        &cfg,
        &query(&[("hub.mode", "subscribe"), ("hub.topic", &feed), ("hub.lease_seconds", "700")]),
    );
    assert!(matches!(out.response, WebhookResponse::BadRequest) && out.event.is_none());
    // Unparseable lease.
    let out = http_get(
        &cfg,
        &query(&[
            ("hub.mode", "subscribe"),
            ("hub.topic", &feed),
            ("hub.challenge", "c"),
            ("hub.lease_seconds", "soon"),
        ]),
    );
    assert!(matches!(out.response, WebhookResponse::BadRequest) && out.event.is_none());
    // Unknown mode.
    let out = http_get(&cfg, &query(&[("hub.mode", "resubscribe"), ("hub.topic", &feed)]));
    assert!(matches!(out.response, WebhookResponse::BadRequest) && out.event.is_none());
}

#[test]
fn webhook_denial_carries_reason() {
    let cfg = config(vec![("UCabc", 123, "x")]);
    let feed = format!("{}{}", TOPIC_URL, "UCabc");
    let out = http_get(
        &cfg,
        &query(&[("hub.mode", "denied"), ("hub.topic", &feed), ("hub.reason", "overload")]),
    );
    assert!(matches!(out.response, WebhookResponse::Accepted));
    match out.event {
        Some(Event::SubscriptionDenied(t, Some(reason))) => {
            assert_eq!(t.as_str(), "UCabc");
            assert_eq!(reason.as_str(), "overload");
        },
        other => panic!("expected a denial with its reason, got {:?}", other),
    }
    let out = http_get(&cfg, &query(&[("hub.mode", "denied"), ("hub.topic", &feed)]));
    assert!(matches!(out.event, Some(Event::SubscriptionDenied(_, None))));
}

#[test]
fn webhook_malformed_post_is_bad_request() {
    let out = http_post("this is not xml");
    assert!(!out.ok);
    assert!(out.event.is_none());
    let out = http_post(r#"<feed xmlns="http://www.w3.org/2005/Atom"><title>x</title></feed>"#);
    assert!(!out.ok);
    assert!(out.event.is_none());
}

#[test]
fn end_to_end_announcement() {
    // DesiredSet = {"UCabc": {destination=123, template="New video: %ID%"}};
    // a notification for content XYZ titled "Hello" yields one announcement
    // "New video: XYZ" to channel 123; an identical second notification
    // yields none.
    let cfg = config(vec![("UCabc", 123, "New video: %ID%")]);
    let body = DATA.replace("CHANNEL_ID", "UCabc").replace("VIDEO_ID", "XYZ").replace(
        "<title>Video title</title>",
        "<title>Hello</title>",
    );
    let mut announcer = Announcer::new();

    let out = http_post(&body);
    assert!(out.ok);
    let p = match out.event {
        Some(Event::Publication(p)) => p,
        other => panic!("expected a publication event, got {:?}", other),
    };
    let a = announcer.on_publication(p, &cfg).unwrap();
    assert_eq!(a.channel_id, 123);
    assert_eq!(a.text.as_str(), "New video: XYZ");

    let out2 = http_post(&body);
    assert!(out2.ok);
    let p2 = match out2.event {
        Some(Event::Publication(p)) => p,
        other => panic!("expected a publication event, got {:?}", other),
    };
    assert!(announcer.on_publication(p2, &cfg).is_none());
}
