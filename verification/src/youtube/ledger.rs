//! Subscription ledger: desired, pending and confirmed topics.
//!
//! The ledger tracks, per topic, an in-flight subscribe attempt (`pending`,
//! with the deadline by which the hub must confirm it) or a confirmed
//! subscription (`subscribed`, with the instant at which renewal is due).
//! A topic is never in both at once; a desired topic that is in neither is
//! eligible for a subscribe attempt. Times are seconds on a monotonic
//! clock.

use vstd::prelude::*;

use crate::youtube::ids::YoutubeChannel;

verus! {

/// How long the hub has to confirm a subscribe attempt.
pub const VALIDATION_TIMEOUT_SECS: u64 = 30;

/// Renewal is scheduled this long before the granted lease expires.
pub const RENEWAL_MARGIN_SECS: u64 = 600;

/// Fallback wake interval when nothing is pending or subscribed.
pub const IDLE_WAKE_SECS: u64 = 86400;

/// Per-topic announcement rule: the destination channel and a text template
/// with a `%ID%` placeholder for the content id.
#[derive(Debug)]
pub struct Subscription {
    pub channel_id: u64,
    pub text: String,
}

/// Configuration snapshot: whether the module runs, the desired topics in
/// iteration order, and an optional operator log channel.
#[derive(Debug)]
pub struct YoutubeConfig {
    pub enabled: bool,
    pub subscriptions: Vec<(YoutubeChannel, Subscription)>,
    pub log_channel: Option<u64>,
}

/// Whether an entry list holds the key `t`.
pub open spec fn has_key<V>(s: Seq<(YoutubeChannel, V)>, t: Seq<char>) -> bool {
    exists|i: int| 0 <= i < s.len() && (#[trigger] s[i]).0@ == t
}

/// The keys of an entry list are pairwise distinct.
pub open spec fn unique_keys<V>(s: Seq<(YoutubeChannel, V)>) -> bool {
    forall|i: int, j: int| 0 <= i < j < s.len() ==> (#[trigger] s[i]).0@ != (#[trigger] s[j]).0@
}

/// The filter predicate that keeps every key but `t`.
pub open spec fn key_ne<V>(t: Seq<char>) -> spec_fn((YoutubeChannel, V)) -> bool {
    |e: (YoutubeChannel, V)| e.0@ != t
}

/// The filter predicate that keeps entries whose time has not yet passed.
pub open spec fn alive_after(now: u64) -> spec_fn((YoutubeChannel, u64)) -> bool {
    |e: (YoutubeChannel, u64)| e.1 > now
}

/// The filter predicate that keeps entries whose time has passed.
pub open spec fn expired_by(now: u64) -> spec_fn((YoutubeChannel, u64)) -> bool {
    |e: (YoutubeChannel, u64)| e.1 <= now
}

/// Whether some entry carries the value `v`.
pub open spec fn has_value(s: Seq<(YoutubeChannel, u64)>, v: u64) -> bool {
    exists|i: int| 0 <= i < s.len() && (#[trigger] s[i]).1 == v
}

/// All values are at least `v`.
pub open spec fn values_at_least(s: Seq<(YoutubeChannel, u64)>, v: u64) -> bool {
    forall|i: int| 0 <= i < s.len() ==> (#[trigger] s[i]).1 >= v
}

/// A filtered entry list only keeps keys of the original.
proof fn lemma_filter_key_sub<V>(s: Seq<(YoutubeChannel, V)>, pred: spec_fn((YoutubeChannel, V)) -> bool)
    ensures
        forall|x: Seq<char>| has_key(#[trigger] s.filter(pred), x) ==> has_key(s, x),
    decreases s.len(),
{
    reveal(Seq::filter);
    if s.len() > 0 {
        let d = s.drop_last();
        lemma_filter_key_sub(d, pred);
        assert forall|x: Seq<char>| has_key(s.filter(pred), x) implies has_key(s, x) by {
            let f = s.filter(pred);
            let fd = d.filter(pred);
            let i = choose|i: int| 0 <= i < f.len() && (#[trigger] f[i]).0@ == x;
            if pred(s.last()) && i == f.len() - 1 {
                assert(f == fd.push(s.last()));
                assert(s[s.len() - 1] == s.last());
                assert(has_key(s, x));
            } else {
                assert(f[i] == fd[i]);
                assert(has_key(fd, x));
                assert(has_key(d, x));
                let j = choose|j: int| 0 <= j < d.len() && (#[trigger] d[j]).0@ == x;
                assert(s[j] == d[j]);
                assert(has_key(s, x));
            }
        }
    }
}

/// Filtering preserves distinctness of keys.
proof fn lemma_filter_unique_keys<V>(
    s: Seq<(YoutubeChannel, V)>,
    pred: spec_fn((YoutubeChannel, V)) -> bool,
)
    requires
        unique_keys(s),
    ensures
        unique_keys(s.filter(pred)),
    decreases s.len(),
{
    reveal(Seq::filter);
    if s.len() > 0 {
        let d = s.drop_last();
        assert(unique_keys(d)) by {
            assert(forall|i: int| 0 <= i < d.len() ==> d[i] == s[i]);
        }
        lemma_filter_unique_keys(d, pred);
        lemma_filter_key_sub(d, pred);
        if pred(s.last()) {
            let f = s.filter(pred);
            let fd = d.filter(pred);
            assert forall|i: int, j: int| 0 <= i < j < f.len() implies f[i].0@ != f[j].0@ by {
                if j < f.len() - 1 {
                    assert(fd[i] == f[i] && fd[j] == f[j]);
                } else {
                    assert(fd[i] == f[i]);
                    assert(has_key(fd, f[i].0@));
                    assert(has_key(d, f[i].0@));
                    let k = choose|k: int| 0 <= k < d.len() && d[k].0@ == f[i].0@;
                    assert(s[k] == d[k]);
                    assert(s[k].0@ != s[s.len() - 1].0@);
                }
            }
        }
    }
}

/// A filter that keeps every element is the identity.
proof fn lemma_filter_all<V>(s: Seq<(YoutubeChannel, V)>, pred: spec_fn((YoutubeChannel, V)) -> bool)
    requires
        forall|i: int| 0 <= i < s.len() ==> pred(#[trigger] s[i]),
    ensures
        s.filter(pred) == s,
    decreases s.len(),
{
    reveal(Seq::filter);
    if s.len() > 0 {
        let d = s.drop_last();
        assert(forall|i: int| 0 <= i < d.len() ==> pred(#[trigger] d[i])) by {
            assert(forall|i: int| 0 <= i < d.len() ==> d[i] == s[i]);
        }
        lemma_filter_all(d, pred);
        assert(s.filter(pred) =~= s);
    } else {
        assert(s.filter(pred) =~= s);
    }
}

/// With distinct keys, dropping the entry at `i` is the same as filtering
/// its key out.
proof fn lemma_unique_remove_is_filter<V>(s: Seq<(YoutubeChannel, V)>, i: int, t: Seq<char>)
    requires
        unique_keys(s),
        0 <= i < s.len(),
        s[i].0@ == t,
    ensures
        s.remove(i) == s.filter(key_ne(t)),
    decreases s.len(),
{
    reveal(Seq::filter);
    let pred = key_ne::<V>(t);
    let d = s.drop_last();
    assert(unique_keys(d)) by {
        assert(forall|k: int| 0 <= k < d.len() ==> d[k] == s[k]);
    }
    if i == s.len() - 1 {
        assert(!pred(s.last()));
        assert(forall|k: int| 0 <= k < d.len() ==> pred(#[trigger] d[k])) by {
            assert(forall|k: int| 0 <= k < d.len() ==> d[k] == s[k]);
        }
        lemma_filter_all(d, pred);
        assert(s.remove(i) =~= d);
    } else {
        assert(pred(s.last()));
        assert(d[i] == s[i]);
        lemma_unique_remove_is_filter(d, i, t);
        assert(s.remove(i) =~= d.remove(i).push(s.last()));
        assert(s.filter(pred) == d.filter(pred).push(s.last()));
    }
}

/// The instant at which a confirmed subscription is due for renewal: ten
/// minutes before the granted lease expires, and never before `now` itself
/// (a short lease is immediately due again).
pub open spec fn lease_expiry(now: u64, lease_seconds: u64) -> int {
    now + if lease_seconds >= RENEWAL_MARGIN_SECS {
        (lease_seconds - RENEWAL_MARGIN_SECS) as int
    } else {
        0
    }
}

/// `t` is the first topic in configuration order that is neither pending
/// nor subscribed: the reconciler's subscribe candidate.
pub open spec fn first_candidate(l: Ledger, cfg: YoutubeConfig, t: Seq<char>) -> bool {
    exists|i: int|
        0 <= i < cfg.subscriptions@.len() && (#[trigger] cfg.subscriptions@[i]).0@ == t
            && !l.tracked_topic(t) && (forall|j: int|
            0 <= j < i ==> l.tracked_topic((#[trigger] cfg.subscriptions@[j]).0@))
}

/// Every desired topic is already pending or subscribed.
pub open spec fn no_candidate(l: Ledger, cfg: YoutubeConfig) -> bool {
    forall|i: int|
        0 <= i < cfg.subscriptions@.len() ==> l.tracked_topic((#[trigger] cfg.subscriptions@[i]).0@)
}

/// The subscription ledger. A topic appears at most once in `pending`, at
/// most once in `subscribed`, and never in both at the same time.
pub struct Ledger {
    pending: Vec<(YoutubeChannel, u64)>,
    subscribed: Vec<(YoutubeChannel, u64)>,
}

/// `w` is a correct wake time for ledger `l` at instant `now`: the
/// earliest pending deadline or subscription expiry, or `now` plus the
/// far-future idle default when neither exists (which avoids a busy loop).
pub open spec fn wake_at(l: Ledger, now: u64, w: u64) -> bool {
    if l.pending().len() == 0 && l.subscribed().len() == 0 {
        w == now + IDLE_WAKE_SECS
    } else {
        (has_value(l.pending(), w) || has_value(l.subscribed(), w)) && values_at_least(
            l.pending(),
            w,
        ) && values_at_least(l.subscribed(), w)
    }
}

impl Ledger {
    /// Pending entries: topic and confirmation deadline, in insertion
    /// order.
    pub closed spec fn pending(&self) -> Seq<(YoutubeChannel, u64)> {
        self.pending@
    }

    /// Confirmed entries: topic and renewal instant, in insertion order.
    pub closed spec fn subscribed(&self) -> Seq<(YoutubeChannel, u64)> {
        self.subscribed@
    }

    /// No topic is tracked twice, and no topic is both pending and
    /// subscribed.
    pub open spec fn wf(&self) -> bool {
        &&& unique_keys(self.pending())
        &&& unique_keys(self.subscribed())
        &&& forall|i: int, j: int|
            0 <= i < self.pending().len() && 0 <= j < self.subscribed().len() ==> (
            #[trigger] self.pending()[i]).0@ != (#[trigger] self.subscribed()[j]).0@
    }

    /// A topic that is tracked in either part of the ledger.
    pub open spec fn tracked_topic(&self, t: Seq<char>) -> bool {
        has_key(self.pending(), t) || has_key(self.subscribed(), t)
    }

    /// The empty ledger.
    pub fn new() -> (r: Ledger)
        ensures
            r.wf(),
            r.pending() == Seq::<(YoutubeChannel, u64)>::empty(),
            r.subscribed() == Seq::<(YoutubeChannel, u64)>::empty(),
    {
        let r = Ledger { pending: Vec::new(), subscribed: Vec::new() };
        proof {
            assert(r.pending() =~= Seq::<(YoutubeChannel, u64)>::empty());
            assert(r.subscribed() =~= Seq::<(YoutubeChannel, u64)>::empty());
        }
        r
    }

    /// Index of `t` in an entry list, if present.
    fn find(v: &Vec<(YoutubeChannel, u64)>, t: &YoutubeChannel) -> (r: Option<usize>)
        ensures
            r matches Some(i) ==> i < v@.len() && v@[i as int].0@ == t@,
            r is None ==> !has_key(v@, t@),
    {
        let n = v.len();
        let mut i: usize = 0;
        while i < n
            invariant
                n == v@.len(),
                i <= n,
                forall|j: int| 0 <= j < i ==> (#[trigger] v@[j]).0@ != t@,
            decreases n - i,
        {
            if v[i].0 == *t {
                return Some(i);
            }
            i = i + 1;
        }
        None
    }

    /// Whether a subscribe attempt for `t` is awaiting confirmation.
    pub fn is_pending(&self, t: &YoutubeChannel) -> (r: bool)
        ensures
            r == has_key(self.pending(), t@),
    {
        Self::find(&self.pending, t).is_some()
    }

    /// The confirmation deadline of the pending attempt for `t`, if any.
    pub fn pending_until(&self, t: &YoutubeChannel) -> (r: Option<u64>)
        ensures
            (r is Some) == has_key(self.pending(), t@),
            r matches Some(v) ==> exists|i: int|
                0 <= i < self.pending().len() && #[trigger] self.pending()[i] == (
                self.pending()[i].0,
                v,
            ) && self.pending()[i].0@ == t@,
    {
        match Self::find(&self.pending, t) {
            Some(i) => {
                let v = self.pending[i].1;
                proof {
                    assert(self.pending()[i as int] == (self.pending()[i as int].0, v));
                }
                Some(v)
            },
            None => None,
        }
    }

    /// The renewal instant of the subscription for `t`, if any.
    pub fn subscribed_until(&self, t: &YoutubeChannel) -> (r: Option<u64>)
        ensures
            (r is Some) == has_key(self.subscribed(), t@),
            r matches Some(v) ==> exists|i: int|
                0 <= i < self.subscribed().len() && #[trigger] self.subscribed()[i] == (
                self.subscribed()[i].0,
                v,
            ) && self.subscribed()[i].0@ == t@,
    {
        match Self::find(&self.subscribed, t) {
            Some(i) => {
                let v = self.subscribed[i].1;
                proof {
                    assert(self.subscribed()[i as int] == (self.subscribed()[i as int].0, v));
                }
                Some(v)
            },
            None => None,
        }
    }

    /// Whether `t` is currently subscribed.
    pub fn is_subscribed(&self, t: &YoutubeChannel) -> (r: bool)
        ensures
            r == has_key(self.subscribed(), t@),
    {
        Self::find(&self.subscribed, t).is_some()
    }
}

/// Filtering one key out keeps exactly the other keys.
proof fn lemma_filter_key_ne<V>(s: Seq<(YoutubeChannel, V)>, t: Seq<char>)
    ensures
        forall|x: Seq<char>|
            has_key(#[trigger] s.filter(key_ne(t)), x) <==> (has_key(s, x) && x != t),
{
    let pred = key_ne::<V>(t);
    lemma_filter_key_sub(s, pred);
    let f = s.filter(pred);
    assert forall|x: Seq<char>| has_key(f, x) <==> (has_key(s, x) && x != t) by {
        broadcast use vstd::seq_lib::group_filter_ensures;

        if has_key(f, x) {
            let i = choose|i: int| 0 <= i < f.len() && (#[trigger] f[i]).0@ == x;
            assert(pred(f[i]));
        }
        if has_key(s, x) && x != t {
            let j = choose|j: int| 0 <= j < s.len() && (#[trigger] s[j]).0@ == x;
            assert(pred(s[j]));
            assert(f.contains(s[j]));
            let k = choose|k: int| 0 <= k < f.len() && f[k] == s[j];
            assert(f[k].0@ == x);
        }
    }
}

impl Ledger {
    /// Remove the entry for `t`, if any, from one entry list.
    fn remove_key(v: &mut Vec<(YoutubeChannel, u64)>, t: &YoutubeChannel)
        requires
            unique_keys(old(v)@),
        ensures
            final(v)@ == old(v)@.filter(key_ne(t@)),
    {
        match Self::find(v, t) {
            Some(i) => {
                let ghost s = v@;
                v.remove(i);
                proof {
                    lemma_unique_remove_is_filter(s, i as int, t@);
                    assert(final(v)@ =~= s.remove(i as int));
                }
            },
            None => {
                proof {
                    assert forall|k: int| 0 <= k < v@.len() implies key_ne::<u64>(t@)(
                        #[trigger] v@[k],
                    ) by {
                        assert(!has_key(v@, t@));
                    }
                    lemma_filter_all(v@, key_ne(t@));
                }
            },
        }
    }

    /// Drop every entry whose time has passed, handing back the dropped
    /// topics in order.
    fn retain_alive(v: &mut Vec<(YoutubeChannel, u64)>, now: u64) -> (dropped: Vec<YoutubeChannel>)
        ensures
            final(v)@ == old(v)@.filter(alive_after(now)),
            dropped@.map_values(|c: YoutubeChannel| c@) == old(v)@.filter(expired_by(now)).map_values(
                |e: (YoutubeChannel, u64)| e.0@,
            ),
    {
        let ghost orig = v@;
        let mut kept: Vec<(YoutubeChannel, u64)> = Vec::new();
        let mut dropped: Vec<YoutubeChannel> = Vec::new();
        proof {
            assert(orig.take(0) =~= Seq::<(YoutubeChannel, u64)>::empty());
            reveal(Seq::filter);
            assert(kept@ =~= orig.take(0).filter(alive_after(now)));
            assert(dropped@.map_values(|c: YoutubeChannel| c@) =~= orig.take(0).filter(
                expired_by(now),
            ).map_values(|e: (YoutubeChannel, u64)| e.0@));
        }
        while v.len() > 0
            invariant
                v@.len() <= orig.len(),
                v@ == orig.skip(orig.len() - v@.len()),
                kept@ == orig.take(orig.len() - v@.len()).filter(alive_after(now)),
                dropped@.map_values(|c: YoutubeChannel| c@) == orig.take(
                    orig.len() - v@.len(),
                ).filter(expired_by(now)).map_values(|e: (YoutubeChannel, u64)| e.0@),
            decreases v@.len(),
        {
            let ghost k = orig.len() - v@.len();
            let e = v.remove(0);
            proof {
                assert(e == orig[k]);
                assert(v@ =~= orig.skip(k + 1));
                let tk = orig.take(k + 1);
                assert(tk.drop_last() =~= orig.take(k));
                assert(tk.last() == orig[k]);
                reveal(Seq::filter);
            }
            if e.1 > now {
                kept.push(e);
                proof {
                    reveal(Seq::filter);
                    let tk = orig.take(k + 1);
                    assert(tk.drop_last() =~= orig.take(k));
                    assert(tk.last() == orig[k]);
                    assert(kept@ =~= tk.filter(alive_after(now)));
                    assert(dropped@.map_values(|c: YoutubeChannel| c@) =~= tk.filter(
                        expired_by(now),
                    ).map_values(|e: (YoutubeChannel, u64)| e.0@));
                }
            } else {
                let ghost pre = dropped@;
                dropped.push(e.0);
                proof {
                    reveal(Seq::filter);
                    let tk = orig.take(k + 1);
                    assert(tk.drop_last() =~= orig.take(k));
                    assert(tk.last() == orig[k]);
                    assert(kept@ =~= tk.filter(alive_after(now)));
                    assert(tk.filter(expired_by(now)) == orig.take(k).filter(expired_by(now)).push(
                        orig[k],
                    ));
                    assert(dropped@.map_values(|c: YoutubeChannel| c@) =~= pre.map_values(
                        |c: YoutubeChannel| c@,
                    ).push(e.0@));
                    assert(tk.filter(expired_by(now)).map_values(|e: (YoutubeChannel, u64)| e.0@)
                        =~= orig.take(k).filter(expired_by(now)).map_values(
                        |e: (YoutubeChannel, u64)| e.0@,
                    ).push(orig[k].0@));
                }
            }
        }
        proof {
            assert(orig.take(orig.len() as int) =~= orig);
        }
        *v = kept;
        dropped
    }

    /// Expiry sweep: drop every subscribed entry whose renewal instant and
    /// every pending entry whose confirmation deadline has passed. The
    /// topics of the dropped pending entries are returned so the caller can
    /// report each validation timeout.
    pub fn sweep(&mut self, now: u64) -> (timed_out: Vec<YoutubeChannel>)
        requires
            old(self).wf(),
        ensures
            final(self).wf(),
            final(self).pending() == old(self).pending().filter(alive_after(now)),
            final(self).subscribed() == old(self).subscribed().filter(alive_after(now)),
            timed_out@.map_values(|c: YoutubeChannel| c@) == old(self).pending().filter(
                expired_by(now),
            ).map_values(|e: (YoutubeChannel, u64)| e.0@),
    {
        let timed_out = Self::retain_alive(&mut self.pending, now);
        let _ = Self::retain_alive(&mut self.subscribed, now);
        proof {
            lemma_filter_unique_keys(old(self).pending(), alive_after(now));
            lemma_filter_unique_keys(old(self).subscribed(), alive_after(now));
            lemma_filter_key_sub(old(self).pending(), alive_after(now));
            lemma_filter_key_sub(old(self).subscribed(), alive_after(now));
            assert forall|i: int, j: int|
                0 <= i < final(self).pending().len() && 0 <= j
                    < final(self).subscribed().len() implies (
            #[trigger] final(self).pending()[i]).0@ != (
            #[trigger] final(self).subscribed()[j]).0@ by {
                let x = final(self).pending()[i].0@;
                let y = final(self).subscribed()[j].0@;
                assert(has_key(final(self).pending(), x));
                assert(has_key(final(self).subscribed(), y));
                assert(has_key(old(self).pending(), x));
                assert(has_key(old(self).subscribed(), y));
                if x == y {
                    let a = choose|a: int|
                        0 <= a < old(self).pending().len() && (#[trigger] old(
                            self,
                        ).pending()[a]).0@ == x;
                    let b = choose|b: int|
                        0 <= b < old(self).subscribed().len() && (#[trigger] old(
                            self,
                        ).subscribed()[b]).0@ == y;
                    assert(old(self).pending()[a].0@ != old(self).subscribed()[b].0@);
                }
            }
        }
        timed_out
    }

    /// Track a freshly issued subscribe attempt: `topic` must not be
    /// tracked yet, and becomes pending until `deadline`.
    pub fn insert_pending(&mut self, topic: YoutubeChannel, deadline: u64)
        requires
            old(self).wf(),
            !old(self).tracked_topic(topic@),
        ensures
            final(self).wf(),
            final(self).pending() == old(self).pending().push((topic, deadline)),
            final(self).subscribed() == old(self).subscribed(),
    {
        proof {
            assert forall|i: int| 0 <= i < self.pending@.len() implies (
            #[trigger] self.pending@[i]).0@ != topic@ by {
                assert(!has_key(old(self).pending(), topic@));
            }
            assert forall|j: int| 0 <= j < self.subscribed@.len() implies (
            #[trigger] self.subscribed@[j]).0@ != topic@ by {
                assert(!has_key(old(self).subscribed(), topic@));
            }
        }
        self.pending.push((topic, deadline));
    }

    /// Record a confirmed subscription: `topic` must not be tracked yet,
    /// and becomes subscribed until `expiry`.
    pub fn insert_subscribed(&mut self, topic: YoutubeChannel, expiry: u64)
        requires
            old(self).wf(),
            !old(self).tracked_topic(topic@),
        ensures
            final(self).wf(),
            final(self).subscribed() == old(self).subscribed().push((topic, expiry)),
            final(self).pending() == old(self).pending(),
    {
        proof {
            assert forall|i: int| 0 <= i < self.subscribed@.len() implies (
            #[trigger] self.subscribed@[i]).0@ != topic@ by {
                assert(!has_key(old(self).subscribed(), topic@));
            }
            assert forall|j: int| 0 <= j < self.pending@.len() implies (
            #[trigger] self.pending@[j]).0@ != topic@ by {
                assert(!has_key(old(self).pending(), topic@));
            }
        }
        self.subscribed.push((topic, expiry));
    }

    /// Forget the pending attempt for `t`, if any.
    pub fn remove_pending(&mut self, t: &YoutubeChannel)
        requires
            old(self).wf(),
        ensures
            final(self).wf(),
            final(self).pending() == old(self).pending().filter(key_ne(t@)),
            final(self).subscribed() == old(self).subscribed(),
            !has_key(final(self).pending(), t@),
            forall|x: Seq<char>|
                has_key(final(self).pending(), x) <==> (has_key(old(self).pending(), x) && x
                    != t@),
    {
        Self::remove_key(&mut self.pending, t);
        proof {
            lemma_filter_unique_keys(old(self).pending(), key_ne(t@));
            lemma_filter_key_sub(old(self).pending(), key_ne(t@));
            lemma_filter_key_ne(old(self).pending(), t@);
            assert forall|i: int, j: int|
                0 <= i < final(self).pending().len() && 0 <= j
                    < final(self).subscribed().len() implies (
            #[trigger] final(self).pending()[i]).0@ != (
            #[trigger] final(self).subscribed()[j]).0@ by {
                let x = final(self).pending()[i].0@;
                assert(has_key(final(self).pending(), x));
                assert(has_key(old(self).pending(), x));
                let a = choose|a: int|
                    0 <= a < old(self).pending().len() && (#[trigger] old(self).pending()[a]).0@
                        == x;
                assert(old(self).pending()[a].0@ != old(self).subscribed()[j].0@);
            }
        }
    }

    /// Forget the confirmed subscription for `t`, if any.
    pub fn remove_subscribed(&mut self, t: &YoutubeChannel)
        requires
            old(self).wf(),
        ensures
            final(self).wf(),
            final(self).subscribed() == old(self).subscribed().filter(key_ne(t@)),
            final(self).pending() == old(self).pending(),
            !has_key(final(self).subscribed(), t@),
            forall|x: Seq<char>|
                has_key(final(self).subscribed(), x) <==> (has_key(old(self).subscribed(), x) && x
                    != t@),
    {
        Self::remove_key(&mut self.subscribed, t);
        proof {
            lemma_filter_unique_keys(old(self).subscribed(), key_ne(t@));
            lemma_filter_key_sub(old(self).subscribed(), key_ne(t@));
            lemma_filter_key_ne(old(self).subscribed(), t@);
            assert forall|i: int, j: int|
                0 <= i < final(self).pending().len() && 0 <= j
                    < final(self).subscribed().len() implies (
            #[trigger] final(self).pending()[i]).0@ != (
            #[trigger] final(self).subscribed()[j]).0@ by {
                let y = final(self).subscribed()[j].0@;
                assert(has_key(final(self).subscribed(), y));
                assert(has_key(old(self).subscribed(), y));
                let b = choose|b: int|
                    0 <= b < old(self).subscribed().len() && (#[trigger] old(
                        self,
                    ).subscribed()[b]).0@ == y;
                assert(old(self).pending()[i].0@ != old(self).subscribed()[b].0@);
            }
        }
    }

    /// Fold the minimum entry value into `acc`.
    fn fold_min(v: &Vec<(YoutubeChannel, u64)>, acc: Option<u64>) -> (r: Option<u64>)
        ensures
            (r is None) == (acc is None && v@.len() == 0),
            r matches Some(m) ==> (has_value(v@, m) || acc == Some(m)) && values_at_least(v@, m)
                && (acc matches Some(a) ==> m <= a),
    {
        let n = v.len();
        let mut best = acc;
        let mut i: usize = 0;
        while i < n
            invariant
                n == v@.len(),
                i <= n,
                (best is None) == (acc is None && i == 0),
                best matches Some(m) ==> (has_value(v@, m) || acc == Some(m)) && (forall|j: int|
                    0 <= j < i ==> (#[trigger] v@[j]).1 >= m) && (acc matches Some(a) ==> m <= a),
            decreases n - i,
        {
            let d = v[i].1;
            let better = match best {
                Some(m) => d < m,
                None => true,
            };
            if better {
                best = Some(d);
            }
            i = i + 1;
        }
        best
    }

    /// The next instant at which the reconciler should wake: the earliest
    /// pending deadline or subscription expiry, or a far-future default
    /// when neither exists.
    pub fn next_wake(&self, now: u64) -> (r: u64)
        requires
            now + IDLE_WAKE_SECS <= u64::MAX,
        ensures
            wake_at(*self, now, r),
    {
        let first = Self::fold_min(&self.pending, None);
        let both = Self::fold_min(&self.subscribed, first);
        match both {
            Some(m) => m,
            None => now + IDLE_WAKE_SECS,
        }
    }

    /// The first desired topic, in configuration order, that is neither
    /// pending nor subscribed: the reconciler's next subscribe candidate.
    pub fn candidate(&self, cfg: &YoutubeConfig) -> (r: Option<YoutubeChannel>)
        ensures
            r matches Some(t) ==> first_candidate(*self, *cfg, t@),
            r is None ==> no_candidate(*self, *cfg),
    {
        let n = cfg.subscriptions.len();
        let mut i: usize = 0;
        while i < n
            invariant
                n == cfg.subscriptions@.len(),
                i <= n,
                forall|j: int|
                    0 <= j < i ==> self.tracked_topic((#[trigger] cfg.subscriptions@[j]).0@),
            decreases n - i,
        {
            let t = &cfg.subscriptions[i].0;
            if !self.is_pending(t) && !self.is_subscribed(t) {
                return Some(t.duplicate());
            }
            i = i + 1;
        }
        None
    }
}

impl YoutubeConfig {
    /// Desired topics are pairwise distinct: the set is a mapping.
    pub open spec fn wf(&self) -> bool {
        unique_keys(self.subscriptions@)
    }

    /// Whether `t` is a desired topic.
    pub open spec fn desired(&self, t: Seq<char>) -> bool {
        has_key(self.subscriptions@, t)
    }

    /// Index of the desired topic `t`.
    pub open spec fn key_index(&self, t: Seq<char>) -> int {
        choose|i: int|
            0 <= i < self.subscriptions@.len() && (#[trigger] self.subscriptions@[i]).0@ == t
    }

    /// The announcement rule of the desired topic `t`.
    pub open spec fn rule_of(&self, t: Seq<char>) -> Subscription {
        self.subscriptions@[self.key_index(t)].1
    }

    /// The announcement rule for `topic`, if it is desired.
    pub fn rule_for<'a>(&'a self, topic: &YoutubeChannel) -> (r: Option<&'a Subscription>)
        requires
            self.wf(),
        ensures
            (r is Some) == self.desired(topic@),
            r matches Some(s) ==> *s == self.rule_of(topic@),
    {
        let n = self.subscriptions.len();
        let mut i: usize = 0;
        while i < n
            invariant
                n == self.subscriptions@.len(),
                i <= n,
                self.wf(),
                forall|j: int| 0 <= j < i ==> (#[trigger] self.subscriptions@[j]).0@ != topic@,
            decreases n - i,
        {
            if self.subscriptions[i].0 == *topic {
                proof {
                    let k = self.key_index(topic@);
                    assert(0 <= k < self.subscriptions@.len() && self.subscriptions@[k].0@
                        == topic@);
                    assert(k == i as int);
                }
                return Some(&self.subscriptions[i].1);
            }
            i = i + 1;
        }
        None
    }
}

impl Default for YoutubeConfig {
    /// The startup configuration: disabled, with no desired topics.
    fn default() -> (r: YoutubeConfig)
        ensures
            !r.enabled,
            r.subscriptions@.len() == 0,
            r.log_channel is None,
            r.wf(),
    {
        YoutubeConfig { enabled: false, subscriptions: Vec::new(), log_channel: None }
    }
}

/// A topic is never simultaneously pending and subscribed: the two parts
/// of a well-formed ledger are key-disjoint, and every function here keeps
/// the ledger well formed.
pub proof fn lemma_never_pending_and_subscribed(l: Ledger, t: Seq<char>)
    requires
        l.wf(),
    ensures
        !(has_key(l.pending(), t) && has_key(l.subscribed(), t)),
{
    if has_key(l.pending(), t) && has_key(l.subscribed(), t) {
        let i = choose|i: int| 0 <= i < l.pending().len() && (#[trigger] l.pending()[i]).0@ == t;
        let j = choose|j: int|
            0 <= j < l.subscribed().len() && (#[trigger] l.subscribed()[j]).0@ == t;
        assert(l.pending()[i].0@ != l.subscribed()[j].0@);
    }
}

/// Retry determinism: a failed subscribe attempt leaves the ledger exactly
/// as it was, so as long as nothing in it has expired by the next tick,
/// that tick's expiry sweep keeps every entry and the same topic is again
/// the first candidate, to be retried.
pub proof fn lemma_failed_attempt_retried(
    l: Ledger,
    swept: Ledger,
    cfg: YoutubeConfig,
    t: Seq<char>,
    now: u64,
)
    requires
        first_candidate(l, cfg, t),
        forall|i: int| 0 <= i < l.pending().len() ==> (#[trigger] l.pending()[i]).1 > now,
        forall|i: int| 0 <= i < l.subscribed().len() ==> (#[trigger] l.subscribed()[i]).1 > now,
        swept.pending() == l.pending().filter(alive_after(now)),
        swept.subscribed() == l.subscribed().filter(alive_after(now)),
    ensures
        first_candidate(swept, cfg, t),
{
    assert(forall|i: int|
        0 <= i < l.pending().len() ==> alive_after(now)(#[trigger] l.pending()[i]));
    assert(forall|i: int|
        0 <= i < l.subscribed().len() ==> alive_after(now)(#[trigger] l.subscribed()[i]));
    lemma_filter_all(l.pending(), alive_after(now));
    lemma_filter_all(l.subscribed(), alive_after(now));
    assert(swept.pending() == l.pending());
    assert(swept.subscribed() == l.subscribed());
    let i = choose|i: int|
        0 <= i < cfg.subscriptions@.len() && (#[trigger] cfg.subscriptions@[i]).0@ == t
            && !l.tracked_topic(t) && (forall|j: int|
            0 <= j < i ==> l.tracked_topic((#[trigger] cfg.subscriptions@[j]).0@));
    assert(0 <= i < cfg.subscriptions@.len() && cfg.subscriptions@[i].0@ == t && !swept.tracked_topic(
        t,
    ) && (forall|j: int| 0 <= j < i ==> swept.tracked_topic((#[trigger] cfg.subscriptions@[j]).0@)));
}

} // verus!
