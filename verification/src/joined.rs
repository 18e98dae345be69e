//! Join-date command module configuration: where the command may be used
//! and its cooldown. The interaction handling itself happens outside this
//! library.

use vstd::prelude::*;

use crate::commands::{spec_cooldown_left, spec_is_whitelist};
use crate::text::{spec_dec, u64_to_string};
use std::collections::HashSet;

verus! {

broadcast use vstd::std_specs::hash::group_hash_axioms;

#[derive(Debug)]
pub struct JoinedConfig {
    pub enabled: bool,
    pub whitelist: Option<bool>,
    pub channels: HashSet<u64>,
    pub cooldown: u32,
}

impl JoinedConfig {
    pub fn is_whitelist(&self) -> (r: bool)
        ensures
            r == spec_is_whitelist(self.whitelist),
    {
        self.whitelist.unwrap_or(true)
    }

    /// The command is allowed in a channel when membership in the channel
    /// list matches the list's polarity.
    pub fn allowed(&self, channel_id: u64) -> (r: bool)
        ensures
            r == (self.channels@.contains(channel_id) == spec_is_whitelist(self.whitelist)),
    {
        self.channels.contains(&channel_id) == self.is_whitelist()
    }
}

impl Default for JoinedConfig {
    /// The startup configuration: disabled, an (empty) whitelist, no
    /// cooldown.
    fn default() -> (r: JoinedConfig)
        ensures
            !r.enabled,
            r.whitelist == Some(true),
            r.channels@ == Set::<u64>::empty(),
            r.cooldown == 0,
    {
        JoinedConfig { enabled: false, whitelist: Some(true), channels: HashSet::new(), cooldown: 0 }
    }
}

/// The module's state: its configuration and when the command was last
/// triggered (seconds on a monotonic clock).
#[derive(Debug)]
pub struct Joined {
    pub config: JoinedConfig,
    pub last: Option<u64>,
}

impl Joined {
    /// Seconds of cooldown left at instant `now`; the dispatcher consumes
    /// an interaction only while more than one second is left.
    pub fn cooldown_left(&self, now: u64) -> (r: u64)
        requires
            self.last matches Some(t) ==> t <= now,
        ensures
            r == spec_cooldown_left(self.config.cooldown, self.last, now),
    {
        match self.last {
            Some(t) => {
                let elapsed = now - t;
                let cd = self.config.cooldown as u64;
                if cd > elapsed {
                    cd - elapsed
                } else {
                    0
                }
            },
            None => 0,
        }
    }

    pub fn new() -> (r: Joined)
        ensures
            !r.config.enabled,
            r.last is None,
    {
        Joined { config: Default::default(), last: None }
    }
}

/// Earliest instant the calendar arithmetic accepts: the start of year 1,
/// comfortably inside the range of the date-time library.
pub const MIN_SHIFT_TS: i64 = -62135596800;

/// Latest instant the calendar arithmetic accepts: the end of year 9999,
/// comfortably inside the range of the date-time library.
pub const MAX_SHIFT_TS: i64 = 253402300799;

/// The timestamp `ts` advanced by this many calendar months (month-end
/// clamped): a function of its arguments alone.
pub uninterp spec fn months_shifted(ts: i64, months: u32) -> i64;

/// `ts` advanced year by year, `n` times.
pub open spec fn years_added(ts: i64, n: nat) -> i64
    decreases n,
{
    if n == 0 {
        ts
    } else {
        months_shifted(years_added(ts, (n - 1) as nat), 12)
    }
}

/// `ts` advanced month by month, `n` times.
pub open spec fn months_added(ts: i64, n: nat) -> i64
    decreases n,
{
    if n == 0 {
        ts
    } else {
        months_shifted(months_added(ts, (n - 1) as nat), 1)
    }
}

/// Relies on `chronoutil::shift_months` over a UTC date-time: the shifted
/// date depends on the timestamp and the month count alone, and advancing a
/// date by at least one month lands strictly later.
#[verifier::external_body]
fn shift_months_ts(ts: i64, months: u32) -> (r: i64)
    requires
        MIN_SHIFT_TS <= ts <= MAX_SHIFT_TS,
        1 <= months <= 12,
    ensures
        r == months_shifted(ts, months),
        ts < r,
{
    let dt = chrono::DateTime::<chrono::Utc>::from_timestamp(ts, 0).unwrap();
    chronoutil::shift_months(dt, months as i32).timestamp()
}

/// `n` of a unit, pluralized: `4 seconds`, `1 week`.
pub open spec fn unit_piece(n: u64, name: Seq<char>) -> Seq<char> {
    spec_dec(n as nat) + seq![' '] + name + (if n == 1 {
        Seq::<char>::empty()
    } else {
        "s"@
    })
}

/// The sub-month unit sizes, in seconds: week, day, hour, minute, second.
pub open spec fn spec_part_size(i: nat) -> u64 {
    if i == 0 {
        604800
    } else if i == 1 {
        86400
    } else if i == 2 {
        3600
    } else if i == 3 {
        60
    } else {
        1
    }
}

/// The sub-month unit names.
pub open spec fn spec_part_name(i: nat) -> Seq<char> {
    if i == 0 {
        "week"@
    } else if i == 1 {
        "day"@
    } else if i == 2 {
        "hour"@
    } else if i == 3 {
        "minute"@
    } else {
        "second"@
    }
}

/// The sub-month components of `secs`, from unit `i` on, with `n` components
/// already written: each non-zero amount is rendered (with a separating
/// space after an earlier component) until four components in total have
/// been written.
pub open spec fn spec_tail_units(secs: u64, i: nat, n: nat) -> Seq<char>
    decreases 5 - i,
{
    if i >= 5 || n >= 4 {
        Seq::<char>::empty()
    } else {
        let size = spec_part_size(i);
        let amount = secs / size;
        let rest = spec_tail_units(secs % size, i + 1, n + (if amount > 0 {
            1nat
        } else {
            0nat
        }));
        if amount > 0 {
            (if n > 0 {
                seq![' ']
            } else {
                Seq::<char>::empty()
            }) + unit_piece(amount, spec_part_name(i)) + rest
        } else {
            rest
        }
    }
}

/// The rendering of a duration split into `y` years, `m` months and `secs`
/// remaining seconds: at most four components, then `ago` or `from now`.
pub open spec fn spec_duration_text(y: u64, m: u64, secs: u64, past: bool) -> Seq<char> {
    let head = if y > 0 {
        unit_piece(y, "year"@)
    } else {
        Seq::<char>::empty()
    };
    let head2 = head + (if m > 0 {
        (if y > 0 {
            seq![' ']
        } else {
            Seq::<char>::empty()
        }) + unit_piece(m, "month"@)
    } else {
        Seq::<char>::empty()
    });
    let n0: nat = (if y > 0 {
        1nat
    } else {
        0nat
    }) + (if m > 0 {
        1nat
    } else {
        0nat
    });
    head2 + spec_tail_units(secs, 0, n0) + (if past {
        " ago"@
    } else {
        " from now"@
    })
}

/// Append one rendered component, preceded by a space unless it is the
/// first.
fn push_unit(out: &mut String, amount: u64, name: &'static str, first: bool)
    requires
        1 <= amount,
    ensures
        final(out)@ == old(out)@ + (if first {
            Seq::<char>::empty()
        } else {
            seq![' ']
        }) + unit_piece(amount, name@),
{
    proof {
        reveal_strlit(" ");
        assert(" "@ =~= seq![' ']);
    }
    if !first {
        out.append(" ");
    }
    let d = u64_to_string(amount);
    out.append(d.as_str());
    out.append(" ");
    out.append(name);
    if amount != 1 {
        out.append("s");
    }
    proof {
        assert(final(out)@ =~= old(out)@ + (if first {
            Seq::<char>::empty()
        } else {
            seq![' ']
        }) + unit_piece(amount, name@));
    }
}

fn part_size(i: usize) -> (r: u64)
    requires
        i < 5,
    ensures
        r == spec_part_size(i as nat),
        r >= 1,
{
    if i == 0 {
        604800
    } else if i == 1 {
        86400
    } else if i == 2 {
        3600
    } else if i == 3 {
        60
    } else {
        1
    }
}

fn part_name(i: usize) -> (r: &'static str)
    requires
        i < 5,
    ensures
        r@ == spec_part_name(i as nat),
{
    if i == 0 {
        "week"
    } else if i == 1 {
        "day"
    } else if i == 2 {
        "hour"
    } else if i == 3 {
        "minute"
    } else {
        "second"
    }
}

/// The rendering `r` of the distance from `from` to `now` is correct for
/// the split into `y` whole calendar years and `m` whole calendar months:
/// both counts are maximal (one more shift would pass `now`), and the text
/// renders the counts and the remaining seconds.
pub open spec fn duration_text_ok(from: i64, now: i64, y: u64, m: u64, r: Seq<char>) -> bool {
    let lo = if from <= now {
        from
    } else {
        now
    };
    let hi = if from <= now {
        now
    } else {
        from
    };
    let dt1 = years_added(lo, y as nat);
    let dt2 = months_added(dt1, m as nat);
    &&& dt1 <= hi
    &&& months_shifted(dt1, 12) > hi
    &&& dt2 <= hi
    &&& months_shifted(dt2, 1) > hi
    &&& r == spec_duration_text(y, m, (hi - dt2) as u64, now > from)
}

/// A pair of instants rendered as a human-readable distance, calendar
/// years and months first (`7 years 19 hours 19 minutes 4 seconds ago`).
pub struct ReadableDuration {
    pub from: i64,
    pub now: i64,
}

impl ReadableDuration {
    /// A duration from `date_time` to `now`, both seconds since the epoch.
    pub fn new(date_time: i64, now: i64) -> (r: ReadableDuration)
        ensures
            r.from == date_time,
            r.now == now,
    {
        ReadableDuration { from: date_time, now }
    }

    /// Render the distance between the two instants: whole calendar years,
    /// then whole calendar months, then week/day/hour/minute/second parts,
    /// at most four components in all, oldest unit first.
    pub fn render(&self) -> (r: String)
        requires
            MIN_SHIFT_TS <= self.from <= MAX_SHIFT_TS,
            MIN_SHIFT_TS <= self.now <= MAX_SHIFT_TS,
        ensures
            self.from == self.now ==> r@ == "right now"@,
            self.from != self.now ==> exists|y: u64, m: u64|
                #[trigger] duration_text_ok(self.from, self.now, y, m, r@),
    {
        if self.from == self.now {
            return "right now".to_owned();
        }
        let past = self.now > self.from;
        let lo: i64 = if self.from <= self.now {
            self.from
        } else {
            self.now
        };
        let hi: i64 = if self.from <= self.now {
            self.now
        } else {
            self.from
        };

        let mut dt: i64 = lo;
        let mut y: u64 = 0;
        let mut sh = shift_months_ts(dt, 12);
        while sh <= hi
            invariant
                MIN_SHIFT_TS <= lo <= dt <= hi <= MAX_SHIFT_TS,
                dt == years_added(lo, y as nat),
                sh == months_shifted(dt, 12),
                dt < sh,
                lo + y <= dt,
            decreases hi - dt,
        {
            dt = sh;
            y = y + 1;
            sh = shift_months_ts(dt, 12);
        }
        let ghost dt1 = dt;

        let mut m: u64 = 0;
        let mut sh2 = shift_months_ts(dt, 1);
        while sh2 <= hi
            invariant
                MIN_SHIFT_TS <= lo <= dt <= hi <= MAX_SHIFT_TS,
                dt == months_added(dt1, m as nat),
                sh2 == months_shifted(dt, 1),
                dt < sh2,
                dt1 + m <= dt,
            decreases hi - dt,
        {
            dt = sh2;
            m = m + 1;
            sh2 = shift_months_ts(dt, 1);
        }
        let ghost dt2 = dt;

        let mut secs: u64 = (hi - dt) as u64;
        let ghost secs0 = secs;

        let mut out = String::new();
        let mut n: u64 = 0;
        if y > 0 {
            push_unit(&mut out, y, "year", true);
            n = n + 1;
        }
        if m > 0 {
            push_unit(&mut out, m, "month", y == 0);
            n = n + 1;
        }
        let ghost n0 = n as nat;
        let ghost head2 = out@;
        proof {
            assert(head2 =~= (if y > 0 {
                unit_piece(y, "year"@)
            } else {
                Seq::<char>::empty()
            }) + (if m > 0 {
                (if y > 0 {
                    seq![' ']
                } else {
                    Seq::<char>::empty()
                }) + unit_piece(m, "month"@)
            } else {
                Seq::<char>::empty()
            }));
        }

        let mut i: usize = 0;
        while i < 5
            invariant
                i <= 5,
                n <= 4,
                n0 <= n,
                head2 + spec_tail_units(secs0, 0, n0) == out@ + spec_tail_units(
                    secs,
                    i as nat,
                    n as nat,
                ),
            decreases 5 - i,
        {
            let size = part_size(i);
            let ghost pre = out@;
            let ghost pre_secs = secs;
            let ghost pre_n = n as nat;
            if n < 4 {
                let amount = secs / size;
                if amount > 0 {
                    push_unit(&mut out, amount, part_name(i), n == 0);
                    n = n + 1;
                }
                secs = secs % size;
                proof {
                    if amount > 0 {
                        assert(pre + ((if pre_n > 0 {
                            seq![' ']
                        } else {
                            Seq::<char>::empty()
                        }) + unit_piece(amount, spec_part_name(i as nat)) + spec_tail_units(
                            secs,
                            (i + 1) as nat,
                            pre_n + 1,
                        )) =~= out@ + spec_tail_units(secs, (i + 1) as nat, pre_n + 1));
                    }
                }
            } else {
                proof {
                    assert(spec_tail_units(pre_secs, i as nat, pre_n) == Seq::<char>::empty());
                    assert(spec_tail_units(secs, (i + 1) as nat, n as nat) == Seq::<char>::empty());
                }
            }
            i = i + 1;
        }
        proof {
            assert(spec_tail_units(secs, 5, n as nat) == Seq::<char>::empty());
            assert(out@ =~= head2 + spec_tail_units(secs0, 0, n0));
        }

        if past {
            out.append(" ago");
        } else {
            out.append(" from now");
        }
        proof {
            assert(out@ =~= spec_duration_text(y, m, secs0, past));
            assert(duration_text_ok(self.from, self.now, y, m, out@));
        }
        out
    }
}

} // verus!
