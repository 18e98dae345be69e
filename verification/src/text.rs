//! Verified text helpers shared across the modules: substring matching,
//! pattern replacement, and decimal parsing and formatting.

use vstd::prelude::*;

verus! {

/// Left-to-right replacement of every non-overlapping occurrence of `pat`
/// (which must be non-empty) by `rep`.
pub open spec fn spec_replace(s: Seq<char>, pat: Seq<char>, rep: Seq<char>) -> Seq<char>
    decreases s.len(),
{
    if s.len() == 0 {
        Seq::<char>::empty()
    } else if 0 < pat.len() <= s.len() && s.subrange(0, pat.len() as int) == pat {
        rep + spec_replace(s.skip(pat.len() as int), pat, rep)
    } else {
        seq![s[0]] + spec_replace(s.skip(1), pat, rep)
    }
}

/// Whether `pat` occurs in `s` as a contiguous subsequence.
pub open spec fn spec_contains_sub(s: Seq<char>, pat: Seq<char>) -> bool {
    exists|i: int|
        0 <= i && i + pat.len() <= s.len() && #[trigger] s.subrange(i, i + pat.len() as int)
            == pat
}

/// Whether `pat` occurs in `s` starting at position `i`.
fn match_at(s: &str, pat: &str, i: usize) -> (r: bool)
    requires
        i + pat@.len() <= s@.len(),
    ensures
        r == (s@.subrange(i as int, i + pat@.len() as int) == pat@),
{
    let n = s.unicode_len();
    let plen = pat.unicode_len();
    let mut j: usize = 0;
    while j < plen
        invariant
            n == s@.len(),
            plen == pat@.len(),
            i + plen <= n,
            j <= plen,
            forall|k: int| 0 <= k < j ==> s@[i + k] == pat@[k],
        decreases plen - j,
    {
        if s.get_char(i + j) != pat.get_char(j) {
            assert(s@.subrange(i as int, i + pat@.len() as int)[j as int] != pat@[j as int]);
            return false;
        }
        j = j + 1;
    }
    assert(s@.subrange(i as int, i + pat@.len() as int) =~= pat@);
    true
}

/// Whether `sub` occurs anywhere in `s`.
pub fn contains_sub(s: &str, sub: &str) -> (r: bool)
    ensures
        r == spec_contains_sub(s@, sub@),
{
    let n = s.unicode_len();
    let slen = sub.unicode_len();
    if slen > n {
        return false;
    }
    if slen == 0 {
        assert(spec_contains_sub(s@, sub@)) by {
            assert(s@.subrange(0, 0 + sub@.len() as int) =~= sub@);
        }
        return true;
    }
    let lim = n - slen;
    let mut i: usize = 0;
    while i <= lim
        invariant
            n == s@.len(),
            slen == sub@.len(),
            0 < slen <= n,
            lim == n - slen,
            i <= lim + 1,
            forall|k: int|
                0 <= k < i ==> #[trigger] s@.subrange(k, k + sub@.len() as int) != sub@,
        decreases lim - i,
    {
        if match_at(s, sub, i) {
            return true;
        }
        if i == lim {
            return false;
        }
        i = i + 1;
    }
    false
}

/// Whether two strings hold the same characters.
pub fn str_eq(a: &str, b: &str) -> (r: bool)
    ensures
        r == (a@ == b@),
{
    let n = a.unicode_len();
    let m = b.unicode_len();
    if n != m {
        return false;
    }
    if match_at(a, b, 0) {
        assert(a@.subrange(0, b@.len() as int) =~= a@);
        true
    } else {
        assert(a@.subrange(0, b@.len() as int) =~= a@);
        false
    }
}

/// If `s` starts with `prefix`, the remainder of `s` after it.
pub fn strip_prefix<'a>(s: &'a str, prefix: &str) -> (r: Option<&'a str>)
    ensures
        (r is Some) == (prefix@.len() <= s@.len() && s@.subrange(0, prefix@.len() as int)
            == prefix@),
        r matches Some(t) ==> t@ == s@.subrange(prefix@.len() as int, s@.len() as int),
{
    let n = s.unicode_len();
    let plen = prefix.unicode_len();
    if plen > n {
        return None;
    }
    if match_at(s, prefix, 0) {
        Some(s.substring_char(plen, n))
    } else {
        None
    }
}

/// `replace_all(s, pat, rep)` rewrites every occurrence of `pat` in `s` to
/// `rep`, scanning left to right without overlap, as `str::replace` does for
/// a non-empty pattern.
pub fn replace_all(s: &str, pat: &str, rep: &str) -> (r: String)
    requires
        pat@.len() > 0,
    ensures
        r@ == spec_replace(s@, pat@, rep@),
{
    let n = s.unicode_len();
    let plen = pat.unicode_len();
    let mut out = String::new();
    let mut i: usize = 0;
    proof {
        assert(s@.skip(0) =~= s@);
        assert(out@ + spec_replace(s@, pat@, rep@) =~= spec_replace(s@, pat@, rep@));
    }
    while i < n
        invariant
            n == s@.len(),
            plen == pat@.len(),
            plen > 0,
            i <= n,
            spec_replace(s@, pat@, rep@) == out@ + spec_replace(
                s@.skip(i as int),
                pat@,
                rep@,
            ),
        decreases n - i,
    {
        let ghost pre = out@;
        if plen <= n - i && match_at(s, pat, i) {
            out.append(rep);
            proof {
                let tail = s@.skip(i as int);
                assert(tail.subrange(0, pat@.len() as int) =~= s@.subrange(
                    i as int,
                    i + pat@.len() as int,
                ));
                assert(tail.skip(pat@.len() as int) =~= s@.skip(i + plen));
                assert(pre + (rep@ + spec_replace(s@.skip(i + plen), pat@, rep@)) =~= (pre + rep@)
                    + spec_replace(s@.skip(i + plen), pat@, rep@));
            }
            i = i + plen;
        } else {
            let c = s.substring_char(i, i + 1);
            out.append(c);
            proof {
                let tail = s@.skip(i as int);
                assert(tail.len() > 0);
                if plen <= tail.len() {
                    assert(tail.subrange(0, pat@.len() as int) =~= s@.subrange(
                        i as int,
                        i + pat@.len() as int,
                    ));
                }
                assert(tail.skip(1) =~= s@.skip(i + 1));
                assert(c@ =~= seq![tail[0]]);
                assert(pre + (seq![tail[0]] + spec_replace(s@.skip(i + 1), pat@, rep@)) =~= (pre
                    + c@) + spec_replace(s@.skip(i + 1), pat@, rep@));
            }
            i = i + 1;
        }
    }
    proof {
        assert(s@.skip(n as int) =~= Seq::<char>::empty());
        assert(out@ + Seq::<char>::empty() =~= out@);
    }
    out
}

/// An ASCII whitespace character.
pub open spec fn is_ws(c: char) -> bool {
    c == ' ' || c == '\t' || c == '\n' || c == '\r'
}

/// `s` without its leading whitespace.
pub open spec fn spec_trim_start(s: Seq<char>) -> Seq<char>
    decreases s.len(),
{
    if s.len() > 0 && is_ws(s[0]) {
        spec_trim_start(s.drop_first())
    } else {
        s
    }
}

/// `s` without its trailing whitespace.
pub open spec fn spec_trim_end(s: Seq<char>) -> Seq<char>
    decreases s.len(),
{
    if s.len() > 0 && is_ws(s.last()) {
        spec_trim_end(s.drop_last())
    } else {
        s
    }
}

/// `s` without surrounding whitespace.
pub open spec fn spec_trim(s: Seq<char>) -> Seq<char> {
    spec_trim_end(spec_trim_start(s))
}

fn is_ws_char(c: char) -> (r: bool)
    ensures
        r == is_ws(c),
{
    c == ' ' || c == '\t' || c == '\n' || c == '\r'
}

/// Strip surrounding whitespace.
pub fn trim_ws(s: &str) -> (r: &str)
    ensures
        r@ == spec_trim(s@),
{
    let n = s.unicode_len();
    let mut i: usize = 0;
    proof {
        assert(s@.skip(0) =~= s@);
    }
    while i < n && is_ws_char(s.get_char(i))
        invariant
            n == s@.len(),
            i <= n,
            spec_trim_start(s@) == spec_trim_start(s@.skip(i as int)),
        decreases n - i,
    {
        proof {
            assert(s@.skip(i as int).drop_first() =~= s@.skip(i + 1));
        }
        i = i + 1;
    }
    proof {
        if i == n {
            assert(s@.skip(i as int) =~= Seq::<char>::empty());
        }
        assert(spec_trim_start(s@) == s@.skip(i as int));
    }
    let mut j: usize = n;
    while j > i && is_ws_char(s.get_char(j - 1))
        invariant
            n == s@.len(),
            i <= j <= n,
            spec_trim_start(s@) == s@.skip(i as int),
            spec_trim_end(s@.skip(i as int)) == spec_trim_end(s@.subrange(i as int, j as int)),
        decreases j,
    {
        proof {
            let sub = s@.subrange(i as int, j as int);
            assert(sub.last() == s@[j - 1]);
            assert(sub.drop_last() =~= s@.subrange(i as int, j - 1));
        }
        j = j - 1;
    }
    proof {
        assert(s@.skip(i as int) =~= s@.subrange(i as int, n as int));
        let sub = s@.subrange(i as int, j as int);
        if j > i {
            assert(sub.last() == s@[j - 1]);
        }
        assert(spec_trim_end(sub) == sub);
    }
    s.substring_char(i, j)
}

/// A decimal digit.
pub open spec fn is_digit(c: char) -> bool {
    '0' <= c <= '9'
}

/// The numeric value of a sequence of decimal digits, most significant
/// first.
pub open spec fn dec_value(s: Seq<char>) -> nat
    decreases s.len(),
{
    if s.len() == 0 {
        0
    } else {
        (dec_value(s.drop_last()) * 10 + (s.last() as int - '0' as int)) as nat
    }
}

/// The digit part of a decimal string: an optional leading `+` sign is
/// skipped, as `u64::from_str` does.
pub open spec fn dec_digits_of(s: Seq<char>) -> Seq<char> {
    if s.len() > 0 && s[0] == '+' {
        s.drop_first()
    } else {
        s
    }
}

/// The strings accepted by `u64::from_str`: an optional `+`, then at least
/// one digit, with a value that fits in a `u64`.
pub open spec fn valid_u64_string(s: Seq<char>) -> bool {
    let d = dec_digits_of(s);
    d.len() > 0 && (forall|i: int| 0 <= i < d.len() ==> #[trigger] is_digit(d[i])) && dec_value(
        d,
    ) <= u64::MAX
}

/// Extending a digit string on the right can only grow its value.
proof fn lemma_dec_value_take_le(s: Seq<char>, i: int)
    requires
        0 <= i <= s.len(),
        forall|k: int| 0 <= k < s.len() ==> #[trigger] is_digit(s[k]),
    ensures
        dec_value(s.take(i)) <= dec_value(s),
    decreases s.len() - i,
{
    if i < s.len() {
        lemma_dec_value_take_le(s, i + 1);
        let t = s.take(i + 1);
        assert(t.drop_last() =~= s.take(i));
        assert(is_digit(t.last()));
        let v = dec_value(s.take(i));
        assert(dec_value(t) == (v * 10 + (t.last() as int - '0' as int)) as nat);
        assert(v <= v * 10);
    } else {
        assert(s.take(i) =~= s);
    }
}

/// Parse a decimal `u64`, accepting exactly what `u64::from_str` accepts.
pub fn parse_u64(s: &str) -> (r: Option<u64>)
    ensures
        valid_u64_string(s@) ==> (r matches Some(v) && v == dec_value(dec_digits_of(s@))),
        !valid_u64_string(s@) ==> r is None,
{
    let n = s.unicode_len();
    let mut i: usize = 0;
    if n > 0 && s.get_char(0) == '+' {
        i = 1;
    }
    let ghost d = dec_digits_of(s@);
    assert(d =~= s@.skip(i as int));
    if i == n {
        return None;
    }
    let mut acc: u64 = 0;
    let mut j: usize = i;
    proof {
        assert(d.take(0) =~= Seq::<char>::empty());
    }
    while j < n
        invariant
            n == s@.len(),
            i <= j <= n,
            d == s@.skip(i as int),
            d == dec_digits_of(s@),
            acc == dec_value(d.take(j - i)),
            forall|k: int| 0 <= k < j - i ==> is_digit(d[k]),
        decreases n - j,
    {
        let c = s.get_char(j);
        assert(d[j - i] == s@[j as int]);
        if c < '0' || c > '9' {
            assert(!is_digit(d[j - i]));
            assert(!valid_u64_string(s@));
            return None;
        }
        let dv: u64 = (c as u32 as u64) - 48;
        assert(dv == c as int - '0' as int && dv <= 9);
        proof {
            let t = d.take(j - i + 1);
            assert(t.drop_last() =~= d.take(j - i));
            assert(t.last() == c);
            assert(dec_value(t) == (acc * 10 + dv) as nat);
        }
        if acc > (u64::MAX - dv) / 10 {
            proof {
                let q = (u64::MAX - dv) / 10;
                assert(acc >= q + 1);
                assert(q * 10 + 10 > u64::MAX - dv);
                assert(acc * 10 >= (q + 1) * 10) by (nonlinear_arith)
                    requires
                        acc >= q + 1,
                ;
                assert(acc * 10 + dv > u64::MAX);
                if valid_u64_string(s@) {
                    lemma_dec_value_take_le(d, j - i + 1);
                }
            }
            return None;
        }
        acc = acc * 10 + dv;
        j = j + 1;
    }
    proof {
        assert(d.take(n - i) =~= d);
    }
    Some(acc)
}

/// The digit character for a value below ten.
pub open spec fn spec_digit(d: nat) -> char {
    ((d + 48) as u8) as char
}

/// The decimal rendering of `n`, most significant digit first, with no
/// leading zeros.
pub open spec fn spec_dec(n: nat) -> Seq<char>
    decreases n,
{
    if n < 10 {
        seq![spec_digit(n)]
    } else {
        spec_dec(n / 10).push(spec_digit(n % 10))
    }
}

/// The one-character string for a digit value.
fn digit_str(d: u64) -> (r: &'static str)
    requires
        d < 10,
    ensures
        r@ =~= seq![spec_digit(d as nat)],
{
    proof {
        reveal_strlit("0");
        reveal_strlit("1");
        reveal_strlit("2");
        reveal_strlit("3");
        reveal_strlit("4");
        reveal_strlit("5");
        reveal_strlit("6");
        reveal_strlit("7");
        reveal_strlit("8");
        reveal_strlit("9");
    }
    if d == 0 {
        "0"
    } else if d == 1 {
        "1"
    } else if d == 2 {
        "2"
    } else if d == 3 {
        "3"
    } else if d == 4 {
        "4"
    } else if d == 5 {
        "5"
    } else if d == 6 {
        "6"
    } else if d == 7 {
        "7"
    } else {
        if d == 8 {
            "8"
        } else {
            "9"
        }
    }
}

/// Render `n` in decimal.
pub fn u64_to_string(n: u64) -> (r: String)
    ensures
        r@ == spec_dec(n as nat),
    decreases n,
{
    if n < 10 {
        let s = String::new();
        let r = s.concat(digit_str(n));
        proof {
            assert(r@ =~= seq![spec_digit(n as nat)]);
        }
        r
    } else {
        let high = u64_to_string(n / 10);
        let r = high.concat(digit_str(n % 10));
        proof {
            assert(r@ =~= spec_dec((n / 10) as nat).push(spec_digit((n % 10) as nat)));
        }
        r
    }
}

} // verus!
