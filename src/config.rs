//! Settings read from the environment: the caller reads the variables and
//! hands their raw values here.
use vstd::prelude::*;

verus! {

/// Whether `c` is an ASCII decimal digit.
pub open spec fn is_digit(c: char) -> bool {
    '0' <= c && c <= '9'
}

/// The value of the decimal digits `d`, most significant first.
pub open spec fn digits_value(d: Seq<char>) -> int
    decreases d.len(),
{
    if d.len() == 0 {
        0
    } else {
        digits_value(d.drop_last()) * 10 + (d.last() as int - '0' as int)
    }
}

/// Whether every character of `d` is a decimal digit.
pub open spec fn all_digits(d: Seq<char>) -> bool {
    forall|i: int| 0 <= i < d.len() ==> is_digit(#[trigger] d[i])
}

/// `s` without its leading `+`, if it has one.
pub open spec fn unsigned_part(s: Seq<char>) -> Seq<char> {
    if s.len() > 0 && s[0] == '+' {
        s.drop_first()
    } else {
        s
    }
}

/// The number that `s` writes as an unsigned 64-bit integer: an optional
/// `+` and then one or more decimal digits, nothing else, with a value that
/// fits.
pub open spec fn parsed_u64(s: Seq<char>) -> Option<u64> {
    let d = unsigned_part(s);
    if d.len() > 0 && all_digits(d) && digits_value(d) <= u64::MAX {
        Some(digits_value(d) as u64)
    } else {
        None
    }
}

proof fn lemma_digits_prefix(x: Seq<char>, m: int)
    requires
        0 <= m <= x.len(),
        forall|i: int| 0 <= i < x.len() ==> is_digit(#[trigger] x[i]),
    ensures
        digits_value(x) >= digits_value(x.take(m)) >= 0,
    decreases x.len(),
{
    if x.len() == 0 {
        assert(x.take(m) =~= x);
    } else if m == x.len() {
        assert(x.take(m) =~= x);
        lemma_digits_prefix(x.drop_last(), 0);
        assert(x.drop_last().take(0) =~= Seq::<char>::empty());
    } else {
        let d = x.drop_last();
        assert forall|i: int| 0 <= i < d.len() implies is_digit(#[trigger] d[i]) by {
            assert(d[i] == x[i]);
        }
        lemma_digits_prefix(d, m);
        assert(d.take(m) =~= x.take(m));
        assert(is_digit(x[x.len() - 1]));
    }
}

/// Reads an unsigned 64-bit integer as `str::parse::<u64>` does: an
/// optional `+` and then one or more decimal digits, nothing else, with a
/// value that fits.
pub fn parse_u64(s: &String) -> (r: Option<u64>)
    ensures
        r == parsed_u64(s@),
{
    let t = s.as_str();
    let n = t.unicode_len();
    let mut i: usize = 0;
    if n > 0 && t.get_char(0) == '+' {
        i = 1;
    }
    let ghost d = s@.skip(i as int);
    assert(d =~= unsigned_part(s@));
    if i == n {
        return None;
    }
    let mut v: u64 = 0;
    let mut j: usize = i;
    assert(d.take(0) =~= Seq::<char>::empty());
    while j < n
        invariant
            i <= j <= n,
            n == s@.len(),
            t@ == s@,
            d == s@.skip(i as int),
            d == unsigned_part(s@),
            d.len() == n - i,
            forall|k: int| 0 <= k < j - i ==> is_digit(#[trigger] d[k]),
            v as int == digits_value(d.take(j - i)),
        decreases n - j,
    {
        let c = t.get_char(j);
        assert(c == d[j - i]);
        if !('0' <= c && c <= '9') {
            assert(!is_digit(d[j - i]));
            assert(!all_digits(d));
            return None;
        }
        let dv = (c as u32 - '0' as u32) as u64;
        assert(d.take(j - i + 1).drop_last() =~= d.take(j - i));
        if v > (u64::MAX - dv) / 10 {
            proof {
                assert(digits_value(d.take(j - i + 1)) > u64::MAX) by (nonlinear_arith)
                    requires
                        v > (u64::MAX - dv) / 10,
                        dv <= 9,
                        digits_value(d.take(j - i + 1)) == v * 10 + dv,
                ;
                if all_digits(d) {
                    lemma_digits_prefix(d, j - i + 1);
                }
            }
            return None;
        }
        v = v * 10 + dv;
        j = j + 1;
    }
    assert(d.take(d.len() as int) =~= d);
    Some(v)
}

/// The wait of the worker when none is configured, in milliseconds.
pub const DEFAULT_TIMEOUT: u64 = 3000;

/// The wait of the worker when the configured one cannot be read.
pub const FALLBACK_TIMEOUT: u64 = 500;

/// The least time between flushes, configured or not, in milliseconds.
pub const DEFAULT_INTERVAL: u64 = 1000;

/// A duration setting: `missing` when it is not set, `invalid` when it is
/// not a number, else its value.
pub fn duration_setting(raw: Option<String>, missing: u64, invalid: u64) -> (r: u64)
    ensures
        raw is None ==> r == missing,
        raw matches Some(s) ==> r == match parsed_u64(s@) {
            Some(v) => v,
            None => invalid,
        },
{
    match raw {
        None => missing,
        Some(s) => match parse_u64(&s) {
            Some(v) => v,
            None => invalid,
        },
    }
}

/// The worker's wait, from the raw setting.
pub fn flush_timeout(raw: Option<String>) -> (r: u64)
    ensures
        raw is None ==> r == DEFAULT_TIMEOUT,
        raw matches Some(s) ==> r == match parsed_u64(s@) {
            Some(v) => v,
            None => FALLBACK_TIMEOUT,
        },
{
    duration_setting(raw, DEFAULT_TIMEOUT, FALLBACK_TIMEOUT)
}

/// The least time between flushes, from the raw setting.
pub fn flush_interval(raw: Option<String>) -> (r: u64)
    ensures
        raw is None ==> r == DEFAULT_INTERVAL,
        raw matches Some(s) ==> r == match parsed_u64(s@) {
            Some(v) => v,
            None => DEFAULT_INTERVAL,
        },
{
    duration_setting(raw, DEFAULT_INTERVAL, DEFAULT_INTERVAL)
}

/// The collector's address, from the raw setting; a local port when it is
/// not set.
pub fn address(raw: Option<String>) -> (r: String)
    ensures
        raw matches Some(s) ==> r@ == s@,
        raw is None ==> r@ == "127.0.0.1:7578"@,
{
    match raw {
        Some(s) => s,
        None => "127.0.0.1:7578".to_owned(),
    }
}

} // verus!
