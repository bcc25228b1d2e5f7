//! Small pure helpers: query sanitizing, shell escaping and joining,
//! date-prefix handling and related string utilities.

use vstd::prelude::*;
use vstd::string::*;
use crate::text::{chars_of, string_of_chars};

verus! {

/// The characters a query buffer may hold: ASCII letters and digits,
/// dash, underscore, dot and space.
pub open spec fn is_allowed_char(c: char) -> bool {
    (48 <= c as u32 <= 57) || (65 <= c as u32 <= 90) || (97 <= c as u32 <= 122)
        || c == '-' || c == '_' || c == '.' || c == ' '
}

/// Returns whether a typed character should be accepted into the query buffer.
pub fn is_printable(ch: char) -> (r: bool)
    ensures
        r == is_allowed_char(ch),
{
    let u = ch as u32;
    (48 <= u && u <= 57) || (65 <= u && u <= 90) || (97 <= u && u <= 122)
        || ch == '-' || ch == '_' || ch == '.' || ch == ' '
}

pub(crate) proof fn lemma_filter_push<A>(s: Seq<A>, p: spec_fn(A) -> bool, c: A)
    ensures
        s.push(c).filter(p) == if p(c) { s.filter(p).push(c) } else { s.filter(p) },
{
    reveal(Seq::filter);
    assert(s.push(c).drop_last() =~= s);
}

/// Filters a free-form query down to the allowed character set.
pub fn sanitize_query(q: &str) -> (r: String)
    ensures
        r@ == q@.filter(|c: char| is_allowed_char(c)),
{
    let v = chars_of(q);
    let n = v.len();
    let mut out: Vec<char> = Vec::new();
    let mut i: usize = 0;
    while i < n
        invariant
            i <= n,
            n == v@.len(),
            v@ == q@,
            out@ == q@.take(i as int).filter(|c: char| is_allowed_char(c)),
        decreases n - i,
    {
        let c = v[i];
        if is_printable(c) {
            out.push(c);
        }
        proof {
            assert(q@.take(i + 1) =~= q@.take(i as int).push(q@[i as int]));
            lemma_filter_push(q@.take(i as int), |c: char| is_allowed_char(c), q@[i as int]);
        }
        i = i + 1;
    }
    proof {
        assert(q@.take(n as int) =~= q@);
    }
    string_of_chars(&out)
}

/// A single character under shell single-quote escaping: a quote becomes
/// `'\''`, anything else stands as it is.
pub open spec fn esc_char(c: char) -> Seq<char> {
    if c == '\'' {
        seq!['\'', '\\', '\'', '\'']
    } else {
        seq![c]
    }
}

/// The body of a single-quoted shell word for `s`.
pub open spec fn esc_str(s: Seq<char>) -> Seq<char>
    decreases s.len(),
{
    if s.len() == 0 {
        Seq::empty()
    } else {
        esc_str(s.drop_last()) + esc_char(s.last())
    }
}

/// Shell-escapes a path using single quotes suitable for POSIX shells.
pub fn shell_escape(p: &str) -> (r: String)
    ensures
        r@ == seq!['\''] + esc_str(p@) + seq!['\''],
{
    let v = chars_of(p);
    let n = v.len();
    let mut out: Vec<char> = Vec::new();
    out.push('\'');
    let mut i: usize = 0;
    while i < n
        invariant
            i <= n,
            n == v@.len(),
            v@ == p@,
            out@ == seq!['\''] + esc_str(p@.take(i as int)),
        decreases n - i,
    {
        let c = v[i];
        if c == '\'' {
            out.push('\'');
            out.push('\\');
            out.push('\'');
            out.push('\'');
        } else {
            out.push(c);
        }
        proof {
            assert(p@.take(i + 1) =~= p@.take(i as int).push(p@[i as int]));
            assert(p@.take(i + 1).drop_last() =~= p@.take(i as int));
            assert(out@ =~= seq!['\''] + esc_str(p@.take(i + 1)));
        }
        i = i + 1;
    }
    out.push('\'');
    proof {
        assert(p@.take(n as int) =~= p@);
        assert(out@ =~= seq!['\''] + esc_str(p@) + seq!['\'']);
    }
    string_of_chars(&out)
}

/// `parts` joined by `sep`, in order.
pub open spec fn join_sep(parts: Seq<Seq<char>>, sep: Seq<char>) -> Seq<char>
    decreases parts.len(),
{
    if parts.len() == 0 {
        Seq::empty()
    } else if parts.len() == 1 {
        parts[0]
    } else {
        join_sep(parts.drop_last(), sep) + sep + parts.last()
    }
}

/// Join commands with ` && `, returning a single shell-evaluable line.
pub fn join_shell(parts: &Vec<String>) -> (r: String)
    ensures
        r@ == join_sep(parts@.map_values(|s: String| s@), " && "@),
{
    join_with(parts, " && ")
}

/// `parts` joined by the separator `sep`.
pub fn join_with(parts: &Vec<String>, sep: &str) -> (r: String)
    ensures
        r@ == join_sep(parts@.map_values(|s: String| s@), sep@),
{
    let ghost sparts = parts@.map_values(|s: String| s@);
    let n = parts.len();
    let mut out: Vec<char> = Vec::new();
    let mut i: usize = 0;
    while i < n
        invariant
            i <= n,
            n == parts@.len(),
            sparts == parts@.map_values(|s: String| s@),
            out@ == join_sep(sparts.take(i as int), sep@),
        decreases n - i,
    {
        if i > 0 {
            crate::text::push_str_chars(sep, &mut out);
        }
        let part = chars_of(parts[i].as_str());
        crate::text::push_all(&part, &mut out);
        proof {
            assert(sparts.take(i + 1).drop_last() =~= sparts.take(i as int));
            assert(sparts.take(i + 1).last() == sparts[i as int]);
            assert(out@ =~= join_sep(sparts.take(i + 1), sep@));
        }
        i = i + 1;
    }
    proof {
        assert(sparts.take(n as int) =~= sparts);
    }
    string_of_chars(&out)
}

/// Whether `y` is a leap year in the Gregorian calendar.
pub open spec fn is_leap_year(y: int) -> bool {
    (y % 4 == 0 && y % 100 != 0) || y % 400 == 0
}

/// The number of days of year `y`.
pub open spec fn days_in_year(y: int) -> int {
    if is_leap_year(y) { 366 } else { 365 }
}

/// The number of days of month `m` of year `y`, for `1 <= m <= 12`.
pub open spec fn days_in_month(y: int, m: int) -> int {
    if m == 2 {
        if is_leap_year(y) { 29 } else { 28 }
    } else if m == 4 || m == 6 || m == 9 || m == 11 {
        30
    } else {
        31
    }
}

/// The days of the years from 1970 up to, excluding, `y`.
pub open spec fn days_before_year(y: int) -> int
    decreases y,
{
    if y <= 1970 {
        0
    } else {
        days_before_year(y - 1) + days_in_year(y - 1)
    }
}

/// The days of the months of year `y` before month `m`.
pub open spec fn days_before_month(y: int, m: int) -> int
    decreases m,
{
    if m <= 1 {
        0
    } else {
        days_before_month(y, m - 1) + days_in_month(y, m - 1)
    }
}

/// The day number of the civil date `y-m-d`, with 1970-01-01 as day zero.
pub open spec fn days_of_civil(y: int, m: int, d: int) -> int {
    days_before_year(y) + days_before_month(y, m) + d - 1
}

/// A valid civil date from 1970 on.
pub open spec fn valid_date(y: int, m: int, d: int) -> bool {
    1970 <= y && 1 <= m <= 12 && 1 <= d <= days_in_month(y, m)
}

/// The largest day number the conversion accepts; it lies within year 9999.
pub const MAX_CIVIL_DAYS: i64 = 2_930_585;

proof fn lemma_days_before_year_lower_bound(y: int)
    requires
        y >= 1970,
    ensures
        days_before_year(y) >= 365 * (y - 1970),
    decreases y,
{
    if y > 1970 {
        lemma_days_before_year_lower_bound(y - 1);
    }
}

proof fn lemma_year_days_sum(y: int)
    ensures
        days_before_month(y, 13) == days_in_year(y),
{
    assert(days_before_month(y, 1) == 0);
    assert(days_before_month(y, 2) == 31);
    assert(days_before_month(y, 3) == days_before_month(y, 2) + days_in_month(y, 2));
    assert(days_before_month(y, 4) == days_before_month(y, 3) + 31);
    assert(days_before_month(y, 5) == days_before_month(y, 4) + 30);
    assert(days_before_month(y, 6) == days_before_month(y, 5) + 31);
    assert(days_before_month(y, 7) == days_before_month(y, 6) + 30);
    assert(days_before_month(y, 8) == days_before_month(y, 7) + 31);
    assert(days_before_month(y, 9) == days_before_month(y, 8) + 31);
    assert(days_before_month(y, 10) == days_before_month(y, 9) + 30);
    assert(days_before_month(y, 11) == days_before_month(y, 10) + 31);
    assert(days_before_month(y, 12) == days_before_month(y, 11) + 30);
    assert(days_before_month(y, 13) == days_before_month(y, 12) + 31);
}

fn days_in_year_exec(y: u64) -> (r: u64)
    ensures
        r == days_in_year(y as int),
{
    if (y % 4 == 0 && y % 100 != 0) || y % 400 == 0 {
        366
    } else {
        365
    }
}

fn days_in_month_exec(y: u64, m: u64) -> (r: u64)
    requires
        1 <= m <= 12,
    ensures
        r == days_in_month(y as int, m as int),
{
    if m == 2 {
        if (y % 4 == 0 && y % 100 != 0) || y % 400 == 0 {
            29
        } else {
            28
        }
    } else if m == 4 || m == 6 || m == 9 || m == 11 {
        30
    } else {
        31
    }
}

/// The civil date `(year, month, day)` of day number `days`, with
/// 1970-01-01 as day zero: the one valid date whose day number is `days`.
pub fn civil_from_days(days: i64) -> (r: (i32, u32, u32))
    requires
        0 <= days <= MAX_CIVIL_DAYS,
    ensures
        valid_date(r.0 as int, r.1 as int, r.2 as int),
        days_of_civil(r.0 as int, r.1 as int, r.2 as int) == days,
        r.0 <= 9999,
{
    let mut rem: u64 = days as u64;
    let mut y: u64 = 1970;
    let mut diy = days_in_year_exec(y);
    while rem >= diy
        invariant
            y >= 1970,
            diy == days_in_year(y as int),
            days_before_year(y as int) + rem == days,
            days <= MAX_CIVIL_DAYS,
        decreases rem,
    {
        proof {
            lemma_days_before_year_lower_bound(y as int);
        }
        rem = rem - diy;
        y = y + 1;
        diy = days_in_year_exec(y);
    }
    proof {
        lemma_days_before_year_lower_bound(y as int);
    }
    let mut m: u64 = 1;
    let ghost year_rem = rem;
    let mut dim = days_in_month_exec(y, m);
    while m < 12 && rem >= dim
        invariant
            1 <= m <= 12,
            dim == days_in_month(y as int, m as int),
            days_before_month(y as int, m as int) + rem == year_rem,
            year_rem < days_in_year(y as int),
        decreases 12 - m,
    {
        rem = rem - dim;
        m = m + 1;
        dim = days_in_month_exec(y, m);
    }
    proof {
        if m == 12 && rem >= 31 {
            lemma_year_days_sum(y as int);
        }
    }
    let d = rem + 1;
    (y as i32, m as u32, d as u32)
}

/// The stamp of a civil date, `YYYY-MM-DD`: ten characters, the year's
/// four digits, a dash, two month digits, a dash, two day digits.
pub open spec fn date_stamp_spec(y: int, m: int, d: int) -> Seq<char> {
    crate::text::dec_str(y) + seq!['-'] + crate::text::dec_str_pad2(m) + seq!['-']
        + crate::text::dec_str_pad2(d)
}

/// A ten-character date stamp: digits everywhere but the dashes at
/// positions four and seven.
pub open spec fn is_date_stamp(s: Seq<char>) -> bool {
    &&& s.len() == 10
    &&& s[4] == '-'
    &&& s[7] == '-'
    &&& forall|i: int| 0 <= i < 10 && i != 4 && i != 7 ==> crate::text::is_digit_char(#[trigger] s[i])
}

proof fn lemma_date_stamp_shape(y: int, m: int, d: int)
    requires
        1000 <= y <= 9999,
        1 <= m <= 12,
        1 <= d <= 31,
    ensures
        is_date_stamp(date_stamp_spec(y, m, d)),
{
    crate::text::lemma_dec_str_len4(y);
    crate::text::lemma_dec_str_digits(y);
    crate::text::lemma_dec_str_pad2_shape(m);
    crate::text::lemma_dec_str_pad2_shape(d);
}

/// Formats the civil date of day number `days` as a `YYYY-MM-DD` stamp.
pub fn date_stamp_of_days(days: i64) -> (r: String)
    requires
        0 <= days <= MAX_CIVIL_DAYS,
    ensures
        is_date_stamp(r@),
        exists|y: int, m: int, d: int|
            valid_date(y, m, d) && days_of_civil(y, m, d) == days && r@ == date_stamp_spec(y, m, d),
{
    let (y, m, d) = civil_from_days(days);
    let mut out: Vec<char> = Vec::new();
    crate::text::push_dec(y as u64, &mut out);
    out.push('-');
    crate::text::push_dec_pad2(m as u64, &mut out);
    out.push('-');
    crate::text::push_dec_pad2(d as u64, &mut out);
    proof {
        assert(out@ =~= date_stamp_spec(y as int, m as int, d as int));
        lemma_date_stamp_shape(y as int, m as int, d as int);
    }
    crate::text::string_of_chars(&out)
}

/// The scaling steps a byte count takes: none below one kibibyte, then
/// one per kibibyte power, at most four.
pub open spec fn size_exp(bytes: int) -> int {
    if bytes < 1024 {
        0
    } else if bytes < 1048576 {
        1
    } else if bytes < 1073741824 {
        2
    } else if bytes < 1099511627776 {
        3
    } else {
        4
    }
}

/// The `k`-th power of 1024, for `1 <= k <= 4`.
pub open spec fn pow1024(k: int) -> int {
    if k == 1 {
        1024
    } else if k == 2 {
        1048576
    } else if k == 3 {
        1073741824
    } else {
        1099511627776
    }
}

/// The unit letter for each scaling step.
pub open spec fn size_unit_char(k: int) -> char {
    if k == 1 { 'K' } else if k == 2 { 'M' } else if k == 3 { 'G' } else { 'T' }
}

/// `n / d` rounded to the nearest integer, ties to even.
pub open spec fn round_half_even(n: int, d: int) -> int {
    let q = n / d;
    let r = n % d;
    if 2 * r > d {
        q + 1
    } else if 2 * r < d {
        q
    } else if q % 2 == 0 {
        q
    } else {
        q + 1
    }
}

/// A byte count as a short human-readable string: plain bytes below one
/// kibibyte, otherwise the scaled value with one rounded decimal and
/// the unit letter.
pub open spec fn human_size_str(bytes: int) -> Seq<char> {
    if bytes < 1024 {
        crate::text::dec_str(bytes) + seq!['B']
    } else {
        let k = size_exp(bytes);
        let t = round_half_even(10 * bytes, pow1024(k));
        crate::text::dec_str(t / 10) + seq!['.'] + seq![crate::text::digit_char(t % 10)]
            + seq![size_unit_char(k)]
    }
}

/// Format a byte size as a human-readable string (e.g., `1.5K`, `23.4M`).
pub fn format_human_size(bytes: u64) -> (r: String)
    ensures
        r@ == human_size_str(bytes as int),
{
    let mut out: Vec<char> = Vec::new();
    if bytes < 1024 {
        crate::text::push_dec(bytes, &mut out);
        out.push('B');
        proof {
            assert(out@ =~= human_size_str(bytes as int));
        }
        return string_of_chars(&out);
    }
    let (k, div): (u64, u128) = if bytes < 1048576 {
        (1, 1024)
    } else if bytes < 1073741824 {
        (2, 1048576)
    } else if bytes < 1099511627776 {
        (3, 1073741824)
    } else {
        (4, 1099511627776)
    };
    let n10: u128 = (bytes as u128) * 10;
    let q: u128 = n10 / div;
    let rm: u128 = n10 % div;
    let t: u128 = if 2 * rm > div {
        q + 1
    } else if 2 * rm < div {
        q
    } else if q % 2 == 0 {
        q
    } else {
        q + 1
    };
    proof {
        vstd::arithmetic::div_mod::lemma_div_is_ordered_by_denominator(n10 as int, 1024, div as int);
        assert(q <= n10 / 1024);
    }
    let t64: u64 = t as u64;
    let d10 = crate::text::digit_char_exec(t64 % 10);
    crate::text::push_dec(t64 / 10, &mut out);
    out.push('.');
    out.push(d10);
    let unit = if k == 1 { 'K' } else if k == 2 { 'M' } else if k == 3 { 'G' } else { 'T' };
    out.push(unit);
    proof {
        assert(t == round_half_even(10 * bytes as int, pow1024(k as int)));
        assert(out@ =~= human_size_str(bytes as int));
    }
    string_of_chars(&out)
}

/// Relies on `SystemTime::now` and `duration_since`: the system clock's
/// seconds since the Unix epoch, zero when the clock reads before it.
/// Nothing is assumed of the value.
#[verifier::external_body]
fn now_unix_secs() -> u64 {
    std::time::SystemTime::now()
        .duration_since(std::time::UNIX_EPOCH)
        .map(|d| d.as_secs())
        .unwrap_or(0)
}

/// Returns today's date stamp in UTC as `YYYY-MM-DD`, from the system
/// clock; clocks past year 9999 are clamped to the largest handled day.
pub fn today_prefix() -> (r: String)
    ensures
        is_date_stamp(r@),
{
    let secs = now_unix_secs();
    let days_u = secs / 86400;
    let days: i64 = if days_u > MAX_CIVIL_DAYS as u64 {
        MAX_CIVIL_DAYS
    } else {
        days_u as i64
    };
    date_stamp_of_days(days)
}

/// Whether `s` begins with a `YYYY-MM-DD-` stamp: at least eleven
/// characters, with dashes at positions four, seven and ten.
pub open spec fn has_date_prefix(s: Seq<char>) -> bool {
    s.len() >= 11 && s[4] == '-' && s[7] == '-' && s[10] == '-'
}

/// If the input begins with `YYYY-MM-DD-...`, returns that date part and
/// the remainder after the third dash.
pub fn split_date_prefixed(s: &str) -> (r: Option<(&str, &str)>)
    ensures
        match r {
            Some((date, rest)) => {
                &&& has_date_prefix(s@)
                &&& date@ == s@.take(10)
                &&& rest@ == s@.skip(11)
            },
            None => !has_date_prefix(s@),
        },
{
    let n = s.unicode_len();
    if n >= 11 && s.get_char(4) == '-' && s.get_char(7) == '-' && s.get_char(10) == '-' {
        let date = s.substring_char(0, 10);
        let rest = s.substring_char(11, n);
        proof {
            assert(date@ =~= s@.take(10));
            assert(rest@ =~= s@.skip(11));
        }
        Some((date, rest))
    } else {
        None
    }
}

/// One walk of the flag extraction, from the right end of the argument
/// list down to index zero: a `flag value` pair or a `flag=value`
/// argument is removed, and the first value met on the way down — the
/// rightmost occurrence — is kept.
pub open spec fn extract_from(
    args: Seq<Seq<char>>,
    flag: Seq<char>,
    i: int,
    acc: Option<Seq<char>>,
) -> (Seq<Seq<char>>, Option<Seq<char>>)
    decreases i,
{
    if i <= 0 || i > args.len() {
        (args, acc)
    } else {
        let j = i - 1;
        if args[j] == flag {
            let val = if j + 1 < args.len() {
                Some(args[j + 1])
            } else {
                None
            };
            let args2 = if j + 1 < args.len() {
                args.remove(j + 1).remove(j)
            } else {
                args.remove(j)
            };
            extract_from(args2, flag, j, if acc is None { val } else { acc })
        } else if crate::text::starts_with(args[j], flag + seq!['=']) {
            let val = args[j].skip(flag.len() as int + 1);
            extract_from(args.remove(j), flag, j, if acc is None { Some(val) } else { acc })
        } else {
            extract_from(args, flag, j, acc)
        }
    }
}

/// Extracts `--flag value` and `--flag=value` from `args`, removing all
/// occurrences; returns the value of the rightmost one.
pub fn extract_option_with_value(args: &mut Vec<String>, flag: &str) -> (r: Option<String>)
    ensures
        ({
            let (sargs, sval) = extract_from(
                old(args)@.map_values(|s: String| s@),
                flag@,
                old(args)@.len() as int,
                None::<Seq<char>>,
            );
            &&& final(args)@.map_values(|s: String| s@) == sargs
            &&& match r {
                Some(v) => sval == Some(v@),
                None => sval is None,
            }
        }),
{
    let ghost target = extract_from(
        old(args)@.map_values(|s: String| s@),
        flag@,
        old(args)@.len() as int,
        None::<Seq<char>>,
    );
    let flagv = chars_of(flag);
    let mut flag_eq: Vec<char> = Vec::new();
    crate::text::push_all(&flagv, &mut flag_eq);
    flag_eq.push('=');
    proof {
        assert(flag_eq@ =~= flag@ + seq!['=']);
    }
    let mut result: Option<String> = None;
    let mut i = args.len();
    while i > 0
        invariant
            i <= args@.len(),
            flagv@ == flag@,
            flag_eq@ == flag@ + seq!['='],
            target == extract_from(
                args@.map_values(|s: String| s@),
                flag@,
                i as int,
                match result {
                    Some(v) => Some(v@),
                    None => None::<Seq<char>>,
                },
            ),
        decreases i,
    {
        let ghost pre = args@.map_values(|s: String| s@);
        i = i - 1;
        let av = chars_of(args[i].as_str());
        proof {
            assert(av@ == pre[i as int]);
        }
        if crate::text::chars_eq(&av, &flagv) {
            let val: Option<String> = if i + 1 < args.len() {
                Some(crate::selector::clone_string(&args[i + 1]))
            } else {
                None
            };
            if args.len() > i + 1 {
                args.remove(i + 1);
                proof {
                    assert(args@.map_values(|s: String| s@) =~~= pre.remove(i as int + 1));
                }
            }
            let ghost mid = args@.map_values(|s: String| s@);
            args.remove(i);
            proof {
                assert(args@.map_values(|s: String| s@) =~~= mid.remove(i as int));
            }
            match &result {
                Some(_) => {},
                None => {
                    result = val;
                },
            }
        } else if crate::text::starts_with_chars(&av, &flag_eq) {
            let rest = crate::text::vec_skip(&av, flag_eq.len());
            let val = string_of_chars(&rest);
            args.remove(i);
            proof {
                assert(args@.map_values(|s: String| s@) =~~= pre.remove(i as int));
                assert(rest@ == pre[i as int].skip(flag@.len() as int + 1));
            }
            match &result {
                Some(_) => {},
                None => {
                    result = Some(val);
                },
            }
        }
        proof {
            assert(target == extract_from(
                args@.map_values(|s: String| s@),
                flag@,
                i as int,
                match result {
                    Some(v) => Some(v@),
                    None => None::<Seq<char>>,
                },
            ));
        }
    }
    result
}

/// A parsed git URI: host, user and repository name.
#[derive(Debug, Clone, PartialEq, Eq)]
pub struct GitUri {
    /// The host part, such as a forge's domain.
    pub host: String,
    /// The user or organisation part.
    pub user: String,
    /// The repository name, without a `.git` suffix.
    pub repo: String,
}

/// `s` without one trailing `.git`, when present.
pub open spec fn strip_git_suffix(s: Seq<char>) -> Seq<char> {
    if crate::text::ends_with(s, ".git"@) {
        s.take(s.len() - ".git"@.len())
    } else {
        s
    }
}

/// The host, user and repository of a git URI, after trimming and
/// dropping one `.git` suffix: for `http://` and `https://` forms the
/// first three slash-separated fields of the remainder; for `git@`
/// forms the field before the first colon, then the first two
/// slash-separated fields after it.  Anything else does not parse.
pub open spec fn spec_parse_git_uri(input: Seq<char>) -> Option<(Seq<char>, Seq<char>, Seq<char>)> {
    let u = strip_git_suffix(crate::text::trim_spec(input));
    if crate::text::starts_with(u, "http://"@) || crate::text::starts_with(u, "https://"@) {
        let rest = if crate::text::starts_with(u, "http://"@) {
            u.skip("http://"@.len() as int)
        } else {
            u.skip("https://"@.len() as int)
        };
        let parts = crate::text::split_on(rest, '/');
        if parts.len() >= 3 {
            Some((parts[0], parts[1], parts[2]))
        } else {
            None
        }
    } else if crate::text::starts_with(u, "git@"@) {
        let cparts = crate::text::split_on(u.skip("git@"@.len() as int), ':');
        if cparts.len() < 2 {
            None
        } else {
            let pparts = crate::text::split_on(cparts[1], '/');
            if pparts.len() < 2 {
                None
            } else {
                Some((cparts[0], pparts[0], pparts[1]))
            }
        }
    } else {
        None
    }
}

/// Attempts to parse a git URI of the common `https://host/user/repo`
/// and `git@host:user/repo` forms, an optional `.git` suffix dropped.
pub fn parse_git_uri(input: &str) -> (r: Option<GitUri>)
    ensures
        match r {
            Some(g) => spec_parse_git_uri(input@) == Some((g.host@, g.user@, g.repo@)),
            None => spec_parse_git_uri(input@) is None,
        },
{
    let trimmed = crate::text::trim_str(input);
    let tv = chars_of(trimmed);
    let dotgit = chars_of(".git");
    let u: Vec<char> = if crate::text::ends_with_chars(&tv, &dotgit) {
        let keep = tv.len() - dotgit.len();
        let taken = crate::text::vec_take(&tv, keep);
        proof {
            assert(taken@ =~= strip_git_suffix(crate::text::trim_spec(input@)));
        }
        taken
    } else {
        tv
    };
    let http = chars_of("http://");
    let https = chars_of("https://");
    let gitat = chars_of("git@");
    if crate::text::starts_with_chars(&u, &http) || crate::text::starts_with_chars(&u, &https) {
        let rest = if crate::text::starts_with_chars(&u, &http) {
            crate::text::vec_skip(&u, http.len())
        } else {
            crate::text::vec_skip(&u, https.len())
        };
        let parts = crate::text::split_char(&rest, '/');
        if parts.len() >= 3 {
            let host = string_of_chars(&parts[0]);
            let user = string_of_chars(&parts[1]);
            let repo = string_of_chars(&parts[2]);
            Some(GitUri { host, user, repo })
        } else {
            None
        }
    } else if crate::text::starts_with_chars(&u, &gitat) {
        let rest = crate::text::vec_skip(&u, gitat.len());
        let cparts = crate::text::split_char(&rest, ':');
        if cparts.len() < 2 {
            None
        } else {
            let pparts = crate::text::split_char(&cparts[1], '/');
            if pparts.len() < 2 {
                None
            } else {
                let host = string_of_chars(&cparts[0]);
                let user = string_of_chars(&pparts[0]);
                let repo = string_of_chars(&pparts[1]);
                Some(GitUri { host, user, repo })
            }
        }
    } else {
        None
    }
}

/// The loose shapes that are taken for a git URI: the `http://`,
/// `https://` or `git@` prefixes, a known forge host anywhere in the
/// string, or a `.git` suffix.
pub open spec fn spec_is_git_uri(arg: Seq<char>) -> bool {
    let a = crate::text::trim_spec(arg);
    ||| crate::text::starts_with(a, "http://"@)
    ||| crate::text::starts_with(a, "https://"@)
    ||| crate::text::starts_with(a, "git@"@)
    ||| crate::text::contains_sub(a, "github.com"@)
    ||| crate::text::contains_sub(a, "gitlab.com"@)
    ||| crate::text::ends_with(a, ".git"@)
}

/// Heuristic to decide if an argument looks like a git URI.
pub fn is_git_uri(arg: &str) -> (r: bool)
    ensures
        r == spec_is_git_uri(arg@),
{
    let trimmed = crate::text::trim_str(arg);
    let a = chars_of(trimmed);
    let http = chars_of("http://");
    let https = chars_of("https://");
    let gitat = chars_of("git@");
    let ghub = chars_of("github.com");
    let glab = chars_of("gitlab.com");
    let dotgit = chars_of(".git");
    crate::text::starts_with_chars(&a, &http) || crate::text::starts_with_chars(&a, &https)
        || crate::text::starts_with_chars(&a, &gitat) || crate::text::contains_chars(&a, &ghub)
        || crate::text::contains_chars(&a, &glab) || crate::text::ends_with_chars(&a, &dotgit)
}

/// What a generated clone directory name must look like when no custom
/// name is given: a date stamp, the user and the repository, joined by
/// dashes — for the parse of the given URI, when there is one.
pub open spec fn clone_name_ok(r: Option<String>, uri: Seq<char>) -> bool {
    match spec_parse_git_uri(uri) {
        None => r is None,
        Some(parts) => match r {
            Some(s) => exists|stamp: Seq<char>|
                is_date_stamp(stamp) && s@ == stamp + "-"@ + parts.1 + "-"@ + parts.2,
            None => false,
        },
    }
}

/// Generate a directory name for cloning: a non-empty custom name is
/// returned as it is; otherwise `YYYY-MM-DD-user-repo` from the parsed
/// git URI, or nothing when the URI does not parse.
pub fn generate_clone_directory_name(git_uri: &str, custom_name: Option<&str>) -> (r: Option<
    String,
>)
    ensures
        match custom_name {
            Some(n) => if n@.len() > 0 {
                match r {
                    Some(s) => s@ == n@,
                    None => false,
                }
            } else {
                clone_name_ok(r, git_uri@)
            },
            None => clone_name_ok(r, git_uri@),
        },
{
    match custom_name {
        Some(n) => {
            if !n.is_empty() {
                return Some(n.to_owned());
            }
        },
        None => {},
    }
    match parse_git_uri(git_uri) {
        None => None,
        Some(g) => {
            let stamp = today_prefix();
            let mut out: Vec<char> = Vec::new();
            crate::text::push_str_chars(stamp.as_str(), &mut out);
            crate::text::push_str_chars("-", &mut out);
            crate::text::push_str_chars(g.user.as_str(), &mut out);
            crate::text::push_str_chars("-", &mut out);
            crate::text::push_str_chars(g.repo.as_str(), &mut out);
            proof {
                assert(out@ =~= stamp@ + "-"@ + g.user@ + "-"@ + g.repo@);
            }
            Some(string_of_chars(&out))
        },
    }
}

/// A path with a leading `~/` expanded against a home directory, when
/// one is known.
pub open spec fn spec_expand_home(p: Seq<char>, home: Option<Seq<char>>) -> Seq<char> {
    match home {
        Some(h) => if crate::text::starts_with(p, "~/"@) {
            h + "/"@ + p.skip("~/"@.len() as int)
        } else {
            p
        },
        None => p,
    }
}

/// Expands a leading `~/` against the given home directory; returns the
/// original path otherwise.
pub fn expand_home_with(p: &str, home: Option<&str>) -> (r: String)
    ensures
        r@ == spec_expand_home(p@, match home {
            Some(h) => Some(h@),
            None => None,
        }),
{
    let pv = chars_of(p);
    let tilde = chars_of("~/");
    match home {
        Some(h) => {
            if crate::text::starts_with_chars(&pv, &tilde) {
                let rest = crate::text::vec_skip(&pv, tilde.len());
                let mut out: Vec<char> = Vec::new();
                crate::text::push_str_chars(h, &mut out);
                crate::text::push_str_chars("/", &mut out);
                crate::text::push_all(&rest, &mut out);
                proof {
                    assert(out@ =~= h@ + "/"@ + p@.skip("~/"@.len() as int));
                }
                string_of_chars(&out)
            } else {
                p.to_owned()
            }
        },
        None => p.to_owned(),
    }
}

/// Relies on `dirs::home_dir`: the user's home directory as the
/// platform reports it, when it reports one.  Nothing is assumed of the
/// value.
#[verifier::external_body]
fn home_dir_string() -> (r: Option<String>) {
    dirs::home_dir().map(|p| p.to_string_lossy().into_owned())
}

/// Expands a leading `~/` to the user's home directory; returns the
/// original path otherwise, and whenever no home directory is known.
pub fn shellexpand_home(p: &str) -> (r: String)
    ensures
        !crate::text::starts_with(p@, "~/"@) ==> r@ == p@,
        exists|home: Option<Seq<char>>| r@ == spec_expand_home(p@, home),
{
    let home = home_dir_string();
    match home {
        Some(h) => {
            let r = expand_home_with(p, Some(h.as_str()));
            proof {
                assert(r@ == spec_expand_home(p@, Some(h@)));
            }
            r
        },
        None => {
            let r = expand_home_with(p, None);
            proof {
                assert(r@ == spec_expand_home(p@, None::<Seq<char>>));
            }
            r
        },
    }
}

/// The shell line that binds the working directory variable: the fish
/// form or the POSIX form, with the path single-quoted.
pub open spec fn spec_dir_assign(dir: Seq<char>, fish: bool) -> Seq<char> {
    let quoted = seq!['\''] + esc_str(dir) + seq!['\''];
    if fish {
        "set -l dir "@ + quoted
    } else {
        "dir="@ + quoted
    }
}

/// Build a shell assignment for the directory variable, in fish or
/// POSIX form.
pub fn dir_assign_for_shell(dir: &str, fish: bool) -> (r: String)
    ensures
        r@ == spec_dir_assign(dir@, fish),
{
    let quoted = shell_escape(dir);
    let mut out: Vec<char> = Vec::new();
    if fish {
        crate::text::push_str_chars("set -l dir ", &mut out);
    } else {
        crate::text::push_str_chars("dir=", &mut out);
    }
    crate::text::push_str_chars(quoted.as_str(), &mut out);
    proof {
        assert(out@ =~= spec_dir_assign(dir@, fish));
    }
    string_of_chars(&out)
}

} // verus!
