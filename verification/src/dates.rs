//! The date normalizer: institution-specific date encodings are rewritten
//! into one canonical timestamp string, `YYYY-MM-DDThh:mm:ss±hh:mm`.
//!
//! `parse_ofx_date` recognizes the bare OFX numeric timestamp
//! `YYYYMMDDhhmmss`, also when a `.fff[offset]` or `[offset]` annotation
//! trails it; the time of day is deliberately zeroed, only the date matters
//! here. `parse_and_format_date` additionally recognizes a strict
//! `YYYY-MM-DDThh:mm:ss[.frac](Z|±hh:mm)` timestamp (the instant is kept,
//! fraction included, and `Z` becomes `+00:00`), `YYYY-MM-DD`, and
//! `MM/DD/YYYY`.
//! A string matching no pattern is returned unchanged, never an error:
//! downstream treats an unchanged value as "format unknown".
//!
//! Dates are validated against the proleptic Gregorian calendar; digit
//! widths are fixed, and whitespace is not tolerated.

use vstd::prelude::*;

use crate::strutil::{
    all_digits_in, digits_value, find_char, skip_digits, spec_digits_range, spec_digits_val,
    spec_find, spec_skip_digits,
};

verus! {

/// Leap year of the proleptic Gregorian calendar.
pub open spec fn spec_is_leap_year(y: int) -> bool {
    y % 4 == 0 && (y % 100 != 0 || y % 400 == 0)
}

/// Number of days of month `m` in year `y`.
pub open spec fn spec_days_in_month(y: int, m: int) -> int {
    if m == 2 {
        if spec_is_leap_year(y) {
            29
        } else {
            28
        }
    } else if m == 4 || m == 6 || m == 9 || m == 11 {
        30
    } else {
        31
    }
}

/// `y-m-d` names a calendar day.
pub open spec fn spec_valid_ymd(y: int, m: int, d: int) -> bool {
    1 <= m <= 12 && 1 <= d <= spec_days_in_month(y, m)
}

/// Value of the digit run `s[a..b]`.
pub open spec fn spec_num(s: Seq<char>, a: int, b: int) -> int {
    spec_digits_val(s.subrange(a, b))
}

/// The bare OFX numeric timestamp: exactly `YYYYMMDDhhmmss`, naming a
/// calendar day and a time of day.
pub open spec fn spec_is_ofx_timestamp(s: Seq<char>) -> bool {
    &&& s.len() == 14
    &&& spec_digits_range(s, 0, 14)
    &&& spec_valid_ymd(spec_num(s, 0, 4), spec_num(s, 4, 6), spec_num(s, 6, 8))
    &&& spec_num(s, 8, 10) <= 23
    &&& spec_num(s, 10, 12) <= 59
    &&& spec_num(s, 12, 14) <= 59
}

/// The canonical rendering of the day named by the first eight characters
/// of `s` (`YYYYMMDD`), at midnight UTC.
pub open spec fn spec_date_only_render(s: Seq<char>) -> Seq<char> {
    s.subrange(0, 4) + "-"@ + s.subrange(4, 6) + "-"@ + s.subrange(6, 8) + "T00:00:00+00:00"@
}

/// Where the OFX timezone annotation begins: the first `.`, else the first
/// `[`, else the end of the string.
pub open spec fn spec_ofx_prefix_end(s: Seq<char>) -> int {
    match spec_find(s, '.', 0) {
        Some(i) => i,
        None => match spec_find(s, '[', 0) {
            Some(i) => i,
            None => s.len() as int,
        },
    }
}

/// What `parse_ofx_date` returns: the canonical day for an OFX numeric
/// timestamp, bare or with a trailing annotation, and the input itself
/// otherwise.
pub open spec fn spec_parse_ofx_date(s: Seq<char>) -> Seq<char> {
    if spec_is_ofx_timestamp(s) {
        spec_date_only_render(s)
    } else {
        let p = s.take(spec_ofx_prefix_end(s));
        if spec_is_ofx_timestamp(p) {
            spec_date_only_render(p)
        } else {
            s
        }
    }
}

/// `YYYY-MM-DD`, naming a calendar day.
pub open spec fn spec_is_dashed_date(s: Seq<char>) -> bool {
    &&& s.len() == 10
    &&& spec_digits_range(s, 0, 4)
    &&& s[4] == '-'
    &&& spec_digits_range(s, 5, 7)
    &&& s[7] == '-'
    &&& spec_digits_range(s, 8, 10)
    &&& spec_valid_ymd(spec_num(s, 0, 4), spec_num(s, 5, 7), spec_num(s, 8, 10))
}

/// The canonical rendering of a `YYYY-MM-DD` day.
pub open spec fn spec_dashed_render(s: Seq<char>) -> Seq<char> {
    s + "T00:00:00+00:00"@
}

/// `MM/DD/YYYY`, naming a calendar day.
pub open spec fn spec_is_slashed_date(s: Seq<char>) -> bool {
    &&& s.len() == 10
    &&& spec_digits_range(s, 0, 2)
    &&& s[2] == '/'
    &&& spec_digits_range(s, 3, 5)
    &&& s[5] == '/'
    &&& spec_digits_range(s, 6, 10)
    &&& spec_valid_ymd(spec_num(s, 6, 10), spec_num(s, 0, 2), spec_num(s, 3, 5))
}

/// The canonical rendering of a `MM/DD/YYYY` day.
pub open spec fn spec_slashed_render(s: Seq<char>) -> Seq<char> {
    s.subrange(6, 10) + "-"@ + s.subrange(0, 2) + "-"@ + s.subrange(3, 5) + "T00:00:00+00:00"@
}

/// Index just past the fractional seconds: past the digits after a `.` in
/// position 19, else 19 itself.
pub open spec fn spec_rfc3339_frac_end(s: Seq<char>) -> int {
    if s.len() > 19 && s[19] == '.' {
        spec_skip_digits(s, 20)
    } else {
        19
    }
}

/// The full timestamp grammar `YYYY-MM-DDThh:mm:ss[.frac](Z|±hh:mm)`,
/// with `t` and `z` accepted in lower case, a non-empty fraction when the
/// dot is present, and all fields within their calendar and clock ranges;
/// a second of `60` is accepted, so a leap-second timestamp is recognized
/// rather than passed through unchanged.
pub open spec fn spec_is_rfc3339(s: Seq<char>) -> bool {
    &&& s.len() >= 20
    &&& spec_digits_range(s, 0, 4)
    &&& s[4] == '-'
    &&& spec_digits_range(s, 5, 7)
    &&& s[7] == '-'
    &&& spec_digits_range(s, 8, 10)
    &&& (s[10] == 'T' || s[10] == 't')
    &&& spec_digits_range(s, 11, 13)
    &&& s[13] == ':'
    &&& spec_digits_range(s, 14, 16)
    &&& s[16] == ':'
    &&& spec_digits_range(s, 17, 19)
    &&& spec_valid_ymd(spec_num(s, 0, 4), spec_num(s, 5, 7), spec_num(s, 8, 10))
    &&& spec_num(s, 11, 13) <= 23
    &&& spec_num(s, 14, 16) <= 59
    &&& spec_num(s, 17, 19) <= 60
    &&& {
        let fe = spec_rfc3339_frac_end(s);
        &&& (s[19] == '.' ==> fe > 20)
        &&& fe < s.len()
        &&& ({
            let c = s[fe];
            ||| ((c == 'Z' || c == 'z') && fe + 1 == s.len())
            ||| ((c == '+' || c == '-') && fe + 6 == s.len() && spec_digits_range(s, fe + 1, fe + 3)
                && s[fe + 3] == ':' && spec_digits_range(s, fe + 4, fe + 6) && spec_num(
                s,
                fe + 1,
                fe + 3,
            ) <= 23 && spec_num(s, fe + 4, fe + 6) <= 59)
        })
    }
}

/// The canonical rendering of a full timestamp: date and time kept,
/// fractional seconds included, `T` upper-cased, and `Z` written as
/// `+00:00`. The instant is preserved; only the letter case and the
/// spelling of a zero offset are normalized.
pub open spec fn spec_rfc3339_render(s: Seq<char>) -> Seq<char> {
    let fe = spec_rfc3339_frac_end(s);
    s.subrange(0, 10) + "T"@ + s.subrange(11, fe) + (if s[fe] == '+' || s[fe] == '-' {
        s.subrange(fe, fe + 6)
    } else {
        "+00:00"@
    })
}

/// What `parse_and_format_date` returns: the patterns are tried in a fixed
/// order, and a string matching none comes back unchanged.
pub open spec fn spec_parse_and_format_date(s: Seq<char>) -> Seq<char> {
    if spec_is_rfc3339(s) {
        spec_rfc3339_render(s)
    } else if spec_is_dashed_date(s) {
        spec_dashed_render(s)
    } else if spec_is_slashed_date(s) {
        spec_slashed_render(s)
    } else if spec_is_ofx_timestamp(s) {
        spec_date_only_render(s)
    } else {
        s
    }
}

/// Number of days of month `m` in year `y`.
fn days_in_month(y: u64, m: u64) -> (r: u64)
    ensures
        r == spec_days_in_month(y as int, m as int),
{
    if m == 2 {
        if y % 4 == 0 && (y % 100 != 0 || y % 400 == 0) {
            29
        } else {
            28
        }
    } else if m == 4 || m == 6 || m == 9 || m == 11 {
        30
    } else {
        31
    }
}

/// Whether `y-m-d` names a calendar day.
fn valid_ymd(y: u64, m: u64, d: u64) -> (r: bool)
    ensures
        r == spec_valid_ymd(y as int, m as int, d as int),
{
    1 <= m && m <= 12 && 1 <= d && d <= days_in_month(y, m)
}

/// Whether `s` is exactly an OFX numeric timestamp.
fn check_ofx_timestamp(s: &str) -> (r: bool)
    ensures
        r == spec_is_ofx_timestamp(s@),
{
    if s.unicode_len() != 14 {
        return false;
    }
    if !all_digits_in(s, 0, 14) {
        return false;
    }
    let y = digits_value(s, 0, 4);
    let mo = digits_value(s, 4, 6);
    let d = digits_value(s, 6, 8);
    let h = digits_value(s, 8, 10);
    let mi = digits_value(s, 10, 12);
    let se = digits_value(s, 12, 14);
    valid_ymd(y, mo, d) && h <= 23 && mi <= 59 && se <= 59
}

/// Renders the day named by the first eight characters (`YYYYMMDD`) of `s`
/// at midnight UTC.
fn render_date_only(s: &str) -> (r: String)
    requires
        s@.len() >= 8,
    ensures
        r@ == spec_date_only_render(s@),
{
    let mut out = s.substring_char(0, 4).to_owned();
    out.append("-");
    out.append(s.substring_char(4, 6));
    out.append("-");
    out.append(s.substring_char(6, 8));
    out.append("T00:00:00+00:00");
    proof {
        assert(out@ =~= spec_date_only_render(s@));
    }
    out
}

/// Normalizes an OFX posted-date string to the canonical form, per
/// [`spec_parse_ofx_date`]; an unrecognized string is returned unchanged.
pub fn parse_ofx_date(raw: &str) -> (r: String)
    ensures
        r@ == spec_parse_ofx_date(raw@),
{
    if check_ofx_timestamp(raw) {
        return render_date_only(raw);
    }
    let n = raw.unicode_len();
    let end = match find_char(raw, '.', 0) {
        Some(i) => i,
        None => match find_char(raw, '[', 0) {
            Some(i) => i,
            None => n,
        },
    };
    let p = raw.substring_char(0, end);
    proof {
        assert(p@ =~= raw@.take(spec_ofx_prefix_end(raw@)));
    }
    if check_ofx_timestamp(p) {
        render_date_only(p)
    } else {
        raw.to_owned()
    }
}

/// Whether `s` is of the full timestamp grammar.
fn check_rfc3339(s: &str) -> (r: bool)
    ensures
        r == spec_is_rfc3339(s@),
{
    let n = s.unicode_len();
    if n < 20 {
        return false;
    }
    if !(all_digits_in(s, 0, 4) && s.get_char(4) == '-' && all_digits_in(s, 5, 7) && s.get_char(7)
        == '-' && all_digits_in(s, 8, 10)) {
        return false;
    }
    let t = s.get_char(10);
    if !(t == 'T' || t == 't') {
        return false;
    }
    if !(all_digits_in(s, 11, 13) && s.get_char(13) == ':' && all_digits_in(s, 14, 16)
        && s.get_char(16) == ':' && all_digits_in(s, 17, 19)) {
        return false;
    }
    let y = digits_value(s, 0, 4);
    let mo = digits_value(s, 5, 7);
    let d = digits_value(s, 8, 10);
    if !valid_ymd(y, mo, d) {
        return false;
    }
    if !(digits_value(s, 11, 13) <= 23 && digits_value(s, 14, 16) <= 59 && digits_value(s, 17, 19)
        <= 60) {
        return false;
    }
    let fe: usize = if s.get_char(19) == '.' {
        let e = skip_digits(s, 20);
        if e <= 20 {
            return false;
        }
        e
    } else {
        19
    };
    if fe >= n {
        return false;
    }
    let c = s.get_char(fe);
    if c == 'Z' || c == 'z' {
        fe + 1 == n
    } else if c == '+' || c == '-' {
        if n - fe != 6 {
            return false;
        }
        if !(all_digits_in(s, fe + 1, fe + 3) && s.get_char(fe + 3) == ':' && all_digits_in(
            s,
            fe + 4,
            fe + 6,
        )) {
            return false;
        }
        digits_value(s, fe + 1, fe + 3) <= 23 && digits_value(s, fe + 4, fe + 6) <= 59
    } else {
        false
    }
}

/// Renders a full timestamp canonically: fractional seconds kept,
/// `T` upper-cased, `Z` written as `+00:00`.
fn render_rfc3339(s: &str) -> (r: String)
    requires
        spec_is_rfc3339(s@),
    ensures
        r@ == spec_rfc3339_render(s@),
{
    let n = s.unicode_len();
    let fe: usize = if s.get_char(19) == '.' {
        skip_digits(s, 20)
    } else {
        19
    };
    let mut out = s.substring_char(0, 10).to_owned();
    out.append("T");
    out.append(s.substring_char(11, fe));
    let c = s.get_char(fe);
    if c == '+' || c == '-' {
        out.append(s.substring_char(fe, fe + 6));
    } else {
        out.append("+00:00");
    }
    proof {
        assert(out@ =~= spec_rfc3339_render(s@));
    }
    out
}

/// Normalizes a date string to the canonical form, per
/// [`spec_parse_and_format_date`]: full timestamps, `YYYY-MM-DD`,
/// `MM/DD/YYYY` and OFX numeric timestamps are recognized, in that order;
/// anything else is returned unchanged.
pub fn parse_and_format_date(raw: &str) -> (r: String)
    ensures
        r@ == spec_parse_and_format_date(raw@),
{
    if check_rfc3339(raw) {
        return render_rfc3339(raw);
    }
    let n = raw.unicode_len();
    if n == 10 {
        if all_digits_in(raw, 0, 4) && raw.get_char(4) == '-' && all_digits_in(raw, 5, 7)
            && raw.get_char(7) == '-' && all_digits_in(raw, 8, 10) {
            let y = digits_value(raw, 0, 4);
            let mo = digits_value(raw, 5, 7);
            let d = digits_value(raw, 8, 10);
            if valid_ymd(y, mo, d) {
                let mut out = raw.to_owned();
                out.append("T00:00:00+00:00");
                return out;
            }
        }
        if all_digits_in(raw, 0, 2) && raw.get_char(2) == '/' && all_digits_in(raw, 3, 5)
            && raw.get_char(5) == '/' && all_digits_in(raw, 6, 10) {
            let y = digits_value(raw, 6, 10);
            let mo = digits_value(raw, 0, 2);
            let d = digits_value(raw, 3, 5);
            if valid_ymd(y, mo, d) {
                let mut out = raw.substring_char(6, 10).to_owned();
                out.append("-");
                out.append(raw.substring_char(0, 2));
                out.append("-");
                out.append(raw.substring_char(3, 5));
                out.append("T00:00:00+00:00");
                proof {
                    assert(out@ =~= spec_slashed_render(raw@));
                }
                return out;
            }
        }
    }
    if check_ofx_timestamp(raw) {
        return render_date_only(raw);
    }
    raw.to_owned()
}

} // verus!
