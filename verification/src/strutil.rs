//! Verified helpers over `&str` and `Seq<char>`: equality, prefix tests,
//! character search, whitespace trimming and line splitting. The parsers and
//! normalizers state their contracts over these spec functions.

use vstd::prelude::*;

verus! {

/// The whitespace characters that trimming removes: the Unicode
/// `White_Space` set, the same set `str::trim` strips.
pub open spec fn spec_is_space(c: char) -> bool {
    ||| (9 <= c as u32 <= 13)  // tab, line feed, vertical tab, form feed, carriage return
    ||| c as u32 == 32  // space
    ||| c as u32 == 0x85  // next line
    ||| c as u32 == 0xa0  // no-break space
    ||| c as u32 == 0x1680  // ogham space mark
    ||| (0x2000 <= c as u32 <= 0x200a)  // en quad through hair space
    ||| c as u32 == 0x2028  // line separator
    ||| c as u32 == 0x2029  // paragraph separator
    ||| c as u32 == 0x202f  // narrow no-break space
    ||| c as u32 == 0x205f  // medium mathematical space
    ||| c as u32 == 0x3000  // ideographic space
}

/// ASCII decimal digit.
pub open spec fn spec_is_digit(c: char) -> bool {
    48 <= c as u32 <= 57
}

/// Numeric value of an ASCII digit.
pub open spec fn spec_digit_val(c: char) -> int {
    c as u32 - 48
}

/// Value of a sequence of ASCII digits, most significant first.
pub open spec fn spec_digits_val(s: Seq<char>) -> int
    decreases s.len(),
{
    if s.len() == 0 {
        0
    } else {
        spec_digits_val(s.drop_last()) * 10 + spec_digit_val(s.last())
    }
}

/// All characters of `s` are ASCII digits.
pub open spec fn spec_all_digits(s: Seq<char>) -> bool {
    forall|i: int| 0 <= i < s.len() ==> spec_is_digit(#[trigger] s[i])
}

/// Every character of `s` in `[from, to)` is an ASCII digit.
pub open spec fn spec_digits_range(s: Seq<char>, from: int, to: int) -> bool {
    forall|k: int| from <= k < to ==> spec_is_digit(#[trigger] s[k])
}

/// Ten to the `n`.
pub open spec fn spec_pow10(n: nat) -> int
    decreases n,
{
    if n == 0 {
        1
    } else {
        10 * spec_pow10((n - 1) as nat)
    }
}

pub proof fn lemma_digits_val_nonneg(s: Seq<char>)
    requires
        spec_all_digits(s),
    ensures
        spec_digits_val(s) >= 0,
    decreases s.len(),
{
    if s.len() > 0 {
        assert(spec_all_digits(s.drop_last()));
        lemma_digits_val_nonneg(s.drop_last());
    }
}

pub proof fn lemma_digits_val_bound(s: Seq<char>)
    requires
        spec_all_digits(s),
    ensures
        0 <= spec_digits_val(s) < spec_pow10(s.len()),
    decreases s.len(),
{
    if s.len() > 0 {
        assert(spec_all_digits(s.drop_last()));
        lemma_digits_val_bound(s.drop_last());
    }
}

pub proof fn lemma_pow10_pos(n: nat)
    ensures
        spec_pow10(n) > 0,
    decreases n,
{
    if n > 0 {
        lemma_pow10_pos((n - 1) as nat);
    }
}

pub proof fn lemma_pow10_mono(a: nat, b: nat)
    requires
        a <= b,
    ensures
        0 < spec_pow10(a) <= spec_pow10(b),
    decreases b,
{
    lemma_pow10_pos(a);
    if a < b {
        lemma_pow10_mono(a, (b - 1) as nat);
    }
}

/// `p` is a prefix of `s`.
pub open spec fn spec_starts_with(s: Seq<char>, p: Seq<char>) -> bool {
    p.len() <= s.len() && s.subrange(0, p.len() as int) == p
}

/// Index of the first occurrence of `c` in `s` at or after `from`.
pub open spec fn spec_find(s: Seq<char>, c: char, from: int) -> Option<int>
    decreases s.len() - from,
{
    if from < 0 || from >= s.len() {
        None
    } else if s[from] == c {
        Some(from)
    } else {
        spec_find(s, c, from + 1)
    }
}

/// `s` without its leading whitespace.
pub open spec fn spec_trim_start(s: Seq<char>) -> Seq<char>
    decreases s.len(),
{
    if s.len() > 0 && spec_is_space(s[0]) {
        spec_trim_start(s.drop_first())
    } else {
        s
    }
}

/// `s` without its trailing whitespace.
pub open spec fn spec_trim_end(s: Seq<char>) -> Seq<char>
    decreases s.len(),
{
    if s.len() > 0 && spec_is_space(s.last()) {
        spec_trim_end(s.drop_last())
    } else {
        s
    }
}

/// `s` without leading and trailing whitespace.
pub open spec fn spec_trim(s: Seq<char>) -> Seq<char> {
    spec_trim_end(spec_trim_start(s))
}

/// Character-for-character string equality.
pub fn str_eq(a: &str, b: &str) -> (r: bool)
    ensures
        r == (a@ == b@),
{
    let an = a.unicode_len();
    let bn = b.unicode_len();
    if an != bn {
        return false;
    }
    let mut i: usize = 0;
    while i < an
        invariant
            an == a@.len(),
            an == b@.len(),
            0 <= i <= an,
            forall|k: int| 0 <= k < i ==> a@[k] == b@[k],
        decreases an - i,
    {
        if a.get_char(i) != b.get_char(i) {
            return false;
        }
        i = i + 1;
    }
    proof {
        assert(a@ =~= b@);
    }
    true
}

/// Whether `p` is a prefix of `s`.
pub fn str_starts_with(s: &str, p: &str) -> (r: bool)
    ensures
        r == spec_starts_with(s@, p@),
{
    let sn = s.unicode_len();
    let pn = p.unicode_len();
    if pn > sn {
        return false;
    }
    let mut i: usize = 0;
    while i < pn
        invariant
            sn == s@.len(),
            pn == p@.len(),
            pn <= sn,
            0 <= i <= pn,
            forall|k: int| 0 <= k < i ==> s@[k] == p@[k],
        decreases pn - i,
    {
        if s.get_char(i) != p.get_char(i) {
            return false;
        }
        i = i + 1;
    }
    proof {
        assert(s@.subrange(0, p@.len() as int) =~= p@);
    }
    true
}

/// First occurrence of `c` in `s` at or after `from`.
pub fn find_char(s: &str, c: char, from: usize) -> (r: Option<usize>)
    requires
        from <= s@.len(),
    ensures
        match r {
            Some(i) => from <= i && i < s@.len() && s@[i as int] == c && spec_find(
                s@,
                c,
                from as int,
            ) == Some(i as int),
            None => spec_find(s@, c, from as int) is None,
        },
{
    let n = s.unicode_len();
    let mut i: usize = from;
    while i < n
        invariant
            n == s@.len(),
            from <= i <= n,
            spec_find(s@, c, from as int) == spec_find(s@, c, i as int),
        decreases n - i,
    {
        if s.get_char(i) == c {
            return Some(i);
        }
        i = i + 1;
    }
    None
}

/// Whether `c` is a Unicode whitespace character, per [`spec_is_space`].
pub fn is_space_char(c: char) -> (r: bool)
    ensures
        r == spec_is_space(c),
{
    let u = c as u32;
    (9 <= u && u <= 13) || u == 32 || u == 0x85 || u == 0xa0 || u == 0x1680 || (0x2000 <= u && u
        <= 0x200a) || u == 0x2028 || u == 0x2029 || u == 0x202f || u == 0x205f || u == 0x3000
}

/// Whether `c` is an ASCII digit.
pub fn is_digit_char(c: char) -> (r: bool)
    ensures
        r == spec_is_digit(c),
{
    let u = c as u32;
    48 <= u && u <= 57
}

proof fn lemma_trim_start_skip(s: Seq<char>, i: int)
    requires
        0 <= i <= s.len(),
        forall|k: int| 0 <= k < i ==> spec_is_space(#[trigger] s[k]),
    ensures
        spec_trim_start(s) == spec_trim_start(s.skip(i)),
    decreases i,
{
    if i > 0 {
        assert(s.skip(0) =~= s);
        assert(spec_is_space(s[0]));
        assert(spec_trim_start(s) == spec_trim_start(s.drop_first()));
        assert(s.drop_first() =~= s.skip(1));
        lemma_trim_start_skip_from(s, 1, i);
    } else {
        assert(s.skip(0) =~= s);
    }
}

proof fn lemma_trim_start_skip_from(s: Seq<char>, j: int, i: int)
    requires
        1 <= j <= i <= s.len(),
        forall|k: int| 0 <= k < i ==> spec_is_space(#[trigger] s[k]),
    ensures
        spec_trim_start(s.skip(j)) == spec_trim_start(s.skip(i)),
    decreases i - j,
{
    if j < i {
        assert(spec_is_space(s.skip(j)[0]));
        assert(spec_trim_start(s.skip(j)) == spec_trim_start(s.skip(j).drop_first()));
        assert(s.skip(j).drop_first() =~= s.skip(j + 1));
        lemma_trim_start_skip_from(s, j + 1, i);
    }
}

proof fn lemma_trim_end_take(s: Seq<char>, j: int)
    requires
        0 <= j <= s.len(),
        forall|k: int| j <= k < s.len() ==> spec_is_space(#[trigger] s[k]),
    ensures
        spec_trim_end(s) == spec_trim_end(s.take(j)),
    decreases s.len() - j,
{
    if j < s.len() {
        assert(spec_is_space(s.last()));
        assert(spec_trim_end(s) == spec_trim_end(s.drop_last()));
        assert(s.drop_last() =~= s.take(s.len() - 1));
        lemma_trim_end_take(s.take(s.len() - 1), j);
        assert(s.take(s.len() - 1).take(j) =~= s.take(j));
    } else {
        assert(s.take(j) =~= s);
    }
}

/// Whether every character of `s` in `[from, to)` is an ASCII digit.
pub fn all_digits_in(s: &str, from: usize, to: usize) -> (r: bool)
    requires
        from <= to <= s@.len(),
    ensures
        r == spec_digits_range(s@, from as int, to as int),
{
    let mut i: usize = from;
    while i < to
        invariant
            from <= i <= to <= s@.len(),
            forall|k: int| from <= k < i ==> spec_is_digit(#[trigger] s@[k]),
        decreases to - i,
    {
        if !is_digit_char(s.get_char(i)) {
            return false;
        }
        i = i + 1;
    }
    true
}

/// Value of the digit run `s[from..to]`, at most eight digits wide.
pub fn digits_value(s: &str, from: usize, to: usize) -> (r: u64)
    requires
        from <= to <= s@.len(),
        to - from <= 8,
        spec_digits_range(s@, from as int, to as int),
    ensures
        r == spec_digits_val(s@.subrange(from as int, to as int)),
        r <= 99999999,
{
    let mut acc: u64 = 0;
    let mut i: usize = from;
    proof {
        assert(s@.subrange(from as int, from as int) =~= Seq::<char>::empty());
        reveal_with_fuel(spec_pow10, 9);
    }
    while i < to
        invariant
            from <= i <= to <= s@.len(),
            to - from <= 8,
            spec_digits_range(s@, from as int, to as int),
            acc == spec_digits_val(s@.subrange(from as int, i as int)),
            acc < spec_pow10((i - from) as nat),
            spec_pow10((i - from) as nat) <= 100000000,
        decreases to - i,
    {
        let c = s.get_char(i);
        let d: u64 = (c as u32 - 48) as u64;
        proof {
            lemma_pow10_mono((i - from) as nat, 7);
            reveal_with_fuel(spec_pow10, 9);
            assert(s@.subrange(from as int, i + 1).drop_last() =~= s@.subrange(
                from as int,
                i as int,
            ));
            assert(s@.subrange(from as int, i + 1).last() == s@[i as int]);
            assert forall|k: int|
                0 <= k < s@.subrange(from as int, i + 1).len() implies spec_is_digit(
                #[trigger] s@.subrange(from as int, i + 1)[k],
            ) by {
                assert(s@.subrange(from as int, i + 1)[k] == s@[from + k]);
            }
            lemma_digits_val_bound(s@.subrange(from as int, i + 1));
            lemma_pow10_mono((i + 1 - from) as nat, 8);
        }
        acc = acc * 10 + d;
        i = i + 1;
    }
    proof {
        lemma_pow10_mono((i - from) as nat, 8);
        reveal_with_fuel(spec_pow10, 9);
    }
    acc
}

/// Index of the first character at or after `from` that is not a digit.
pub open spec fn spec_skip_digits(s: Seq<char>, from: int) -> int
    decreases s.len() - from,
{
    if from < 0 || from >= s.len() {
        s.len() as int
    } else if spec_is_digit(s[from]) {
        spec_skip_digits(s, from + 1)
    } else {
        from
    }
}

/// First index at or after `from` whose character is not a digit, or the
/// length of `s`.
pub fn skip_digits(s: &str, from: usize) -> (r: usize)
    requires
        from <= s@.len(),
    ensures
        r == spec_skip_digits(s@, from as int),
        from <= r <= s@.len(),
{
    let n = s.unicode_len();
    let mut i: usize = from;
    while i < n
        invariant
            from <= i <= n,
            n == s@.len(),
            spec_skip_digits(s@, from as int) == spec_skip_digits(s@, i as int),
        decreases n - i,
    {
        if !is_digit_char(s.get_char(i)) {
            return i;
        }
        i = i + 1;
    }
    n
}

/// The segments of `s[from..]` between newline characters, the newlines
/// themselves dropped. Always at least one segment, possibly empty.
pub open spec fn spec_split_nl_from(s: Seq<char>, from: int) -> Seq<Seq<char>>
    decreases s.len() - from,
{
    match spec_find(s, '\n', from) {
        Some(i) => if from <= i < s.len() {
            seq![s.subrange(from, i)] + spec_split_nl_from(s, i + 1)
        } else {
            seq![s.subrange(from, s.len() as int)]
        },
        None => seq![s.subrange(from, s.len() as int)],
    }
}

/// One trailing carriage return removed.
pub open spec fn spec_strip_cr(l: Seq<char>) -> Seq<char> {
    if l.len() > 0 && l.last() == '\r' {
        l.drop_last()
    } else {
        l
    }
}

/// The lines of `s` as `str::lines` yields them: split at `\n`, one
/// trailing `\r` per line removed, and the line ending of the last line
/// optional (no empty final line for a trailing newline, no lines at all
/// for an empty string).
pub open spec fn spec_std_lines(s: Seq<char>) -> Seq<Seq<char>> {
    if s.len() == 0 {
        Seq::empty()
    } else {
        let parts = spec_split_nl_from(s, 0);
        let kept = if parts.last().len() == 0 {
            parts.drop_last()
        } else {
            parts
        };
        kept.map_values(|l: Seq<char>| spec_strip_cr(l))
    }
}

/// Splits `s` into its lines, as `str::lines` does.
pub fn split_std_lines(s: &str) -> (r: Vec<String>)
    ensures
        r.deep_view() == spec_std_lines(s@),
{
    let n = s.unicode_len();
    let mut parts: Vec<String> = Vec::new();
    if n == 0 {
        proof {
            assert(parts.deep_view() =~= spec_std_lines(s@));
        }
        return parts;
    }
    let mut pos: usize = 0;
    loop
        invariant_except_break
            n == s@.len(),
            0 <= pos <= n,
            spec_split_nl_from(s@, 0) =~= parts.deep_view() + spec_split_nl_from(s@, pos as int),
        ensures
            parts.deep_view() == spec_split_nl_from(s@, 0),
            parts.deep_view().len() > 0,
        decreases n - pos,
    {
        let ghost prev = parts.deep_view();
        match find_char(s, '\n', pos) {
            Some(i) => {
                let piece = s.substring_char(pos, i).to_owned();
                parts.push(piece);
                proof {
                    assert(parts.deep_view() =~= prev.push(s@.subrange(pos as int, i as int)));
                    assert(spec_split_nl_from(s@, pos as int) =~= seq![
                        s@.subrange(pos as int, i as int),
                    ] + spec_split_nl_from(s@, i + 1));
                }
                pos = i + 1;
            },
            None => {
                let piece = s.substring_char(pos, n).to_owned();
                parts.push(piece);
                proof {
                    assert(parts.deep_view() =~= prev.push(s@.subrange(pos as int, n as int)));
                    assert(spec_split_nl_from(s@, pos as int) =~= seq![
                        s@.subrange(pos as int, n as int),
                    ]);
                }
                break ;
            },
        }
    }
    let last_len = parts[parts.len() - 1].as_str().unicode_len();
    if last_len == 0 {
        proof {
            let pd = parts.deep_view();
            assert(pd.last() == parts@[parts@.len() - 1].deep_view());
        }
        let _ = parts.pop();
        proof {
            assert(parts.deep_view() =~= spec_split_nl_from(s@, 0).drop_last());
        }
    }
    let ghost kept = parts.deep_view();
    let mut out: Vec<String> = Vec::new();
    let mut i: usize = 0;
    let parts_len = parts.len();
    while i < parts_len
        invariant
            parts_len == parts@.len(),
            0 <= i <= parts_len,
            kept == parts.deep_view(),
            out.deep_view() =~= kept.take(i as int).map_values(
                |l: Seq<char>| spec_strip_cr(l),
            ),
        decreases parts_len - i,
    {
        let ghost prev_out = out.deep_view();
        let p = parts[i].as_str();
        let pn = p.unicode_len();
        if pn > 0 && p.get_char(pn - 1) == '\r' {
            out.push(p.substring_char(0, pn - 1).to_owned());
            proof {
                assert(p@.subrange(0, p@.len() - 1) =~= p@.drop_last());
            }
        } else {
            out.push(p.to_owned());
        }
        proof {
            assert(parts.deep_view()[i as int] == parts@[i as int].deep_view());
            assert(out.deep_view() =~= prev_out.push(spec_strip_cr(kept[i as int])));
            assert(kept.take(i + 1).map_values(|l: Seq<char>| spec_strip_cr(l)) =~= kept.take(
                i as int,
            ).map_values(|l: Seq<char>| spec_strip_cr(l)).push(spec_strip_cr(kept[i as int])));
        }
        i = i + 1;
    }
    proof {
        assert(kept.take(kept.len() as int) =~= kept);
        assert(out.deep_view() =~= spec_std_lines(s@));
    }
    out
}

/// `s` with leading and trailing ASCII whitespace removed.
pub fn trim_str<'a>(s: &'a str) -> (r: &'a str)
    ensures
        r@ == spec_trim(s@),
{
    let n = s.unicode_len();
    let mut i: usize = 0;
    while i < n && is_space_char(s.get_char(i))
        invariant
            n == s@.len(),
            0 <= i <= n,
            forall|k: int| 0 <= k < i ==> spec_is_space(#[trigger] s@[k]),
        decreases n - i,
    {
        i = i + 1;
    }
    proof {
        lemma_trim_start_skip(s@, i as int);
        if i < n {
            assert(!spec_is_space(s@.skip(i as int)[0]));
        }
        assert(spec_trim_start(s@) == s@.skip(i as int));
    }
    // from here on, spec_trim(s@) == spec_trim_end(s@.skip(i))
    let mut j: usize = n;
    while j > i && is_space_char(s.get_char(j - 1))
        invariant
            n == s@.len(),
            0 <= i <= j <= n,
            forall|k: int| 0 <= k < i ==> spec_is_space(#[trigger] s@[k]),
            forall|k: int| j <= k < n ==> spec_is_space(#[trigger] s@[k]),
        decreases j,
    {
        j = j - 1;
    }
    proof {
        let t = s@.skip(i as int);
        lemma_trim_end_take(t, j - i);
        if j > i {
            assert(t.take(j - i).last() == s@[j - 1]);
            assert(!spec_is_space(t.take(j - i).last()));
        }
        assert(spec_trim_end(t.take(j - i)) == t.take(j - i));
        assert(t.take(j - i) =~= s@.subrange(i as int, j as int));
    }
    s.substring_char(i, j)
}

} // verus!
