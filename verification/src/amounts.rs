//! The amount normalizer: converts a decimal currency string into a signed
//! integer amount of minor units (cents). The value is the decimal multiplied
//! by one hundred and truncated toward zero; the sign is taken from the
//! string. A string outside the accepted grammar, or a value that does not
//! fit an `i32`, normalizes to zero: a zero-amount transaction is a visible,
//! auditable anomaly rather than a failed batch.

use vstd::prelude::*;

use crate::strutil::{
    find_char, is_digit_char, lemma_digits_val_nonneg, spec_all_digits, spec_digit_val,
    spec_digits_val, spec_find, spec_is_digit,
};

verus! {

/// Minor units of the first two fraction digits: one digit counts tens of a
/// cent, further digits are truncated.
pub open spec fn spec_frac_cents(fp: Seq<char>) -> int {
    if fp.len() == 1 {
        spec_digit_val(fp[0]) * 10
    } else {
        spec_digits_val(fp.take(2))
    }
}

/// The decimal grammar: an optional `-` or `+` sign, one or more digits,
/// optionally followed by `.` and one or more digits. Yields the signed
/// value in minor units, or `None` when the string is not of that shape.
pub open spec fn spec_amount_parsed(s: Seq<char>) -> Option<int> {
    let signed = s.len() > 0 && (s[0] == '-' || s[0] == '+');
    let sign: int = if s.len() > 0 && s[0] == '-' {
        -1
    } else {
        1
    };
    let body = if signed {
        s.drop_first()
    } else {
        s
    };
    match spec_find(body, '.', 0) {
        None => if body.len() > 0 && spec_all_digits(body) {
            Some(sign * spec_digits_val(body) * 100)
        } else {
            None
        },
        Some(d) => {
            let ip = body.take(d);
            let fp = body.skip(d + 1);
            if ip.len() > 0 && fp.len() > 0 && spec_all_digits(ip) && spec_all_digits(fp) {
                Some(sign * (spec_digits_val(ip) * 100 + spec_frac_cents(fp)))
            } else {
                None
            }
        },
    }
}

/// The normalized amount: the parsed value when it fits an `i32`, zero
/// otherwise.
pub open spec fn spec_normalize_amount(s: Seq<char>) -> i32 {
    match spec_amount_parsed(s) {
        Some(v) => if i32::MIN <= v <= i32::MAX {
            v as i32
        } else {
            0
        },
        None => 0,
    }
}

proof fn lemma_digits_val_step(s: Seq<char>, i: int)
    requires
        0 <= i < s.len(),
    ensures
        spec_digits_val(s.take(i + 1)) == spec_digits_val(s.take(i)) * 10 + spec_digit_val(s[i]),
{
    assert(s.take(i + 1).drop_last() =~= s.take(i));
    assert(s.take(i + 1).last() == s[i]);
}

proof fn lemma_frac_cents_nonneg(fp: Seq<char>)
    requires
        fp.len() > 0,
        spec_all_digits(fp),
    ensures
        spec_frac_cents(fp) >= 0,
{
    if fp.len() != 1 {
        assert forall|i: int| 0 <= i < fp.take(2).len() implies spec_is_digit(
            #[trigger] fp.take(2)[i],
        ) by {
            assert(fp.take(2)[i] == fp[i]);
        }
        lemma_digits_val_nonneg(fp.take(2));
    }
}

proof fn lemma_digits_val_mono(s: Seq<char>, i: int, j: int)
    requires
        0 <= i <= j <= s.len(),
        forall|k: int| 0 <= k < j ==> spec_is_digit(#[trigger] s[k]),
    ensures
        spec_digits_val(s.take(i)) <= spec_digits_val(s.take(j)),
    decreases j - i,
{
    if i < j {
        assert(spec_all_digits(s.take(j - 1)));
        lemma_digits_val_nonneg(s.take(j - 1));
        lemma_digits_val_step(s, j - 1);
        lemma_digits_val_mono(s, i, j - 1);
    }
}

/// Scans `body` for digits from index 0 up to `until`, accumulating the
/// value; reports a non-digit, or a value that can no longer fit.
enum DigitScan {
    Value(u64),
    NonDigit,
    TooBig,
}

/// Accumulates the value of `body[0..until]`, stopping early once the value
/// exceeds `u32::MAX` (every longer digit string is at least as large).
fn scan_digits(body: &str, until: usize) -> (r: DigitScan)
    requires
        until <= body@.len(),
    ensures
        match r {
            DigitScan::Value(v) => spec_all_digits(body@.take(until as int)) && v
                == spec_digits_val(body@.take(until as int)) && v <= u32::MAX,
            DigitScan::NonDigit => !spec_all_digits(body@.take(until as int)),
            DigitScan::TooBig => spec_all_digits(body@.take(until as int)) && spec_digits_val(
                body@.take(until as int),
            ) > u32::MAX,
        },
{
    let mut acc: u64 = 0;
    let mut i: usize = 0;
    proof {
        assert(body@.take(0) =~= Seq::<char>::empty());
    }
    while i < until
        invariant
            until <= body@.len(),
            0 <= i <= until,
            forall|k: int| 0 <= k < i ==> spec_is_digit(#[trigger] body@[k]),
            acc == spec_digits_val(body@.take(i as int)),
            acc <= u32::MAX,
        decreases until - i,
    {
        let c = body.get_char(i);
        if !is_digit_char(c) {
            proof {
                assert(body@.take(until as int)[i as int] == body@[i as int]);
            }
            return DigitScan::NonDigit;
        }
        let d: u64 = (c as u32 - 48) as u64;
        let next: u64 = acc * 10 + d;
        proof {
            lemma_digits_val_step(body@, i as int);
        }
        if next > u32::MAX as u64 {
            if scan_rest_digits(body, i + 1, until) {
                proof {
                    assert forall|k: int|
                        0 <= k < until implies spec_is_digit(
                        #[trigger] body@.take(until as int)[k],
                    ) by {
                        assert(body@.take(until as int)[k] == body@[k]);
                    }
                    lemma_digits_val_mono(body@, i + 1, until as int);
                }
                return DigitScan::TooBig;
            } else {
                proof {
                    let k = choose|k: int|
                        i + 1 <= k < until && !spec_is_digit(#[trigger] body@[k]);
                    assert(body@.take(until as int)[k] == body@[k]);
                }
                return DigitScan::NonDigit;
            }
        }
        acc = next;
        i = i + 1;
    }
    proof {
        assert forall|k: int|
            0 <= k < until implies spec_is_digit(#[trigger] body@.take(until as int)[k]) by {
            assert(body@.take(until as int)[k] == body@[k]);
        }
    }
    DigitScan::Value(acc)
}

/// Whether `body[from..until]` consists of digits only.
fn scan_rest_digits(body: &str, from: usize, until: usize) -> (r: bool)
    requires
        from <= until <= body@.len(),
    ensures
        r == (forall|k: int| from <= k < until ==> spec_is_digit(#[trigger] body@[k])),
{
    let mut i: usize = from;
    while i < until
        invariant
            from <= i <= until <= body@.len(),
            forall|k: int| from <= k < i ==> spec_is_digit(#[trigger] body@[k]),
        decreases until - i,
    {
        if !is_digit_char(body.get_char(i)) {
            return false;
        }
        i = i + 1;
    }
    true
}

/// Normalizes a decimal currency string to signed minor units, per
/// [`spec_normalize_amount`]: the sign is preserved, the value is scaled by
/// one hundred and truncated, and anything unparsable or out of range
/// becomes zero.
pub fn normalize_amount(raw: &str) -> (r: i32)
    ensures
        r == spec_normalize_amount(raw@),
{
    let n = raw.unicode_len();
    let signed = n > 0 && {
        let c0 = raw.get_char(0);
        c0 == '-' || c0 == '+'
    };
    let negative = n > 0 && raw.get_char(0) == '-';
    let off: usize = if signed {
        1
    } else {
        0
    };
    let body = raw.substring_char(off, n);
    proof {
        if signed {
            assert(body@ =~= raw@.drop_first());
        } else {
            assert(body@ =~= raw@);
        }
    }
    let ghost sign: int = if negative {
        -1
    } else {
        1
    };
    let bn = body.unicode_len();
    let dot = find_char(body, '.', 0);
    let (ip_end, fp_start): (usize, usize) = match dot {
        Some(d) => (d, d + 1),
        None => (bn, bn),
    };
    let ghost ip = body@.take(ip_end as int);
    proof {
        if dot is None {
            assert(ip =~= body@);
        }
    }
    if ip_end == 0 {
        // empty body or a leading dot: not of the grammar
        return 0;
    }
    let ip_val: u64 = match scan_digits(body, ip_end) {
        DigitScan::Value(v) => v,
        DigitScan::NonDigit => {
            return 0;
        },
        DigitScan::TooBig => {
            proof {
                lemma_digits_val_nonneg(ip);
                if dot is Some {
                    let fp = body@.skip(fp_start as int);
                    if fp.len() > 0 && spec_all_digits(fp) {
                        lemma_frac_cents_nonneg(fp);
                    }
                }
            }
            return 0;
        },
    };
    let frac: u64 = if fp_start < bn {
        // at least one fraction digit is present
        let f0 = body.get_char(fp_start);
        if !is_digit_char(f0) {
            proof {
                assert(body@.skip(fp_start as int)[0] == body@[fp_start as int]);
            }
            return 0;
        }
        if fp_start + 1 < bn {
            let f1 = body.get_char(fp_start + 1);
            if !is_digit_char(f1) {
                proof {
                    assert(body@.skip(fp_start as int)[1] == body@[fp_start + 1]);
                }
                return 0;
            }
            if !scan_rest_digits(body, fp_start + 2, bn) {
                proof {
                    let k = choose|k: int|
                        fp_start + 2 <= k < bn && !spec_is_digit(#[trigger] body@[k]);
                    assert(body@.skip(fp_start as int)[k - fp_start] == body@[k]);
                }
                return 0;
            }
            proof {
                reveal_with_fuel(spec_digits_val, 3);
                let fp = body@.skip(fp_start as int);
                assert(fp.take(2) =~= seq![body@[fp_start as int], body@[fp_start + 1]]);
                assert(fp.take(2).drop_last() =~= seq![body@[fp_start as int]]);
                assert(seq![body@[fp_start as int]].drop_last() =~= Seq::<char>::empty());
                assert(spec_digits_val(fp.take(2)) == spec_digit_val(body@[fp_start as int]) * 10
                    + spec_digit_val(body@[fp_start + 1]));
            }
            (f0 as u32 - 48) as u64 * 10 + (f1 as u32 - 48) as u64
        } else {
            proof {
                let fp = body@.skip(fp_start as int);
                assert(fp.len() == 1);
                assert(fp[0] == body@[fp_start as int]);
            }
            (f0 as u32 - 48) as u64 * 10
        }
    } else {
        if dot.is_some() {
            // a trailing dot with no fraction digits: not of the grammar
            return 0;
        }
        0
    };
    proof {
        if dot is Some {
            let fp = body@.skip(fp_start as int);
            assert(fp.len() > 0);
            assert forall|k: int| 0 <= k < fp.len() implies spec_is_digit(#[trigger] fp[k]) by {
                assert(fp[k] == body@[fp_start + k]);
            }
            assert(frac == spec_frac_cents(fp));
        }
        assert(spec_amount_parsed(raw@) == Some(sign * (ip_val * 100 + frac)));
    }
    let mag: u64 = ip_val * 100 + frac;
    if negative {
        if mag > 2147483648u64 {
            return 0;
        }
        if mag == 2147483648u64 {
            i32::MIN
        } else {
            -((mag as i64) as i32)
        }
    } else {
        if mag > 2147483647u64 {
            return 0;
        }
        mag as i32
    }
}

} // verus!
