//! Verified recognition of the numeric and boolean literal forms that the
//! schema loader uses to infer a query parameter's type from its text:
//! signed decimal integers, the decimal float grammar, and `true`/`false`.

use vstd::prelude::*;
use vstd::string::StrSliceExecFns;

verus! {

pub open spec fn is_digit(c: char) -> bool {
    '0' <= c && c <= '9'
}

pub open spec fn digit_val(c: char) -> nat
    recommends
        is_digit(c),
{
    (c as int - '0' as int) as nat
}

pub open spec fn all_digits(s: Seq<char>) -> bool {
    forall|i: int| 0 <= i < s.len() ==> is_digit(#[trigger] s[i])
}

/// The numeric value of a digit string, read most significant digit first.
pub open spec fn dec_value(s: Seq<char>) -> nat
    decreases s.len(),
{
    if s.len() == 0 {
        0
    } else {
        dec_value(s.drop_last()) * 10 + digit_val(s.last())
    }
}

/// The digit part of a signed integer literal: everything after an
/// optional leading sign.
pub open spec fn int_body(s: Seq<char>) -> Seq<char> {
    if s.len() > 0 && (s[0] == '-' || s[0] == '+') {
        s.subrange(1, s.len() as int)
    } else {
        s
    }
}

pub open spec fn int_is_neg(s: Seq<char>) -> bool {
    s.len() > 0 && s[0] == '-'
}

/// What `str::parse::<i64>` accepts: an optional sign, then one or more
/// decimal digits whose value fits the type; and the value it returns.
pub open spec fn parsed_i64(s: Seq<char>) -> Option<i64> {
    let neg = int_is_neg(s);
    let ds = int_body(s);
    if ds.len() > 0 && all_digits(ds) {
        if neg {
            if dec_value(ds) <= 0x8000000000000000 {
                Some((-(dec_value(ds) as int)) as i64)
            } else {
                None
            }
        } else {
            if dec_value(ds) <= 0x7fffffffffffffff {
                Some(dec_value(ds) as i64)
            } else {
                None
            }
        }
    } else {
        None
    }
}

proof fn lemma_dec_value_grows(s: Seq<char>, p: Seq<char>)
    requires
        p == s.subrange(0, p.len() as int),
        p.len() <= s.len(),
    ensures
        dec_value(p) <= dec_value(s),
    decreases s.len(),
{
    if p.len() < s.len() {
        let t = s.drop_last();
        assert(p == t.subrange(0, p.len() as int));
        lemma_dec_value_grows(t, p);
        assert(dec_value(t) * 10 >= dec_value(t)) by (nonlinear_arith);
    } else {
        assert(p == s);
    }
}

/// Parse a signed decimal integer exactly as `str::parse::<i64>` does.
pub fn parse_i64(s: &str) -> (r: Option<i64>)
    ensures
        r == parsed_i64(s@),
{
    let n = s.unicode_len();
    if n == 0 {
        return None;
    }
    let c0 = s.get_char(0);
    let neg = c0 == '-';
    let signed = c0 == '-' || c0 == '+';
    let start: usize = if signed {
        1
    } else {
        0
    };
    let ghost ds = int_body(s@);
    if start == n {
        return None;
    }
    let limit: u64 = if neg {
        0x8000000000000000
    } else {
        0x7fffffffffffffff
    };
    let mut acc: u64 = 0;
    let mut i: usize = start;
    while i < n
        invariant
            start <= i <= n,
            n == s@.len(),
            neg == int_is_neg(s@),
            signed == (s@.len() > 0 && (s@[0] == '-' || s@[0] == '+')),
            limit == if neg { 0x8000000000000000u64 } else { 0x7fffffffffffffffu64 },
            start == if signed { 1int } else { 0int },
            ds == int_body(s@),
            ds == s@.subrange(start as int, s@.len() as int),
            ds.len() == n - start,
            forall|t: int| 0 <= t < i - start ==> is_digit(#[trigger] ds[t]),
            acc == dec_value(ds.subrange(0, i - start)),
            acc <= limit,
        decreases n - i,
    {
        let c = s.get_char(i);
        proof {
            assert(ds[i - start] == s@[i as int]);
        }
        if c < '0' || c > '9' {
            proof {
                assert(!is_digit(ds[i - start]));
            }
            return None;
        }
        let d: u64 = (c as u32 - 48) as u64;
        proof {
            assert(d == digit_val(c));
        }
        let over = acc > limit / 10 || (acc == limit / 10 && d > limit % 10);
        proof {
            let pre = ds.subrange(0, i - start);
            let cur = ds.subrange(0, i + 1 - start);
            assert(cur.drop_last() == pre);
            assert(cur.last() == ds[i - start]);
            assert(dec_value(cur) == acc * 10 + d);
            if over {
                assert(acc * 10 + d > limit) by (nonlinear_arith)
                    requires
                        over,
                        acc > limit / 10 || (acc == limit / 10 && d > limit % 10),
                        limit == limit / 10 * 10 + limit % 10,
                        d < 10,
                ;
                assert(cur == ds.subrange(0, cur.len() as int));
                lemma_dec_value_grows(ds, cur);
                assert(dec_value(ds) > limit);
            } else {
                assert(acc * 10 + d <= limit) by (nonlinear_arith)
                    requires
                        acc <= limit / 10,
                        acc < limit / 10 || d <= limit % 10,
                        limit == limit / 10 * 10 + limit % 10,
                        d < 10,
                ;
            }
        }
        if over {
            return None;
        }
        acc = acc * 10 + d;
        i = i + 1;
    }
    proof {
        assert(ds.subrange(0, ds.len() as int) == ds);
    }
    if neg {
        if acc == 0x8000000000000000 {
            Some(i64::MIN)
        } else {
            Some(-(acc as i64))
        }
    } else {
        Some(acc as i64)
    }
}

/// Whether every character of `s` at or after `i` up to `j` is a digit and
/// `j` is the first non-digit position at or after `i`.
pub open spec fn digits_end(s: Seq<char>, i: int) -> int
    recommends
        0 <= i <= s.len(),
    decreases s.len() - i,
{
    if i < s.len() && is_digit(s[i]) {
        digits_end(s, i + 1)
    } else {
        i
    }
}

proof fn lemma_digits_end_bounds(s: Seq<char>, i: int)
    requires
        0 <= i <= s.len(),
    ensures
        i <= digits_end(s, i) <= s.len(),
        forall|t: int| i <= t < digits_end(s, i) ==> is_digit(#[trigger] s[t]),
        digits_end(s, i) == s.len() || !is_digit(s[digits_end(s, i)]),
    decreases s.len() - i,
{
    if i < s.len() && is_digit(s[i]) {
        lemma_digits_end_bounds(s, i + 1);
    }
}

fn scan_digits(s: &str, i: usize) -> (j: usize)
    requires
        i <= s@.len(),
    ensures
        j == digits_end(s@, i as int),
        i <= j <= s@.len(),
{
    let n = s.unicode_len();
    let mut j: usize = i;
    while digit_at(s, j)
        invariant
            i <= j <= n,
            n == s@.len(),
            digits_end(s@, i as int) == digits_end(s@, j as int),
        decreases n - j,
    {
        j = j + 1;
    }
    j
}

fn digit_at(s: &str, j: usize) -> (r: bool)
    requires
        j <= s@.len(),
    ensures
        r == (j < s@.len() && is_digit(s@[j as int])),
{
    if j < s.unicode_len() {
        let c = s.get_char(j);
        '0' <= c && c <= '9'
    } else {
        false
    }
}

pub open spec fn ci(c: char, lo: char, up: char) -> bool {
    c == lo || c == up
}

pub open spec fn is_inf_chars(s: Seq<char>) -> bool {
    s.len() == 3 && ci(s[0], 'i', 'I') && ci(s[1], 'n', 'N') && ci(s[2], 'f', 'F')
}

pub open spec fn is_infinity_chars(s: Seq<char>) -> bool {
    s.len() == 8 && ci(s[0], 'i', 'I') && ci(s[1], 'n', 'N') && ci(s[2], 'f', 'F') && ci(
        s[3],
        'i',
        'I',
    ) && ci(s[4], 'n', 'N') && ci(s[5], 'i', 'I') && ci(s[6], 't', 'T') && ci(s[7], 'y', 'Y')
}

pub open spec fn is_nan_chars(s: Seq<char>) -> bool {
    s.len() == 3 && ci(s[0], 'n', 'N') && ci(s[1], 'a', 'A') && ci(s[2], 'n', 'N')
}

/// The exponent suffix of a float literal: `e` or `E`, an optional sign,
/// then at least one digit running to the end.
pub open spec fn is_exp_from(s: Seq<char>, i: int) -> bool
    recommends
        0 <= i,
{
    i < s.len() && (s[i] == 'e' || s[i] == 'E') && {
        let j = if i + 1 < s.len() && (s[i + 1] == '+' || s[i + 1] == '-') {
            i + 2
        } else {
            i + 1
        };
        j < s.len() && digits_end(s, j) == s.len()
    }
}

/// The unsigned number forms of the float grammar: digits with an optional
/// fraction, or a fraction alone, each with an optional exponent.
pub open spec fn is_number_chars(s: Seq<char>) -> bool {
    let d1 = digits_end(s, 0);
    if d1 == 0 {
        s.len() > 1 && s[0] == '.' && {
            let d2 = digits_end(s, 1);
            d2 > 1 && (d2 == s.len() || is_exp_from(s, d2))
        }
    } else {
        if d1 == s.len() {
            true
        } else if s[d1] == '.' {
            let d2 = digits_end(s, d1 + 1);
            d2 == s.len() || is_exp_from(s, d2)
        } else {
            is_exp_from(s, d1)
        }
    }
}

/// What `str::parse::<f64>` accepts: an optional sign, then a decimal
/// number, `inf`, `infinity` or `nan` in any letter case.
pub open spec fn is_f64_literal(s: Seq<char>) -> bool {
    let b = if s.len() > 0 && (s[0] == '+' || s[0] == '-') {
        s.subrange(1, s.len() as int)
    } else {
        s
    };
    is_inf_chars(b) || is_infinity_chars(b) || is_nan_chars(b) || is_number_chars(b)
}

fn check_exp_from(s: &str, i: usize) -> (r: bool)
    requires
        i <= s@.len(),
    ensures
        r == is_exp_from(s@, i as int),
{
    let n = s.unicode_len();
    if i >= n {
        return false;
    }
    let c = s.get_char(i);
    if c != 'e' && c != 'E' {
        return false;
    }
    let j: usize = if i + 1 < n {
        let c1 = s.get_char(i + 1);
        if c1 == '+' || c1 == '-' {
            i + 2
        } else {
            i + 1
        }
    } else {
        i + 1
    };
    if j >= n {
        return false;
    }
    scan_digits(s, j) == n
}

fn check_number_chars(s: &str) -> (r: bool)
    ensures
        r == is_number_chars(s@),
{
    let n = s.unicode_len();
    let d1 = scan_digits(s, 0);
    if d1 == 0 {
        if n > 1 && s.get_char(0) == '.' {
            let d2 = scan_digits(s, 1);
            d2 > 1 && (d2 == n || check_exp_from(s, d2))
        } else {
            false
        }
    } else {
        if d1 == n {
            true
        } else if s.get_char(d1) == '.' {
            proof {
                lemma_digits_end_bounds(s@, (d1 + 1) as int);
            }
            let d2 = scan_digits(s, d1 + 1);
            d2 == n || check_exp_from(s, d2)
        } else {
            check_exp_from(s, d1)
        }
    }
}

fn check_special(s: &str, start: usize) -> (r: bool)
    requires
        start <= s@.len(),
    ensures
        ({
            let b = s@.subrange(start as int, s@.len() as int);
            r == (is_inf_chars(b) || is_infinity_chars(b) || is_nan_chars(b))
        }),
{
    let n = s.unicode_len();
    let len = n - start;
    let ghost b = s@.subrange(start as int, s@.len() as int);
    if len == 3 {
        let c0 = s.get_char(start);
        let c1 = s.get_char(start + 1);
        let c2 = s.get_char(start + 2);
        ((c0 == 'i' || c0 == 'I') && (c1 == 'n' || c1 == 'N') && (c2 == 'f' || c2 == 'F')) || ((c0
            == 'n' || c0 == 'N') && (c1 == 'a' || c1 == 'A') && (c2 == 'n' || c2 == 'N'))
    } else if len == 8 {
        let c0 = s.get_char(start);
        let c1 = s.get_char(start + 1);
        let c2 = s.get_char(start + 2);
        let c3 = s.get_char(start + 3);
        let c4 = s.get_char(start + 4);
        let c5 = s.get_char(start + 5);
        let c6 = s.get_char(start + 6);
        let c7 = s.get_char(start + 7);
        (c0 == 'i' || c0 == 'I') && (c1 == 'n' || c1 == 'N') && (c2 == 'f' || c2 == 'F') && (c3
            == 'i' || c3 == 'I') && (c4 == 'n' || c4 == 'N') && (c5 == 'i' || c5 == 'I') && (c6
            == 't' || c6 == 'T') && (c7 == 'y' || c7 == 'Y')
    } else {
        false
    }
}

/// Decide whether `str::parse::<f64>` would accept the text.
pub fn is_f64_lit(s: &str) -> (r: bool)
    ensures
        r == is_f64_literal(s@),
{
    let n = s.unicode_len();
    let signed = n > 0 && {
        let c0 = s.get_char(0);
        c0 == '+' || c0 == '-'
    };
    let start: usize = if signed {
        1
    } else {
        0
    };
    let ghost b = if signed {
        s@.subrange(1, s@.len() as int)
    } else {
        s@
    };
    if check_special(s, start) {
        proof {
            if !signed {
                assert(s@.subrange(0, s@.len() as int) == s@);
            }
        }
        return true;
    }
    proof {
        if !signed {
            assert(s@.subrange(0, s@.len() as int) == s@);
        }
    }
    if signed {
        let rest = s.substring_char(1, n);
        check_number_chars(rest)
    } else {
        check_number_chars(s)
    }
}

/// What `str::parse::<bool>` accepts: exactly `true` or `false`.
pub open spec fn is_bool_literal(s: Seq<char>) -> bool {
    s == "true"@ || s == "false"@
}

/// Decide whether the text is a boolean literal.
pub fn is_bool_lit(s: &str) -> (r: bool)
    ensures
        r == is_bool_literal(s@),
{
    crate::strutil::str_eq(s, "true") || crate::strutil::str_eq(s, "false")
}

} // verus!
