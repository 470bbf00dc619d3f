//! Small verified string helpers: decimal rendering of integers, boolean
//! rendering, and fixed-width padding, each pinned to a spec-level sequence.

use vstd::prelude::*;
use vstd::string::StringExecFns;
use vstd::string::StrSliceExecFns;

verus! {

/// The decimal digit character for a value below ten.
pub open spec fn digit_char(d: nat) -> char
    recommends
        d < 10,
{
    if d == 0 {
        '0'
    } else if d == 1 {
        '1'
    } else if d == 2 {
        '2'
    } else if d == 3 {
        '3'
    } else if d == 4 {
        '4'
    } else if d == 5 {
        '5'
    } else if d == 6 {
        '6'
    } else if d == 7 {
        '7'
    } else if d == 8 {
        '8'
    } else {
        '9'
    }
}

/// The usual decimal rendering of a natural number, most significant digit
/// first, with no leading zeros except for zero itself.
pub open spec fn dec_digits(n: nat) -> Seq<char>
    decreases n,
{
    if n < 10 {
        seq![digit_char(n)]
    } else {
        dec_digits(n / 10) + seq![digit_char(n % 10)]
    }
}

/// The decimal rendering of a signed number: a leading minus sign for
/// negative values, then the digits of the absolute value.
pub open spec fn dec_int_digits(n: int) -> Seq<char> {
    if n < 0 {
        seq!['-'] + dec_digits((-n) as nat)
    } else {
        dec_digits(n as nat)
    }
}

fn digit_str(d: u64) -> (r: &'static str)
    requires
        d < 10,
    ensures
        r@ == seq![digit_char(d as nat)],
{
    proof {
        reveal_strlit("0");
        reveal_strlit("1");
        reveal_strlit("2");
        reveal_strlit("3");
        reveal_strlit("4");
        reveal_strlit("5");
        reveal_strlit("6");
        reveal_strlit("7");
        reveal_strlit("8");
        reveal_strlit("9");
    }
    match d {
        0 => "0",
        1 => "1",
        2 => "2",
        3 => "3",
        4 => "4",
        5 => "5",
        6 => "6",
        7 => "7",
        8 => "8",
        _ => "9",
    }
}

/// Render an unsigned number in decimal.
pub fn u64_to_dec(n: u64) -> (r: String)
    ensures
        r@ == dec_digits(n as nat),
    decreases n,
{
    if n < 10 {
        String::from_str(digit_str(n))
    } else {
        let mut s = u64_to_dec(n / 10);
        s.append(digit_str(n % 10));
        s
    }
}

/// Render a signed number in decimal, with a minus sign when negative.
pub fn i64_to_dec(n: i64) -> (r: String)
    ensures
        r@ == dec_int_digits(n as int),
{
    if n >= 0 {
        u64_to_dec(n as u64)
    } else {
        let mut s = String::from_str("-");
        proof {
            reveal_strlit("-");
        }
        let mag: u64 = if n == i64::MIN {
            9223372036854775808u64
        } else {
            (-n) as u64
        };
        let d = u64_to_dec(mag);
        s.append(d.as_str());
        s
    }
}

/// The spec-level rendering of a boolean, as `core::fmt` writes it.
pub open spec fn bool_chars(b: bool) -> Seq<char> {
    if b {
        "true"@
    } else {
        "false"@
    }
}

/// Render a boolean as `true` or `false`.
pub fn bool_to_str(b: bool) -> (r: &'static str)
    ensures
        r@ == bool_chars(b),
{
    if b {
        "true"
    } else {
        "false"
    }
}

/// A run of `n` copies of one character.
pub open spec fn repeat_chars(c: char, n: nat) -> Seq<char>
    decreases n,
{
    if n == 0 {
        Seq::<char>::empty()
    } else {
        repeat_chars(c, (n - 1) as nat) + seq![c]
    }
}

/// The input padded on the right with `c` up to `width` characters; inputs
/// already that wide come back unchanged.
pub open spec fn padded_right(s: Seq<char>, c: char, width: nat) -> Seq<char> {
    if s.len() >= width {
        s
    } else {
        s + repeat_chars(c, (width - s.len()) as nat)
    }
}

fn push_repeated(s: &mut String, piece: &str, n: usize)
    requires
        piece@.len() == 1,
    ensures
        final(s)@ == old(s)@ + repeat_chars(piece@[0], n as nat),
{
    let mut i: usize = 0;
    while i < n
        invariant
            i <= n,
            piece@.len() == 1,
            s@ == old(s)@ + repeat_chars(piece@[0], i as nat),
        decreases n - i,
    {
        proof {
            assert(repeat_chars(piece@[0], (i + 1) as nat) == repeat_chars(piece@[0], i as nat)
                + seq![piece@[0]]);
            assert(piece@ == seq![piece@[0]]);
        }
        s.append(piece);
        i = i + 1;
    }
}

/// A run of characters is as long as asked for.
pub proof fn lemma_repeat_chars_len(c: char, n: nat)
    ensures
        repeat_chars(c, n).len() == n,
    decreases n,
{
    if n > 0 {
        lemma_repeat_chars_len(c, (n - 1) as nat);
    }
}

/// Padding on the right reaches exactly the asked width when the input is
/// no wider, and leaves a wider input alone.
pub proof fn lemma_padded_right_len(s: Seq<char>, c: char, width: nat)
    ensures
        padded_right(s, c, width).len() == if s.len() >= width {
            s.len()
        } else {
            width
        },
{
    if s.len() < width {
        lemma_repeat_chars_len(c, (width - s.len()) as nat);
    }
}

/// A run of `n` dashes.
pub fn dashes(n: usize) -> (r: String)
    ensures
        r@ == repeat_chars('-', n as nat),
{
    let mut out = String::new();
    proof {
        reveal_strlit("-");
        assert("-"@[0] == '-');
    }
    push_repeated(&mut out, "-", n);
    out
}

/// Equality of two string slices, stated over their character sequences.
pub fn str_eq(a: &str, b: &str) -> (r: bool)
    ensures
        r == (a@ == b@),
{
    let sa = String::from_str(a);
    let sb = String::from_str(b);
    sa == sb
}

/// Whether `sub` occurs as a contiguous run inside `s`.
pub open spec fn contains_seq(s: Seq<char>, sub: Seq<char>) -> bool {
    exists|i: int|
        0 <= i && i + sub.len() <= s.len() && #[trigger] s.subrange(i, i + sub.len() as int)
            == sub
}

fn matches_at(s: &str, sub: &str, start: usize) -> (r: bool)
    requires
        start + sub@.len() <= s@.len(),
    ensures
        r == (s@.subrange(start as int, start + sub@.len() as int) == sub@),
{
    let n = s.unicode_len();
    let m = sub.unicode_len();
    let mut j: usize = 0;
    while j < m
        invariant
            j <= m,
            m == sub@.len(),
            n == s@.len(),
            start + m <= s@.len(),
            forall|t: int| 0 <= t < j ==> s@[start + t] == sub@[t],
        decreases m - j,
    {
        if s.get_char(start + j) != sub.get_char(j) {
            proof {
                let win = s@.subrange(start as int, start + sub@.len() as int);
                assert(win[j as int] == s@[start + j]);
            }
            return false;
        }
        j = j + 1;
    }
    proof {
        let win = s@.subrange(start as int, start + sub@.len() as int);
        assert(win =~= sub@);
    }
    true
}

/// Search for `sub` anywhere inside `s`.
pub fn contains_sub(s: &str, sub: &str) -> (r: bool)
    ensures
        r == contains_seq(s@, sub@),
{
    let n = s.unicode_len();
    let m = sub.unicode_len();
    if m > n {
        return false;
    }
    if m == 0 {
        proof {
            assert(s@.subrange(0, 0 + sub@.len() as int) == sub@);
        }
        return true;
    }
    let mut i: usize = 0;
    while i <= n - m
        invariant
            1 <= m <= n,
            n == s@.len(),
            m == sub@.len(),
            i <= n - m + 1,
            forall|t: int|
                0 <= t < i ==> #[trigger] s@.subrange(t, t + sub@.len() as int) != sub@,
        decreases n - m + 1 - i,
    {
        if matches_at(s, sub, i) {
            return true;
        }
        i = i + 1;
    }
    false
}

/// Pad a string on the right with spaces up to `width` characters.
pub fn pad_right_spaces(s: &str, width: usize) -> (r: String)
    ensures
        r@ == padded_right(s@, ' ', width as nat),
{
    let n = s.unicode_len();
    let mut out = String::from_str(s);
    if n < width {
        proof {
            reveal_strlit(" ");
        }
        push_repeated(&mut out, " ", width - n);
        proof {
            assert(" "@[0] == ' ');
        }
    }
    out
}

} // verus!
