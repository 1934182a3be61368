//! Verified character-level string utilities: equality, prefix/suffix/substring
//! tests, and decimal rendering and parsing.

use vstd::prelude::*;
use vstd::string::StrSliceExecFns;

verus! {

/// Relies on `String::push`: appends exactly one character.
#[verifier::external_body]
pub fn string_push(s: &mut String, c: char)
    ensures
        final(s)@ == old(s)@.push(c),
{
    s.push(c);
}

/// Compares two strings character for character.
pub fn string_eq(a: &str, b: &str) -> (r: bool)
    ensures
        r == (a@ == b@),
{
    let na = a.unicode_len();
    let nb = b.unicode_len();
    if na != nb {
        return false;
    }
    let mut i: usize = 0;
    while i < na
        invariant
            na == a@.len(),
            nb == b@.len(),
            na == nb,
            i <= na,
            forall|j: int| 0 <= j < i ==> a@[j] == b@[j],
        decreases na - i,
    {
        if a.get_char(i) != b.get_char(i) {
            return false;
        }
        i += 1;
    }
    proof {
        assert(a@ =~= b@);
    }
    true
}

/// `t` occurs in `s` starting at position `at`.
pub open spec fn occurs_at(s: Seq<char>, t: Seq<char>, at: int) -> bool {
    0 <= at && at + t.len() <= s.len() && s.subrange(at, at + t.len() as int) == t
}

/// `s` starts with `t`.
pub open spec fn spec_starts_with(s: Seq<char>, t: Seq<char>) -> bool {
    occurs_at(s, t, 0)
}

/// `s` ends with `t`.
pub open spec fn spec_ends_with(s: Seq<char>, t: Seq<char>) -> bool {
    t.len() <= s.len() && occurs_at(s, t, s.len() - t.len())
}

/// `t` occurs somewhere in `s`.
pub open spec fn spec_contains(s: Seq<char>, t: Seq<char>) -> bool {
    exists|at: int| occurs_at(s, t, at)
}

/// Whether `t` occurs in `s` at position `at`.
pub fn matches_at(s: &str, t: &str, at: usize) -> (r: bool)
    requires
        at + t@.len() <= s@.len(),
    ensures
        r == occurs_at(s@, t@, at as int),
{
    let ns = s.unicode_len();
    let nt = t.unicode_len();
    let mut i: usize = 0;
    while i < nt
        invariant
            ns == s@.len(),
            nt == t@.len(),
            at + nt <= s@.len(),
            i <= nt,
            forall|j: int| 0 <= j < i ==> s@[at + j] == t@[j],
        decreases nt - i,
    {
        if s.get_char(at + i) != t.get_char(i) {
            assert(s@.subrange(at as int, at + nt) != t@) by {
                assert(s@.subrange(at as int, at + nt)[i as int] != t@[i as int]);
            }
            return false;
        }
        i += 1;
    }
    proof {
        assert(s@.subrange(at as int, at + nt) =~= t@);
    }
    true
}

/// Whether `s` starts with `t`.
pub fn str_starts_with(s: &str, t: &str) -> (r: bool)
    ensures
        r == spec_starts_with(s@, t@),
{
    let ns = s.unicode_len();
    let nt = t.unicode_len();
    if nt > ns {
        return false;
    }
    matches_at(s, t, 0)
}

/// Whether `s` ends with `t`.
pub fn str_ends_with(s: &str, t: &str) -> (r: bool)
    ensures
        r == spec_ends_with(s@, t@),
{
    let ns = s.unicode_len();
    let nt = t.unicode_len();
    if nt > ns {
        return false;
    }
    matches_at(s, t, ns - nt)
}

/// Whether `t` occurs somewhere in `s`.
pub fn str_contains(s: &str, t: &str) -> (r: bool)
    ensures
        r == spec_contains(s@, t@),
{
    let ns = s.unicode_len();
    let nt = t.unicode_len();
    if nt > ns {
        assert(forall|at: int| !occurs_at(s@, t@, at));
        return false;
    }
    if nt == 0 {
        assert(occurs_at(s@, t@, 0)) by {
            assert(s@.subrange(0, 0) =~= t@);
        }
        return true;
    }
    let last = ns - nt;
    let mut at: usize = 0;
    loop
        invariant
            ns == s@.len(),
            nt == t@.len(),
            0 < nt <= ns,
            last == ns - nt,
            at <= last + 1,
            forall|j: int| 0 <= j < at ==> !occurs_at(s@, t@, j),
        decreases last + 1 - at,
    {
        if at > last {
            assert(forall|j: int| occurs_at(s@, t@, j) ==> 0 <= j <= last);
            return false;
        }
        if matches_at(s, t, at) {
            return true;
        }
        at += 1;
    }
}

/// The character for the decimal digit `d`.
pub open spec fn digit_char(d: int) -> char {
    if d == 0 {
        '0'
    } else if d == 1 {
        '1'
    } else if d == 2 {
        '2'
    } else if d == 3 {
        '3'
    } else if d == 4 {
        '4'
    } else if d == 5 {
        '5'
    } else if d == 6 {
        '6'
    } else if d == 7 {
        '7'
    } else if d == 8 {
        '8'
    } else {
        '9'
    }
}

/// The decimal rendering of `n`, without sign or leading zeros.
pub open spec fn dec_str(n: nat) -> Seq<char>
    decreases n,
{
    if n < 10 {
        seq![digit_char(n as int)]
    } else {
        dec_str(n / 10).push(digit_char((n % 10) as int))
    }
}

fn digit_to_char(d: u8) -> (c: char)
    requires
        d < 10,
    ensures
        c == digit_char(d as int),
{
    match d {
        0 => '0',
        1 => '1',
        2 => '2',
        3 => '3',
        4 => '4',
        5 => '5',
        6 => '6',
        7 => '7',
        8 => '8',
        _ => '9',
    }
}

/// Renders `n` in decimal.
pub fn u128_to_string(n: u128) -> (s: String)
    ensures
        s@ == dec_str(n as nat),
    decreases n,
{
    if n < 10 {
        let mut s = String::new();
        string_push(&mut s, digit_to_char(n as u8));
        proof {
            assert(s@ =~= dec_str(n as nat));
        }
        s
    } else {
        let mut s = u128_to_string(n / 10);
        string_push(&mut s, digit_to_char((n % 10) as u8));
        s
    }
}

/// Renders `n` in decimal.
pub fn usize_to_string(n: usize) -> (s: String)
    ensures
        s@ == dec_str(n as nat),
{
    u128_to_string(n as u128)
}

/// Whether `c` is a decimal digit.
pub open spec fn is_digit(c: char) -> bool {
    48 <= c as int <= 57
}

/// The numeric value of the digit `c`.
pub open spec fn digit_val(c: char) -> int {
    c as int - 48
}

/// Every character of `s` is a decimal digit.
pub open spec fn all_digits(s: Seq<char>) -> bool {
    forall|i: int| 0 <= i < s.len() ==> is_digit(#[trigger] s[i])
}

/// The value of a sequence of decimal digits.
pub open spec fn digits_val(s: Seq<char>) -> int
    decreases s.len(),
{
    if s.len() == 0 {
        0
    } else {
        digits_val(s.drop_last()) * 10 + digit_val(s.last())
    }
}

/// What `str::parse::<u128>` accepts: an optional leading `+`, then one or
/// more decimal digits, whose value fits in the type.
pub open spec fn spec_parse_u128(s: Seq<char>) -> Option<u128> {
    let body = if s.len() > 0 && s[0] == '+' {
        s.drop_first()
    } else {
        s
    };
    if body.len() > 0 && all_digits(body) && digits_val(body) <= u128::MAX {
        Some(digits_val(body) as u128)
    } else {
        None
    }
}

pub proof fn lemma_digits_val_bounds(s: Seq<char>)
    requires
        all_digits(s),
    ensures
        digits_val(s) >= 0,
        s.len() > 0 ==> digits_val(s) >= digits_val(s.drop_last()),
    decreases s.len(),
{
    if s.len() > 0 {
        lemma_digits_val_bounds(s.drop_last());
    }
}

proof fn lemma_digits_val_prefix_step(s: Seq<char>, i: int)
    requires
        0 <= i < s.len(),
    ensures
        digits_val(s.subrange(0, i + 1)) == digits_val(s.subrange(0, i)) * 10 + digit_val(s[i]),
{
    assert(s.subrange(0, i + 1).drop_last() =~= s.subrange(0, i));
    assert(s.subrange(0, i + 1).last() == s[i]);
}

/// Once the running value exceeds the bound, every extension does too.
proof fn lemma_digits_val_grows(s: Seq<char>, i: int, j: int)
    requires
        all_digits(s),
        0 <= i <= j <= s.len(),
    ensures
        digits_val(s.subrange(0, j)) >= digits_val(s.subrange(0, i)),
    decreases j - i,
{
    if i < j {
        lemma_digits_val_grows(s, i, j - 1);
        lemma_digits_val_prefix_step(s, j - 1);
        assert(all_digits(s.subrange(0, j)));
        lemma_digits_val_bounds(s.subrange(0, j));
        let v = digits_val(s.subrange(0, j - 1));
        assert(v >= 0) by {
            assert(all_digits(s.subrange(0, j - 1)));
            lemma_digits_val_bounds(s.subrange(0, j - 1));
        }
        assert(v * 10 >= v) by (nonlinear_arith)
            requires
                v >= 0,
        ;
    }
}

/// Parses a decimal `u128` the way `str::parse::<u128>` does.
pub fn parse_u128(s: &str) -> (r: Option<u128>)
    ensures
        r == spec_parse_u128(s@),
{
    let n = s.unicode_len();
    if n == 0 {
        return None;
    }
    let start: usize = if s.get_char(0) == '+' {
        1
    } else {
        0
    };
    let ghost body = if s@[0] == '+' {
        s@.drop_first()
    } else {
        s@
    };
    proof {
        assert(body =~= s@.subrange(start as int, n as int));
    }
    if start == n {
        return None;
    }
    let mut v: u128 = 0;
    let mut i: usize = start;
    while i < n
        invariant
            n == s@.len(),
            start <= i <= n,
            start < n,
            start == 0 || start == 1,
            start == 1 <==> (s@[0] == '+'),
            body == s@.subrange(start as int, n as int),
            forall|j: int| start <= j < i ==> is_digit(#[trigger] s@[j]),
            v == digits_val(s@.subrange(start as int, i as int)),
        decreases n - i,
    {
        let c = s.get_char(i);
        let cv = c as u32;
        if cv < 48 || cv > 57 {
            proof {
                assert(body[i - start] == s@[i as int]);
                assert(c as int == cv as int);
                assert(!is_digit(body[i - start]));
                let sbody = if s@.len() > 0 && s@[0] == '+' {
                    s@.drop_first()
                } else {
                    s@
                };
                assert(sbody =~= s@.subrange(start as int, n as int));
                assert(sbody == body);
                assert(!all_digits(sbody));
                assert(spec_parse_u128(s@) is None);
            }
            return None;
        }
        let d = (cv - 48) as u128;
        proof {
            assert(s@.subrange(start as int, i + 1).drop_last() =~= s@.subrange(
                start as int,
                i as int,
            ));
            assert(s@.subrange(start as int, i + 1).last() == s@[i as int]);
            assert(c as int == cv as int);
            assert(d == digit_val(s@[i as int]));
            assert(is_digit(s@[i as int]));
        }
        if v > (u128::MAX - d) / 10 {
            // The value no longer fits; no extension of these digits can fit
            // either.
            proof {
                let over = s@.subrange(start as int, i + 1);
                assert(digits_val(over) == v * 10 + d);
                assert(digits_val(over) > u128::MAX) by (nonlinear_arith)
                    requires
                        digits_val(over) == v * 10 + d,
                        v > (u128::MAX - d) / 10,
                        0 <= d <= 9,
                ;
                if all_digits(body) {
                    let whole = s@.subrange(start as int, n as int);
                    assert(forall|j: int|
                        start <= j < n ==> is_digit(#[trigger] s@[j])) by {
                        assert(forall|j: int|
                            start <= j < n ==> s@[j] == body[j - start]);
                    }
                    assert(all_digits(whole));
                    lemma_digits_val_grows(whole, i + 1 - start, n - start);
                    assert(whole.subrange(0, i + 1 - start) =~= over);
                    assert(whole.subrange(0, n - start) =~= whole);
                    assert(digits_val(whole) > u128::MAX);
                }
                let sbody = if s@.len() > 0 && s@[0] == '+' {
                    s@.drop_first()
                } else {
                    s@
                };
                assert(sbody =~= s@.subrange(start as int, n as int));
                assert(sbody == body);
                assert(spec_parse_u128(s@) is None);
            }
            return None;
        }
        proof {
            assert(v * 10 + d <= u128::MAX) by (nonlinear_arith)
                requires
                    v <= (u128::MAX - d) / 10,
                    0 <= d <= 9,
                    v >= 0,
            ;
        }
        v = v * 10 + d;
        i += 1;
    }
    proof {
        assert(body =~= s@.subrange(start as int, n as int));
        assert(all_digits(body)) by {
            assert(forall|j: int| 0 <= j < body.len() ==> body[j] == s@[j + start]);
        }
    }
    Some(v)
}

} // verus!
