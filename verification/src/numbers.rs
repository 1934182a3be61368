//! Exact comparison of decimal number strings, for numeric conditions.
//!
//! A number is an optional sign, an integer part and an optional fraction
//! (`-12`, `3.50`, `.5`, `7.`), with at most nineteen digits in all; the two
//! sides of a comparison are compared exactly, as rationals.  A string outside
//! this grammar takes part in no comparison.

use vstd::prelude::*;
use vstd::string::StrSliceExecFns;

use crate::strings::{all_digits, digit_val, digits_val, is_digit};

verus! {

/// The longest prefix of `s` made of decimal digits.
pub open spec fn leading_digits(s: Seq<char>) -> Seq<char>
    decreases s.len(),
{
    if s.len() == 0 || !is_digit(s[0]) {
        Seq::empty()
    } else {
        seq![s[0]] + leading_digits(s.drop_first())
    }
}

/// Ten to the power `e`.
pub open spec fn pow10(e: nat) -> int
    decreases e,
{
    if e == 0 {
        1
    } else {
        10 * pow10((e - 1) as nat)
    }
}

/// The most digits a number may carry.
pub open spec fn max_digits() -> nat {
    19
}

/// A parsed decimal number: its sign and its integer and fraction digits.
pub open spec fn spec_dec_parse(s: Seq<char>) -> Option<(bool, Seq<char>, Seq<char>)> {
    let signed = s.len() > 0 && (s[0] == '+' || s[0] == '-');
    let neg = s.len() > 0 && s[0] == '-';
    let body = if signed {
        s.drop_first()
    } else {
        s
    };
    let ip = leading_digits(body);
    let rest = body.skip(ip.len() as int);
    if rest.len() == 0 {
        if 0 < ip.len() <= max_digits() {
            Some((neg, ip, Seq::empty()))
        } else {
            None
        }
    } else if rest[0] == '.' {
        let fp = rest.drop_first();
        if all_digits(fp) && 0 < ip.len() + fp.len() <= max_digits() {
            Some((neg, ip, fp))
        } else {
            None
        }
    } else {
        None
    }
}

/// The signed integer `m` such that the number is `m / 10^scale`.
pub open spec fn dec_num(d: (bool, Seq<char>, Seq<char>)) -> int {
    if d.0 {
        -digits_val(d.1 + d.2)
    } else {
        digits_val(d.1 + d.2)
    }
}

/// How two decimal number strings compare as rationals: `-1`, `0` or `1`, or
/// nothing if either side is outside the grammar.
pub open spec fn spec_number_cmp(a: Seq<char>, b: Seq<char>) -> Option<i8> {
    match (spec_dec_parse(a), spec_dec_parse(b)) {
        (Some(x), Some(y)) => {
            let va = dec_num(x) * pow10(y.2.len());
            let vb = dec_num(y) * pow10(x.2.len());
            if va < vb {
                Some(-1i8)
            } else if va == vb {
                Some(0i8)
            } else {
                Some(1i8)
            }
        },
        _ => None,
    }
}

pub proof fn lemma_pow10_pos(e: nat)
    ensures
        pow10(e) >= 1,
    decreases e,
{
    if e > 0 {
        lemma_pow10_pos((e - 1) as nat);
    }
}

pub proof fn lemma_pow10_mono(a: nat, b: nat)
    requires
        a <= b,
    ensures
        pow10(a) <= pow10(b),
    decreases b,
{
    if a < b {
        lemma_pow10_mono(a, (b - 1) as nat);
        lemma_pow10_pos((b - 1) as nat);
    }
}

proof fn lemma_leading_digits_exact(s: Seq<char>, k: int)
    requires
        0 <= k <= s.len(),
        forall|j: int| 0 <= j < k ==> is_digit(#[trigger] s[j]),
        k == s.len() || !is_digit(s[k]),
    ensures
        leading_digits(s) =~= s.subrange(0, k),
    decreases k,
{
    if k == 0 {
    } else {
        lemma_leading_digits_exact(s.drop_first(), k - 1);
        assert(s.drop_first().subrange(0, k - 1) =~= s.subrange(1, k));
        assert(seq![s[0]] + s.subrange(1, k) =~= s.subrange(0, k));
    }
}

proof fn lemma_digits_val_step(s: Seq<char>, i: int)
    requires
        0 <= i < s.len(),
    ensures
        digits_val(s.subrange(0, i + 1)) == digits_val(s.subrange(0, i)) * 10 + digit_val(s[i]),
{
    assert(s.subrange(0, i + 1).drop_last() =~= s.subrange(0, i));
    assert(s.subrange(0, i + 1).last() == s[i]);
}

/// Computes ten to the power `e`.
#[verifier::loop_isolation(false)]
fn pow10_u128(e: usize) -> (r: u128)
    requires
        e <= max_digits(),
    ensures
        r == pow10(e as nat),
{
    proof {
        reveal_with_fuel(pow10, 21);
    }
    let mut r: u128 = 1;
    let mut i: usize = 0;
    while i < e
        invariant
            i <= e,
            r == pow10(i as nat),
        decreases e - i,
    {
        proof {
            lemma_pow10_mono((i + 1) as nat, max_digits());
            assert(pow10(max_digits()) == 10000000000000000000);
        }
        r = r * 10;
        i += 1;
    }
    r
}

/// The position of the first non-digit at or after `from`.
#[verifier::loop_isolation(false)]
fn scan_digits(s: &str, from: usize, n: usize) -> (end: usize)
    requires
        n == s@.len(),
        from <= n,
    ensures
        from <= end <= n,
        forall|j: int| from <= j < end ==> is_digit(#[trigger] s@[j]),
        end < n ==> !is_digit(s@[end as int]),
{
    let mut end = from;
    loop
        invariant
            from <= end <= n,
            forall|j: int| from <= j < end ==> is_digit(#[trigger] s@[j]),
        decreases n - end,
    {
        if end == n {
            return end;
        }
        let c = s.get_char(end);
        let cv = c as u32;
        proof {
            assert(c as int == cv as int);
        }
        if cv < 48 || cv > 57 {
            return end;
        }
        end += 1;
    }
}

/// Parses a decimal number: its sign, its digits' value, and its scale (the
/// number of fraction digits).
#[verifier::loop_isolation(false)]
fn parse_decimal(s: &str) -> (r: Option<(bool, u128, usize)>)
    ensures
        match r {
            Some((neg, m, sc)) => {
                &&& spec_dec_parse(s@) matches Some(d)
                &&& d.0 == neg
                &&& m == digits_val(d.1 + d.2)
                &&& sc == d.2.len()
                &&& m < pow10(max_digits())
            },
            None => spec_dec_parse(s@) is None,
        },
{
    let n = s.unicode_len();
    let mut pos: usize = 0;
    let mut neg = false;
    if n > 0 {
        let c0 = s.get_char(0);
        if c0 == '+' || c0 == '-' {
            neg = c0 == '-';
            pos = 1;
        }
    }
    let ghost body = if s@.len() > 0 && (s@[0] == '+' || s@[0] == '-') {
        s@.drop_first()
    } else {
        s@
    };
    proof {
        assert(body =~= s@.subrange(pos as int, n as int));
    }
    // Find the end of the integer part.
    let ip_end = scan_digits(s, pos, n);
    proof {
        lemma_leading_digits_exact(body, ip_end - pos);
        assert(body.subrange(0, ip_end - pos) =~= s@.subrange(pos as int, ip_end as int));
    }
    let ghost ip = leading_digits(body);
    let ghost rest = body.skip(ip.len() as int);
    proof {
        assert(rest =~= s@.subrange(ip_end as int, n as int));
    }
    let fp_start: usize;
    if ip_end == n {
        // No fraction.
        fp_start = n;
        if ip_end == pos {
            return None;
        }
    } else {
        let c = s.get_char(ip_end);
        if c != '.' {
            return None;
        }
        fp_start = ip_end + 1;
        proof {
            assert(rest[0] == '.');
        }
    }
    let ghost fp = if ip_end < n {
        rest.drop_first()
    } else {
        Seq::<char>::empty()
    };
    proof {
        assert(fp =~= s@.subrange(fp_start as int, n as int));
    }
    // The fraction must be all digits.
    let fp_end = scan_digits(s, fp_start, n);
    if fp_end < n {
        proof {
            assert(fp[fp_end - fp_start] == s@[fp_end as int]);
            assert(!is_digit(fp[fp_end - fp_start]));
        }
        return None;
    }
    proof {
        assert(all_digits(fp)) by {
            assert(forall|t: int| 0 <= t < fp.len() ==> fp[t] == s@[t + fp_start]);
        }
        assert(all_digits(ip)) by {
            assert(forall|t: int| 0 <= t < ip.len() ==> ip[t] == s@[t + pos]);
        }
    }
    // Digit-count cap, with a fraction's dot accounted for.
    let ip_len = ip_end - pos;
    let fp_len = n - fp_start;
    if ip_len + fp_len == 0 {
        return None;
    }
    if ip_len + fp_len > 19 {
        return None;
    }
    // Accumulate the digits' value over both parts.
    let ghost comb = ip + fp;
    proof {
        assert(all_digits(comb));
        assert(comb.len() == ip_len + fp_len);
    }
    let mut m: u128 = 0;
    let mut t: usize = 0;
    let total = ip_len + fp_len;
    while t < total
        invariant
            t <= total,
            total == comb.len(),
            m == digits_val(comb.subrange(0, t as int)),
            m < pow10(t as nat),
        decreases total - t,
    {
        let c = if t < ip_len {
            s.get_char(pos + t)
        } else {
            s.get_char(fp_start + (t - ip_len))
        };
        proof {
            if t < ip_len {
                assert(comb[t as int] == ip[t as int]);
                assert(ip[t as int] == s@[pos + t]);
            } else {
                assert(comb[t as int] == fp[t - ip_len]);
                assert(fp[t - ip_len] == s@[fp_start + (t - ip_len)]);
            }
        }
        let cv = c as u32;
        proof {
            assert(c as int == cv as int);
            assert(is_digit(comb[t as int]));
        }
        let d = (cv - 48) as u128;
        proof {
            assert(d == digit_val(comb[t as int]));
            lemma_digits_val_step(comb, t as int);
            lemma_pow10_mono((t + 1) as nat, max_digits());
            reveal_with_fuel(pow10, 21);
            assert(pow10(max_digits()) == 10000000000000000000);
            assert(m * 10 + d < pow10((t + 1) as nat)) by (nonlinear_arith)
                requires
                    m < pow10(t as nat),
                    0 <= d <= 9,
                    pow10((t + 1) as nat) == 10 * pow10(t as nat),
            ;
        }
        m = m * 10 + d;
        t += 1;
    }
    proof {
        assert(comb.subrange(0, total as int) =~= comb);
        lemma_pow10_mono(total as nat, max_digits());
    }
    Some((neg, m, fp_len))
}

/// Compares two decimal number strings exactly, as rationals.
pub fn number_cmp(a: &str, b: &str) -> (r: Option<i8>)
    ensures
        r == spec_number_cmp(a@, b@),
{
    let pa = parse_decimal(a);
    let pb = parse_decimal(b);
    match (pa, pb) {
        (Some((na, ma, sa)), Some((nb, mb, sb))) => {
            proof {
                lemma_pow10_pos(sa as nat);
                lemma_pow10_pos(sb as nat);
                lemma_pow10_mono(sa as nat, max_digits());
                lemma_pow10_mono(sb as nat, max_digits());
                reveal_with_fuel(pow10, 21);
                assert(pow10(max_digits()) == 10000000000000000000);
                assert(ma * pow10(sb as nat) < 0x100000000000000000000000000000000)
                    by (nonlinear_arith)
                    requires
                        0 <= ma < 10000000000000000000,
                        1 <= pow10(sb as nat) <= 10000000000000000000,
                ;
                assert(mb * pow10(sa as nat) < 0x100000000000000000000000000000000)
                    by (nonlinear_arith)
                    requires
                        0 <= mb < 10000000000000000000,
                        1 <= pow10(sa as nat) <= 10000000000000000000,
                ;
            }
            let xa = ma * pow10_u128(sb);
            let xb = mb * pow10_u128(sa);
            let ghost da = spec_dec_parse(a@)->Some_0;
            let ghost db = spec_dec_parse(b@)->Some_0;
            let a_neg = na && xa > 0;
            let b_neg = nb && xb > 0;
            let c: i8 = if a_neg && !b_neg {
                -1
            } else if !a_neg && b_neg {
                1
            } else if a_neg && b_neg {
                if xa > xb {
                    -1
                } else if xa == xb {
                    0
                } else {
                    1
                }
            } else {
                if xa < xb {
                    -1
                } else if xa == xb {
                    0
                } else {
                    1
                }
            };
            proof {
                let va = dec_num(da) * pow10(db.2.len());
                let vb = dec_num(db) * pow10(da.2.len());
                assert((-(ma as int)) * pow10(sb as nat) == -((ma as int) * pow10(sb as nat)))
                    by (nonlinear_arith);
                assert((-(mb as int)) * pow10(sa as nat) == -((mb as int) * pow10(sa as nat)))
                    by (nonlinear_arith);
                if na {
                    assert(va == -(ma * pow10(sb as nat)));
                } else {
                    assert(va == ma * pow10(sb as nat));
                }
                if nb {
                    assert(vb == -(mb * pow10(sa as nat)));
                } else {
                    assert(vb == mb * pow10(sa as nat));
                }
            }
            Some(c)
        },
        _ => None,
    }
}

} // verus!
