//! Reading sizes such as `24GiB` or `512 MB` (as `lshw` prints them) in MiB.

use vstd::prelude::*;
use crate::num::{all_digits, digit_value, digits_value};
use crate::text::{
    chars_of, contains, contains_exec, is_ascii_digit, str_to_lowercase, trim, trim_exec,
    unicode_str_lowercase,
};

verus! {

pub open spec fn pow10(n: nat) -> nat
    decreases n,
{
    if n == 0 {
        1
    } else {
        10 * pow10((n - 1) as nat)
    }
}

pub open spec fn is_digit_or_dot(c: char) -> bool {
    is_ascii_digit(c) || c == '.'
}

/// Length of the longest prefix of `s` made of ASCII digits and dots.
pub open spec fn number_prefix_len(s: Seq<char>) -> nat
    decreases s.len(),
{
    if s.len() > 0 && is_digit_or_dot(s[0]) {
        1 + number_prefix_len(s.drop_first())
    } else {
        0
    }
}

pub open spec fn count_dots(s: Seq<char>) -> nat
    decreases s.len(),
{
    if s.len() == 0 {
        0
    } else {
        count_dots(s.drop_last()) + if s.last() == '.' {
            1nat
        } else {
            0nat
        }
    }
}

/// The part of `s` before its first dot (all of `s` when it has none).
pub open spec fn before_dot(s: Seq<char>) -> Seq<char>
    decreases s.len(),
{
    if s.len() == 0 || s[0] == '.' {
        seq![]
    } else {
        seq![s[0]] + before_dot(s.drop_first())
    }
}

/// The part of `s` after its first dot (empty when it has none).
pub open spec fn after_dot(s: Seq<char>) -> Seq<char>
    decreases s.len(),
{
    if s.len() == 0 {
        seq![]
    } else if s[0] == '.' {
        s.drop_first()
    } else {
        after_dot(s.drop_first())
    }
}

/// `floor(1024 * 0.f)` for the fraction digits `f`.
pub open spec fn frac_scaled(f: Seq<char>) -> nat {
    (1024 * digits_value(f)) / pow10(f.len())
}

pub open spec fn saturate(n: nat) -> u64 {
    if n > u64::MAX {
        u64::MAX
    } else {
        n as u64
    }
}

/// The MiB amount that a size string denotes. A leading number made of digits
/// and at most one dot (with at least one digit) is read exactly and scaled by
/// the first unit found among `gib`/`gb` (x1024), `mib`/`mb` (x1) and
/// `kib`/`kb` (/1024), case-insensitively; the amount is rounded down and
/// saturates at `u64::MAX`. Anything else gives `None`.
pub open spec fn size_to_mb(raw: Seq<char>) -> Option<u64> {
    let lower = unicode_str_lowercase(trim(raw));
    let d = lower.take(number_prefix_len(lower) as int);
    let i = digits_value(before_dot(d));
    let f = after_dot(d);
    if d.len() == 0 || count_dots(d) > 1 || d.len() == count_dots(d) {
        None
    } else if contains(lower, "gib"@) || contains(lower, "gb"@) {
        Some(saturate(i * 1024 + frac_scaled(f)))
    } else if contains(lower, "mib"@) || contains(lower, "mb"@) {
        Some(saturate(i))
    } else if contains(lower, "kib"@) || contains(lower, "kb"@) {
        Some(saturate(i / 1024))
    } else {
        None
    }
}

proof fn lemma_digits_value_first(s: Seq<char>)
    requires
        s.len() >= 1,
    ensures
        digits_value(s) == digit_value(s[0]) * pow10((s.len() - 1) as nat) + digits_value(
            s.drop_first(),
        ),
    decreases s.len(),
{
    if s.len() == 1 {
        assert(s.drop_last().len() == 0);
        assert(s.drop_first().len() == 0);
        assert(s.last() == s[0]);
        assert(pow10(0) == 1);
        assert(digits_value(s.drop_last()) == 0);
        assert(digits_value(s.drop_first()) == 0);
        assert(digits_value(s) == digit_value(s[0]));
        let d0 = digit_value(s[0]);
        let q = pow10(0);
        assert(d0 * q == d0) by (nonlinear_arith)
            requires
                q == 1,
        ;
    } else {
        let t = s.drop_last();
        lemma_digits_value_first(t);
        assert(t.drop_first() == s.drop_first().drop_last());
        assert(s.drop_first().last() == s.last());
        let d0 = digit_value(s[0]);
        let p = pow10((t.len() - 1) as nat);
        let x = digits_value(t.drop_first());
        assert(t[0] == s[0]);
        assert(t.len() == s.len() - 1);
        let q = pow10((s.len() - 1) as nat);
        assert(q == 10 * p);
        assert(d0 * q == d0 * (10 * p)) by (nonlinear_arith)
            requires
                q == 10 * p,
        ;
        assert(digits_value(t) == d0 * p + x);
        assert(digits_value(s) == digits_value(t) * 10 + digit_value(s.last()));
        assert(digits_value(s.drop_first()) == x * 10 + digit_value(s.last()));
        assert((d0 * p + x) * 10 + digit_value(s.last()) == d0 * (10 * p) + (x * 10 + digit_value(
            s.last(),
        ))) by (nonlinear_arith);
    }
}

proof fn lemma_pow10_positive(n: nat)
    ensures
        pow10(n) >= 1,
    decreases n,
{
    if n > 0 {
        lemma_pow10_positive((n - 1) as nat);
    }
}

/// One step of the right-to-left carry: `floor(1024 * 0.d f) = floor((1024 d + floor(1024 * 0.f)) / 10)`.
proof fn lemma_frac_scaled_step(s: Seq<char>)
    requires
        s.len() >= 1,
    ensures
        frac_scaled(s) == (1024 * digit_value(s[0]) + frac_scaled(s.drop_first())) / 10,
{
    let n = s.len();
    let p = pow10((n - 1) as nat);
    let d = digit_value(s[0]) as int;
    let r = digits_value(s.drop_first()) as int;
    lemma_digits_value_first(s);
    lemma_pow10_positive((n - 1) as nat);
    assert(pow10(n as nat) == 10 * p);
    assert(1024 * (d * p + r) == 1024 * r + (1024 * d) * p) by (nonlinear_arith);
    vstd::arithmetic::div_mod::lemma_div_denominator(1024 * r + (1024 * d) * p, p as int, 10);
    vstd::arithmetic::div_mod::lemma_hoist_over_denominator(1024 * r, 1024 * d, p);
    assert((p as int) * 10 == 10 * p);
}

/// Integer parts are counted up to this bound (2^74); any larger value
/// saturates every unit's result.
const CAP: u128 = 0x400_0000_0000_0000_0000;

/// Parses a size such as `24GiB`, `1.5 gb` or `512 MiB` into MiB.
pub fn parse_size_to_mb(raw: &str) -> (r: Option<u64>)
    ensures
        r == size_to_mb(raw@),
{
    let chars = chars_of(raw);
    let t = trim_exec(&chars);
    let lower = str_to_lowercase(&t);
    // The leading run of digits and dots.
    let mut n: usize = 0;
    let ghost lv = lower@;
    assert(lv.skip(0) == lv);
    while n < lower.len() && (('0' <= lower[n] && lower[n] <= '9') || lower[n] == '.')
        invariant
            n <= lv.len(),
            lv == lower@,
            number_prefix_len(lv) == n + number_prefix_len(lv.skip(n as int)),
            forall|j: int| 0 <= j < n ==> is_digit_or_dot(#[trigger] lv[j]),
        decreases lv.len() - n,
    {
        assert(lv.skip(n as int).drop_first() == lv.skip(n + 1));
        n = n + 1;
    }
    assert(number_prefix_len(lv.skip(n as int)) == 0);
    let ghost d = lv.take(n as int);
    // Split at the first dot, counting dots and reading the integer part.
    let mut int_part: u128 = 0;
    let mut dots: usize = 0;
    let mut digits: usize = 0;
    let mut frac_start: usize = n;
    let mut k: usize = 0;
    let ghost mut seen_dot = false;
    assert(d.skip(0) == d);
    while k < n
        invariant
            k <= n <= lv.len(),
            lv == lower@,
            d == lv.take(n as int),
            dots == 1 ==> forall|x: int| frac_start <= x < k ==> lv[x] != '.',
            dots > 0 ==> 1 <= frac_start,
            forall|j: int| 0 <= j < n ==> is_digit_or_dot(#[trigger] lv[j]),
            dots as nat == count_dots(d.take(k as int)),
            dots <= k,
            digits as nat + dots as nat == k as nat,
            dots == 0 ==> before_dot(d) == d.take(k as int) + before_dot(d.skip(k as int)),
            dots == 0 ==> after_dot(d) == after_dot(d.skip(k as int)),
            dots == 0 ==> int_part as nat == if digits_value(d.take(k as int)) > CAP {
                CAP as nat
            } else {
                digits_value(d.take(k as int))
            },
            dots == 0 ==> all_digits(d.take(k as int)),
            dots == 0 ==> frac_start == n,
            dots > 0 ==> frac_start <= k && after_dot(d) == d.skip(frac_start as int),
            dots > 0 ==> int_part as nat == if digits_value(before_dot(d)) > CAP {
                CAP as nat
            } else {
                digits_value(before_dot(d))
            },
        decreases n - k,
    {
        let c = lower[k];
        assert(d[k as int] == c);
        assert(d.take(k + 1).drop_last() == d.take(k as int));
        assert(d.take(k + 1).last() == c);
        assert(d.skip(k as int)[0] == c);
        assert(d.skip(k as int).drop_first() == d.skip(k + 1));
        if c == '.' {
            if dots == 0 {
                frac_start = k + 1;
                assert(before_dot(d.skip(k as int)) == Seq::<char>::empty());
                assert(d.take(k as int) + Seq::<char>::empty() == d.take(k as int));
            }
            dots = dots + 1;
        } else {
            assert(is_ascii_digit(c));
            digits = digits + 1;
            if dots == 0 {
                let dig: u128 = (c as u32 - '0' as u32) as u128;
                proof {
                    assert(d.take(k as int) + before_dot(d.skip(k as int)) == d.take(k + 1)
                        + before_dot(d.skip(k + 1))) by {
                        assert(before_dot(d.skip(k as int)) == seq![c] + before_dot(
                            d.skip(k + 1),
                        ));
                        assert(d.take(k as int) + seq![c] == d.take(k + 1));
                    }
                    assert(digits_value(d.take(k + 1)) == digits_value(d.take(k as int)) * 10
                        + dig);
                    assert(all_digits(d.take(k + 1)));
                }
                if int_part < CAP {
                    let v: u128 = int_part * 10 + dig;
                    int_part = if v > CAP {
                        CAP
                    } else {
                        v
                    };
                } else {
                    proof {
                        assert(digits_value(d.take(k as int)) * 10 + dig > CAP) by (nonlinear_arith)
                            requires
                                digits_value(d.take(k as int)) >= CAP,
                        ;
                    }
                }
            }
        }
        k = k + 1;
    }
    assert(d.take(n as int) == d);
    proof {
        if dots == 0 {
            assert(d.skip(n as int) == Seq::<char>::empty());
            assert(before_dot(d) == d);
            assert(after_dot(d) == Seq::<char>::empty());
        }
    }
    if n == 0 || dots > 1 || digits == 0 {
        return None;
    }
    let gib = has_unit(&lower, "gib") || has_unit(&lower, "gb");
    let mib = has_unit(&lower, "mib") || has_unit(&lower, "mb");
    let kib = has_unit(&lower, "kib") || has_unit(&lower, "kb");
    let max: u128 = u64::MAX as u128;
    if gib {
        // floor(1024 * 0.f), carried from the last fraction digit leftwards.
        let mut carry: u128 = 0;
        let mut j: usize = n;
        let ghost f = d.skip(frac_start as int);
        assert(f.skip((n - frac_start) as int).len() == 0);
        assert(frac_scaled(Seq::<char>::empty()) == 0);
        while j > frac_start
            invariant
                frac_start <= j <= n <= lv.len(),
                lv == lower@,
                d == lv.take(n as int),
                f == d.skip(frac_start as int),
                forall|x: int| 0 <= x < n ==> is_digit_or_dot(#[trigger] lv[x]),
                dots <= 1,
                forall|x: int| frac_start <= x < n ==> lv[x] != '.',
                carry < 1024,
                carry as nat == frac_scaled(f.skip(j - frac_start)),
            decreases j,
        {
            j = j - 1;
            let c = lower[j];
            assert(lv[j as int] == c);
            assert(is_ascii_digit(c));
            let dig: u128 = (c as u32 - '0' as u32) as u128;
            proof {
                let s = f.skip(j - frac_start);
                assert(s[0] == c);
                assert(s.drop_first() == f.skip(j + 1 - frac_start));
                lemma_frac_scaled_step(s);
            }
            carry = (1024 * dig + carry) / 10;
        }
        assert(f.skip(0) == f);
        assert(after_dot(d) == f);
        let total: u128 = if int_part >= CAP {
            max
        } else {
            int_part * 1024 + carry
        };
        let out: u128 = if total > max {
            max
        } else {
            total
        };
        return Some(out as u64);
    }
    if mib {
        let out: u128 = if int_part > max {
            max
        } else {
            int_part
        };
        return Some(out as u64);
    }
    if kib {
        let q: u128 = int_part / 1024;
        let out: u128 = if q > max {
            max
        } else {
            q
        };
        return Some(out as u64);
    }
    None
}

fn has_unit(s: &[char], unit: &str) -> (r: bool)
    ensures
        r == contains(s@, unit@),
{
    let u = chars_of(unit);
    contains_exec(s, &u)
}

} // verus!
