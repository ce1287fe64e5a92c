//! The value a number lexeme denotes: a run of digits is a 64-bit integer,
//! a run with one embedded decimal point is an exact fraction over a power
//! of ten. A malformed lexeme, or one whose value cannot fit the 64-bit
//! carriers, denotes nothing.

use vstd::prelude::*;
use crate::literal::{lit_valid, Fraction, Literal, LiteralModel, Rat};
use crate::strutil::{digit_char, is_digit_char};

verus! {

/// The numeric value of one digit character.
pub open spec fn digit_val(c: char) -> int {
    c as u32 - '0' as u32
}

/// Every character of the sequence is a decimal digit.
pub open spec fn all_digits(s: Seq<char>) -> bool {
    forall|k: int| 0 <= k < s.len() ==> is_digit_char(#[trigger] s[k])
}

/// The value of a digit run, most significant digit first.
pub open spec fn digits_value(s: Seq<char>) -> int
    decreases s.len(),
{
    if s.len() == 0 {
        0
    } else {
        10 * digits_value(s.drop_last()) + digit_val(s.last())
    }
}

pub open spec fn pow10(k: nat) -> int
    decreases k,
{
    if k == 0 {
        1
    } else {
        10 * pow10((k - 1) as nat)
    }
}

/// The position of the first decimal point at or after `i`, or -1.
pub open spec fn first_dot_from(s: Seq<char>, i: nat) -> int
    decreases s.len() - i,
{
    if i >= s.len() {
        -1
    } else if s[i as int] == '.' {
        i as int
    } else {
        first_dot_from(s, i + 1)
    }
}

/// The literal a number lexeme denotes. Without a decimal point it is the
/// integer value of its digits; with one, the fraction whose numerator is
/// the digits run together and whose denominator is ten to the number of
/// fractional digits. It denotes nothing when it is empty, holds a
/// character that is neither digit nor first point, starts or ends at the
/// point, or does not fit the 64-bit carriers.
pub open spec fn number_value(s: Seq<char>) -> Option<LiteralModel> {
    let d = first_dot_from(s, 0);
    if d < 0 {
        if s.len() >= 1 && all_digits(s) && digits_value(s) <= i64::MAX {
            Some(LiteralModel::Integer(digits_value(s)))
        } else {
            None
        }
    } else {
        let ip = s.take(d);
        let fp = s.skip(d + 1);
        if d >= 1 && fp.len() >= 1 && all_digits(ip) && all_digits(fp) && digits_value(ip + fp)
            <= i64::MAX && pow10(fp.len()) <= u64::MAX {
            Some(LiteralModel::Float(Rat { num: digits_value(ip + fp), den: pow10(fp.len()) }))
        } else {
            None
        }
    }
}

/// The value of a digit run is never negative.
pub proof fn lemma_digits_value_nonneg(s: Seq<char>)
    requires
        all_digits(s),
    ensures
        digits_value(s) >= 0,
    decreases s.len(),
{
    if s.len() > 0 {
        assert(all_digits(s.drop_last()));
        lemma_digits_value_nonneg(s.drop_last());
    }
}

/// Extending a digit run can only grow its value.
pub proof fn lemma_digits_value_extend(t: Seq<char>, u: Seq<char>)
    requires
        all_digits(t),
        all_digits(u),
    ensures
        digits_value(t + u) >= digits_value(t),
    decreases u.len(),
{
    if u.len() == 0 {
        assert(t + u =~= t);
    } else {
        assert(all_digits(u.drop_last()));
        lemma_digits_value_extend(t, u.drop_last());
        assert(t + u.drop_last() =~= (t + u).drop_last());
        assert(all_digits(t + u.drop_last()));
        lemma_digits_value_nonneg(t + u.drop_last());
        assert(digits_value(t + u) == 10 * digits_value(t + u.drop_last()) + digit_val(
            (t + u).last(),
        ));
    }
}

/// Powers of ten only grow.
pub proof fn lemma_pow10_mono(j: nat, k: nat)
    requires
        j <= k,
    ensures
        1 <= pow10(j) <= pow10(k),
    decreases k,
{
    if k == 0 {
    } else if j == k {
        lemma_pow10_mono((j - 1) as nat, (k - 1) as nat);
    } else {
        lemma_pow10_mono(j, (k - 1) as nat);
    }
}

/// Where the first point lies, a point lies, and none lies before it.
proof fn lemma_first_dot_is_dot(s: Seq<char>, i: nat)
    requires
        first_dot_from(s, i) >= 0,
    ensures
        i <= first_dot_from(s, i) < s.len(),
        s[first_dot_from(s, i)] == '.',
        forall|k: int| i <= k < first_dot_from(s, i) ==> s[k] != '.',
    decreases s.len() - i,
{
    if i >= s.len() {
    } else if s[i as int] == '.' {
    } else {
        lemma_first_dot_is_dot(s, i + 1);
    }
}

/// A character that is not a digit, standing in what must be a digit run,
/// leaves the lexeme denoting nothing.
proof fn lemma_bad_char(s: Seq<char>, i: int)
    requires
        0 <= i < s.len(),
        !is_digit_char(s[i]),
        i != first_dot_from(s, 0),
    ensures
        number_value(s) is None,
{
    let dd = first_dot_from(s, 0);
    if dd < 0 {
        assert(!all_digits(s)) by {
            assert(!is_digit_char(s[i]));
        }
    } else {
        lemma_first_dot_is_dot(s, 0);
        if i < dd {
            assert(s.take(dd)[i] == s[i]);
            assert(!all_digits(s.take(dd)));
        } else {
            assert(i > dd);
            assert(s.skip(dd + 1)[i - dd - 1] == s[i]);
            assert(!all_digits(s.skip(dd + 1)));
        }
    }
}

/// If the digit accumulator cannot take one more digit of the run, the
/// whole lexeme's value cannot fit either, so the lexeme denotes nothing.
/// `t` is the run of the digits already taken in, `i` the position of the
/// digit that does not fit.
proof fn lemma_overflow(s: Seq<char>, t: Seq<char>, i: int)
    requires
        0 <= i < s.len(),
        all_digits(t),
        is_digit_char(s[i]),
        10 * digits_value(t) + digit_val(s[i]) > i64::MAX,
        // The taken-in digits, with this one, are a prefix of the full run.
        ({
            let dd = first_dot_from(s, 0);
            if dd < 0 {
                t.push(s[i]) =~= s.take(i + 1) && all_digits(s) ==> s.take(i + 1) + s.skip(i + 1)
                    =~= s
            } else {
                true
            }
        }),
    ensures
        first_dot_from(s, 0) < 0 && t.push(s[i]) == s.take(i + 1) ==> number_value(s) is None,
        ({
            let dd = first_dot_from(s, 0);
            dd >= 0 && (i < dd && t.push(s[i]) == s.take(i + 1) || i > dd && t.push(s[i])
                == s.take(dd) + s.subrange(dd + 1, i + 1)) ==> number_value(s) is None
        }),
{
    let dd = first_dot_from(s, 0);
    let t1 = t.push(s[i]);
    assert(t1.drop_last() =~= t);
    assert(digits_value(t1) > i64::MAX);
    assert(all_digits(t1));
    if dd < 0 && t1 == s.take(i + 1) {
        if all_digits(s) {
            assert(t1 + s.skip(i + 1) =~= s);
            assert(all_digits(s.skip(i + 1)));
            lemma_digits_value_extend(t1, s.skip(i + 1));
        }
    }
    if dd >= 0 {
        lemma_first_dot_is_dot(s, 0);
        if i < dd && t1 == s.take(i + 1) {
            if all_digits(s.take(dd)) && all_digits(s.skip(dd + 1)) {
                assert(t1 + s.subrange(i + 1, dd) =~= s.take(dd));
                assert forall|k: int| 0 <= k < s.subrange(i + 1, dd).len() implies is_digit_char(
                    #[trigger] s.subrange(i + 1, dd)[k],
                ) by {
                    assert(s.subrange(i + 1, dd)[k] == s.take(dd)[k + i + 1]);
                }
                lemma_digits_value_extend(t1, s.subrange(i + 1, dd));
                lemma_digits_value_extend(s.take(dd), s.skip(dd + 1));
                assert(digits_value(s.take(dd) + s.skip(dd + 1)) > i64::MAX);
            }
        }
        if i > dd && t1 == s.take(dd) + s.subrange(dd + 1, i + 1) {
            if all_digits(s.take(dd)) && all_digits(s.skip(dd + 1)) {
                assert(t1 + s.skip(i + 1) =~= s.take(dd) + s.skip(dd + 1));
                assert(all_digits(s.skip(i + 1))) by {
                    assert forall|k: int| 0 <= k < s.skip(i + 1).len() implies is_digit_char(
                        #[trigger] s.skip(i + 1)[k],
                    ) by {
                        assert(s.skip(i + 1)[k] == s.skip(dd + 1)[k + i - dd]);
                    }
                }
                lemma_digits_value_extend(t1, s.skip(i + 1));
            }
        }
    }
}

impl Literal {
    /// The literal a number lexeme denotes, by [`number_value`]; `None` for
    /// a lexeme that denotes nothing.
    pub fn number_literal(s: &str) -> (res: Option<Literal>)
        ensures
            match number_value(s@) {
                Some(lm) => res matches Some(l) && l@ == lm && lit_valid(lm),
                None => res is None,
            },
    {
        let ghost sv = s@;
        let n = s.unicode_len();
        // Find the first decimal point, if any.
        let mut i: usize = 0;
        let mut found = false;
        let mut dot: usize = 0;
        while i < n && !found
            invariant
                i <= n,
                n == sv.len(),
                sv == s@,
                !found ==> first_dot_from(sv, 0) == first_dot_from(sv, i as nat),
                found ==> 0 <= dot < n && first_dot_from(sv, 0) == dot,
            decreases n - i, (if found { 0int } else { 1 }),
        {
            let c = s.get_char(i);
            if c == '.' {
                found = true;
                dot = i;
                proof {
                    assert(first_dot_from(sv, i as nat) == i);
                }
            } else {
                i = i + 1;
            }
        }
        proof {
            if !found {
                assert(first_dot_from(sv, n as nat) == -1);
            }
        }
        // The integer part: every character before the point (or the end)
        // must be a digit.
        let d_end: usize = if found {
            dot
        } else {
            n
        };
        let mut num: i64 = 0;
        let mut j: usize = 0;
        while j < d_end
            invariant
                j <= d_end <= n,
                n == sv.len(),
                sv == s@,
                found ==> d_end == dot && 0 <= dot < n && first_dot_from(sv, 0) == dot,
                !found ==> d_end == n && first_dot_from(sv, 0) == -1,
                all_digits(sv.take(j as int)),
                num == digits_value(sv.take(j as int)),
                num >= 0,
            decreases d_end - j,
        {
            let c = s.get_char(j);
            if !digit_char(c) {
                proof {
                    if found {
                        lemma_first_dot_is_dot(sv, 0);
                    }
                    lemma_bad_char(sv, j as int);
                }
                return None;
            }
            let dv = (c as u32) - ('0' as u32);
            let step = match num.checked_mul(10) {
                Some(v) => v.checked_add(dv as i64),
                None => None,
            };
            match step {
                Some(v) => {
                    num = v;
                },
                None => {
                    proof {
                        assert(sv.take(j as int).push(sv[j as int]) =~= sv.take(j as int + 1));
                        if first_dot_from(sv, 0) < 0 {
                            assert(all_digits(sv) ==> sv.take(j as int + 1) + sv.skip(j as int + 1)
                                =~= sv);
                        }
                        lemma_overflow(sv, sv.take(j as int), j as int);
                    }
                    return None;
                },
            }
            proof {
                assert(sv.take(j as int + 1).drop_last() =~= sv.take(j as int));
                assert(sv.take(j as int + 1).last() == sv[j as int]);
            }
            j = j + 1;
        }
        if !found {
            // No decimal point: an integer lexeme.
            proof {
                assert(sv.take(n as int) =~= sv);
            }
            if n == 0 {
                return None;
            }
            return Some(Literal::Integer(num));
        }
        if dot == 0 {
            // The lexeme starts at the point: no integer part.
            return None;
        }
        // The fractional part: every character after the point must be a
        // digit; the denominator is ten to their number.
        let ghost d = dot as int;
        let mut den: u64 = 1;
        let mut k: usize = dot + 1;
        while k < n
            invariant
                d + 1 <= k <= n,
                n == sv.len(),
                sv == s@,
                1 <= d < n,
                first_dot_from(sv, 0) == d,
                all_digits(sv.take(d)),
                all_digits(sv.subrange(d + 1, k as int)),
                num == digits_value(sv.take(d) + sv.subrange(d + 1, k as int)),
                num >= 0,
                den == pow10((k - d - 1) as nat),
                den >= 1,
            decreases n - k,
        {
            let c = s.get_char(k);
            if !digit_char(c) {
                proof {
                    lemma_first_dot_is_dot(sv, 0);
                    lemma_bad_char(sv, k as int);
                }
                return None;
            }
            let dv = (c as u32) - ('0' as u32);
            let ghost t = sv.take(d) + sv.subrange(d + 1, k as int);
            let step = match num.checked_mul(10) {
                Some(v) => v.checked_add(dv as i64),
                None => None,
            };
            match step {
                Some(v) => {
                    num = v;
                },
                None => {
                    proof {
                        assert(t.push(sv[k as int]) =~= sv.take(d) + sv.subrange(d + 1, k as int + 1));
                        lemma_overflow(sv, t, k as int);
                    }
                    return None;
                },
            }
            den = match den.checked_mul(10) {
                Some(v) => v,
                None => {
                    proof {
                        lemma_pow10_mono((k + 1 - d - 1) as nat, sv.skip(d + 1).len() as nat);
                    }
                    return None;
                },
            };
            proof {
                let t1 = sv.take(d) + sv.subrange(d + 1, k as int + 1);
                assert(t1.drop_last() =~= t);
                assert(t1.last() == sv[k as int]);
            }
            k = k + 1;
        }
        if dot + 1 == n {
            // The lexeme ends at the point: no fractional digits.
            proof {
                assert(sv.skip(d + 1).len() == 0);
            }
            return None;
        }
        proof {
            assert(sv.subrange(d + 1, n as int) =~= sv.skip(d + 1));
        }
        Some(Literal::Float(Fraction { num, den }))
    }
}

} // verus!
