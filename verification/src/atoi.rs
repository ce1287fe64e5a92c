//! A digit-string-to-integer converter, as a deterministic finite
//! automaton: leading blanks and plus signs are skipped, minus signs and
//! digits are collected until the first character that fits neither, and
//! the collected text is read as a 32-bit integer, clamping to the type's
//! bounds on overflow and yielding zero when the collected text is not a
//! number (no digits, or more than one sign).

use vstd::prelude::*;
use crate::number::{all_digits, digit_val, digits_value};
use crate::strutil::{digit_char, is_digit_char};

verus! {

/// The states of the converting automaton.
#[derive(Debug, Clone, Copy, PartialEq, Eq, Structural)]
pub enum AtoiState {
    /// Before the digits: blanks and signs.
    Start,
    /// Inside the digit run.
    Integer,
    /// After the first character that fits nowhere; the rest is ignored.
    End,
}

/// Whether the automaton collects this character in this state.
pub open spec fn atoi_push(st: AtoiState, c: char) -> bool {
    match st {
        AtoiState::Start => c == '-' || is_digit_char(c),
        AtoiState::Integer => is_digit_char(c),
        AtoiState::End => false,
    }
}

/// The state after one character.
pub open spec fn atoi_next(st: AtoiState, c: char) -> AtoiState {
    match st {
        AtoiState::Start => {
            if c == ' ' || c == '+' || c == '-' {
                AtoiState::Start
            } else if is_digit_char(c) {
                AtoiState::Integer
            } else {
                AtoiState::End
            }
        },
        AtoiState::Integer => {
            if is_digit_char(c) {
                AtoiState::Integer
            } else {
                AtoiState::End
            }
        },
        AtoiState::End => AtoiState::End,
    }
}

/// The characters the automaton collects over a text.
pub open spec fn atoi_collect(st: AtoiState, s: Seq<char>) -> Seq<char>
    decreases s.len(),
{
    if s.len() == 0 {
        Seq::empty()
    } else {
        (if atoi_push(st, s[0]) {
            seq![s[0]]
        } else {
            Seq::empty()
        }) + atoi_collect(atoi_next(st, s[0]), s.skip(1))
    }
}

/// The number of minus signs the collected text starts with.
pub open spec fn minus_prefix_len(c: Seq<char>) -> int
    decreases c.len(),
{
    if c.len() > 0 && c[0] == '-' {
        1 + minus_prefix_len(c.skip(1))
    } else {
        0
    }
}

/// What converting a text yields: the collected characters read as an
/// optionally negated digit run. More than one sign or no digits at all is
/// zero; a value out of the 32-bit range clamps to the nearer bound.
pub open spec fn atoi_spec(s: Seq<char>) -> int {
    let c = atoi_collect(AtoiState::Start, s);
    let k = minus_prefix_len(c);
    let digs = c.skip(k);
    if k >= 2 || digs.len() == 0 || !all_digits(digs) {
        0
    } else {
        let v = digits_value(digs);
        if k == 1 {
            if v >= 0x8000_0000 {
                i32::MIN as int
            } else {
                -v
            }
        } else {
            if v > i32::MAX as int {
                i32::MAX as int
            } else {
                v
            }
        }
    }
}

/// A run of minus signs.
pub open spec fn minus_seq(k: nat) -> Seq<char> {
    Seq::new(k, |i: int| '-')
}

/// The magnitude accumulator saturates just past the 32-bit bound: enough
/// to tell every in-range value exactly and every overflow apart.
pub open spec fn clamp31(v: int) -> int {
    if v > 0x8000_0000 {
        0x8000_0000
    } else {
        v
    }
}

/// A minus-sign run followed by digits splits back into exactly those two
/// parts.
proof fn lemma_minus_prefix(k: nat, digs: Seq<char>)
    requires
        digs.len() == 0 || digs[0] != '-',
    ensures
        minus_prefix_len(minus_seq(k) + digs) == k,
        (minus_seq(k) + digs).skip(k as int) =~= digs,
    decreases k,
{
    if k == 0 {
        assert(minus_seq(0) + digs =~= digs);
    } else {
        lemma_minus_prefix((k - 1) as nat, digs);
        assert((minus_seq(k) + digs)[0] == '-');
        assert((minus_seq(k) + digs).skip(1) =~= minus_seq((k - 1) as nat) + digs);
    }
}

/// The converter. Its automaton state is scoped to one `parse` call; the
/// struct only carries the text.
pub struct Atoi {
    source: String,
}

impl Atoi {
    /// The text this converter reads.
    pub closed spec fn src(&self) -> Seq<char> {
        self.source@
    }

    pub fn new(s: String) -> (a: Self)
        ensures
            a.src() == s@,
    {
        Atoi { source: s }
    }

    /// Runs the automaton over the text, by [`atoi_spec`].
    pub fn parse(&self) -> (r: i32)
        ensures
            r as int == atoi_spec(self.src()),
    {
        let ghost sv = self.src();
        let n = self.source.as_str().unicode_len();
        let mut st = AtoiState::Start;
        let mut mag: u64 = 0;
        let mut minus_cnt: u8 = 0;
        let mut has_digits = false;
        let ghost mut gmc: nat = 0nat;
        let ghost mut digs: Seq<char> = Seq::empty();
        let mut i: usize = 0;
        proof {
            assert(sv.skip(0) =~= sv);
            assert(minus_seq(0) + digs =~= Seq::<char>::empty());
        }
        while i < n
            invariant
                i <= n,
                n == sv.len(),
                sv == self.src(),
                atoi_collect(AtoiState::Start, sv) == (minus_seq(gmc) + digs) + atoi_collect(
                    st,
                    sv.skip(i as int),
                ),
                all_digits(digs),
                st is Start ==> digs.len() == 0,
                st is Integer ==> digs.len() >= 1,
                has_digits == (digs.len() >= 1),
                mag == clamp31(digits_value(digs)),
                0 <= mag <= 0x8000_0000,
                minus_cnt == if gmc >= 2 {
                    2
                } else {
                    gmc as int
                },
            decreases n - i,
        {
            let c = self.source.as_str().get_char(i);
            proof {
                assert(sv.skip(i as int)[0] == c);
                assert(sv.skip(i as int).skip(1) =~= sv.skip(i as int + 1));
            }
            let (st2, pushed) = self.process_input(st, c);
            match pushed {
                Some(p) => {
                    if p == '-' {
                        proof {
                            assert(minus_seq(gmc).push('-') =~= minus_seq(gmc + 1));
                            assert((minus_seq(gmc) + digs).push('-') =~= minus_seq(gmc + 1) + digs);
                            assert((minus_seq(gmc) + digs) + (seq!['-'] + atoi_collect(
                                st2,
                                sv.skip(i as int + 1),
                            )) =~= (minus_seq(gmc + 1) + digs) + atoi_collect(
                                st2,
                                sv.skip(i as int + 1),
                            ));
                        }
                        proof {
                            gmc = gmc + 1;
                        }
                        if minus_cnt < 2 {
                            minus_cnt = minus_cnt + 1;
                        }
                    } else {
                        proof {
                            assert(is_digit_char(p));
                            assert(digs.push(p).drop_last() =~= digs);
                            assert(all_digits(digs.push(p)));
                            assert((minus_seq(gmc) + digs).push(p) =~= minus_seq(gmc) + digs.push(
                                p,
                            ));
                            assert((minus_seq(gmc) + digs) + (seq![p] + atoi_collect(
                                st2,
                                sv.skip(i as int + 1),
                            )) =~= (minus_seq(gmc) + digs.push(p)) + atoi_collect(
                                st2,
                                sv.skip(i as int + 1),
                            ));
                        }
                        let d = ((p as u32) - ('0' as u32)) as u64;
                        let x = mag * 10 + d;
                        mag = if x > 0x8000_0000 {
                            0x8000_0000
                        } else {
                            x
                        };
                        proof {
                            digs = digs.push(p);
                        }
                        has_digits = true;
                    }
                },
                None => {
                    proof {
                        assert(Seq::<char>::empty() + atoi_collect(st2, sv.skip(i as int + 1))
                            =~= atoi_collect(st2, sv.skip(i as int + 1)));
                    }
                },
            }
            st = st2;
            i = i + 1;
        }
        proof {
            assert(sv.skip(n as int) =~= Seq::<char>::empty());
            assert((minus_seq(gmc) + digs) + Seq::<char>::empty() =~= minus_seq(gmc) + digs);
            if digs.len() > 0 {
                assert(is_digit_char(digs[0]));
                assert(digs[0] != '-') by {
                    assert('-' as u32 == 45);
                }
            }
            lemma_minus_prefix(gmc, digs);
        }
        if minus_cnt >= 2 || !has_digits {
            return 0;
        }
        if minus_cnt == 1 {
            if mag >= 0x8000_0000 {
                i32::MIN
            } else {
                -(mag as i32)
            }
        } else {
            if mag > 0x7FFF_FFFF {
                i32::MAX
            } else {
                mag as i32
            }
        }
    }

    /// One character of input: the next state, and the character if the
    /// automaton collects it.
    fn process_input(&self, state: AtoiState, c: char) -> (r: (AtoiState, Option<char>))
        ensures
            r.0 == atoi_next(state, c),
            r.1 == if atoi_push(state, c) {
                Some(c)
            } else {
                None::<char>
            },
    {
        match state {
            AtoiState::Start => {
                if c == ' ' || c == '+' {
                    (AtoiState::Start, None)
                } else if c == '-' {
                    (AtoiState::Start, Some(c))
                } else if digit_char(c) {
                    (AtoiState::Integer, Some(c))
                } else {
                    (AtoiState::End, None)
                }
            },
            AtoiState::Integer => {
                if digit_char(c) {
                    (AtoiState::Integer, Some(c))
                } else {
                    (AtoiState::End, None)
                }
            },
            AtoiState::End => (AtoiState::End, None),
        }
    }
}

} // verus!
