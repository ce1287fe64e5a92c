//! The literal value model: a tagged union of 64-bit integer, fractional
//! number, text, boolean and the absent value, with the coercion rules of
//! the operators defined on it.
//!
//! Fractional numbers are held exactly, as a fraction of a 64-bit signed
//! numerator and a 64-bit unsigned positive denominator, and every operator
//! on them is the exact rational operation; a result whose reduced form
//! still cannot fit those bounds is an overflow failure rather than a
//! rounded value. Cross-type orderings (and equality) between tags that the
//! model does not relate are always false.

use vstd::prelude::*;
use core::cmp::Ordering;
use crate::errors::EvalError;

verus! {

/// A mathematical rational: `num / den`, with `den` positive.
pub ghost struct Rat {
    pub num: int,
    pub den: int,
}

pub open spec fn rat_add(p: Rat, q: Rat) -> Rat {
    Rat { num: p.num * q.den + q.num * p.den, den: p.den * q.den }
}

pub open spec fn rat_sub(p: Rat, q: Rat) -> Rat {
    Rat { num: p.num * q.den - q.num * p.den, den: p.den * q.den }
}

pub open spec fn rat_mul(p: Rat, q: Rat) -> Rat {
    Rat { num: p.num * q.num, den: p.den * q.den }
}

/// Division, with the sign moved into the numerator so the denominator
/// stays positive. Meaningful only when `q.num != 0`.
pub open spec fn rat_div(p: Rat, q: Rat) -> Rat {
    if q.num < 0 {
        Rat { num: -(p.num * q.den), den: p.den * -q.num }
    } else {
        Rat { num: p.num * q.den, den: p.den * q.num }
    }
}

/// Value equality of two rationals, by cross-multiplication.
pub open spec fn rat_eq(p: Rat, q: Rat) -> bool {
    p.num * q.den == q.num * p.den
}

/// Value order of two rationals, by cross-multiplication; sound because
/// both denominators are positive.
pub open spec fn rat_lt(p: Rat, q: Rat) -> bool {
    p.num * q.den < q.num * p.den
}

/// Whether a rational fits the executable fraction representation.
pub open spec fn rat_fits(r: Rat) -> bool {
    i64::MIN <= r.num <= i64::MAX && r.den <= u64::MAX
}

/// An exact fraction: the executable carrier of fractional literals.
/// Valid when its denominator is positive; operations keep fractions valid.
#[derive(Debug, Clone, Copy)]
pub struct Fraction {
    pub num: i64,
    pub den: u64,
}

impl Fraction {
    /// The rational this fraction denotes.
    pub open spec fn rat(self) -> Rat {
        Rat { num: self.num as int, den: self.den as int }
    }

    pub open spec fn valid(self) -> bool {
        self.den >= 1
    }

    pub fn new(num: i64, den: u64) -> (f: Fraction)
        requires
            den >= 1,
        ensures
            f.num == num,
            f.den == den,
            f.valid(),
    {
        Fraction { num, den }
    }
}

/// The mathematical model of a literal value.
pub ghost enum LiteralModel {
    Integer(int),
    Float(Rat),
    String(Seq<char>),
    Bool(bool),
    Nil,
}

/// Whether a literal model is carried exactly by the executable
/// representation: its numbers fit the 64-bit bounds.
pub open spec fn lit_valid(l: LiteralModel) -> bool {
    match l {
        LiteralModel::Integer(v) => i64::MIN <= v <= i64::MAX,
        LiteralModel::Float(r) => rat_fits(r) && r.den >= 1,
        _ => true,
    }
}

/// A literal value: a lexical value carried by a token, or the result of
/// evaluating an expression. Immutable; operators consume their operands
/// and produce new values.
#[derive(Debug)]
pub enum Literal {
    Integer(i64),
    Float(Fraction),
    String(String),
    Bool(bool),
    Nil,
}

impl View for Literal {
    type V = LiteralModel;

    open spec fn view(&self) -> LiteralModel {
        match self {
            Literal::Integer(v) => LiteralModel::Integer(*v as int),
            Literal::Float(f) => LiteralModel::Float(f.rat()),
            Literal::String(s) => LiteralModel::String(s@),
            Literal::Bool(b) => LiteralModel::Bool(*b),
            Literal::Nil => LiteralModel::Nil,
        }
    }
}

impl Clone for Literal {
    fn clone(&self) -> (res: Self)
        ensures
            res@ == self@,
    {
        match self {
            Literal::Integer(v) => Literal::Integer(*v),
            Literal::Float(f) => Literal::Float(*f),
            Literal::String(s) => Literal::String(s.clone()),
            Literal::Bool(b) => Literal::Bool(*b),
            Literal::Nil => Literal::Nil,
        }
    }
}

/// A numeric literal: an integer or a fractional number.
pub open spec fn lit_numeric(l: LiteralModel) -> bool {
    l is Integer || l is Float
}

/// The rational a numeric literal denotes; an integer is widened.
pub open spec fn to_rat(l: LiteralModel) -> Rat {
    match l {
        LiteralModel::Integer(v) => Rat { num: v, den: 1 },
        LiteralModel::Float(r) => r,
        _ => Rat { num: 0, den: 1 },
    }
}

/// An integer result, if it fits the 64-bit signed range.
pub open spec fn int_result(v: int) -> Result<LiteralModel, EvalError> {
    if i64::MIN <= v <= i64::MAX {
        Ok(LiteralModel::Integer(v))
    } else {
        Err(EvalError::Overflow)
    }
}

/// A fractional result, if it fits the executable fraction bounds.
pub open spec fn rat_result(r: Rat) -> Result<LiteralModel, EvalError> {
    if rat_fits(r) {
        Ok(LiteralModel::Float(r))
    } else {
        Err(EvalError::Overflow)
    }
}

/// Addition: integers add to an integer; any numeric mix widens to the
/// exact rational sum; texts concatenate; anything else is a type failure.
pub open spec fn add_spec(a: LiteralModel, b: LiteralModel) -> Result<LiteralModel, EvalError> {
    if a is Integer && b is Integer {
        int_result(a->Integer_0 + b->Integer_0)
    } else if lit_numeric(a) && lit_numeric(b) {
        rat_result(rat_add(to_rat(a), to_rat(b)))
    } else if a is String && b is String {
        Ok(LiteralModel::String(a->String_0 + b->String_0))
    } else {
        Err(EvalError::TypeError)
    }
}

/// Subtraction: numeric only, with the same promotion as addition.
pub open spec fn sub_spec(a: LiteralModel, b: LiteralModel) -> Result<LiteralModel, EvalError> {
    if a is Integer && b is Integer {
        int_result(a->Integer_0 - b->Integer_0)
    } else if lit_numeric(a) && lit_numeric(b) {
        rat_result(rat_sub(to_rat(a), to_rat(b)))
    } else {
        Err(EvalError::TypeError)
    }
}

/// Multiplication: numeric only, with the same promotion as addition.
pub open spec fn mul_spec(a: LiteralModel, b: LiteralModel) -> Result<LiteralModel, EvalError> {
    if a is Integer && b is Integer {
        int_result(a->Integer_0 * b->Integer_0)
    } else if lit_numeric(a) && lit_numeric(b) {
        rat_result(rat_mul(to_rat(a), to_rat(b)))
    } else {
        Err(EvalError::TypeError)
    }
}

/// Truncating integer division, as the machine performs it: the quotient
/// of the magnitudes, carrying the sign of the operands' product.
pub open spec fn trunc_div(x: int, d: int) -> int {
    if x == 0 {
        0
    } else if x > 0 && d > 0 {
        x / d
    } else if x < 0 && d < 0 {
        (x * -1) / (d * -1)
    } else if x < 0 {
        ((x * -1) / d) * -1
    } else {
        (x / (d * -1)) * -1
    }
}

/// Division: two integers divide truncating toward zero; any numeric mix
/// divides exactly as rationals. A zero right operand is a division
/// failure; non-numeric operands are a type failure.
pub open spec fn div_spec(a: LiteralModel, b: LiteralModel) -> Result<LiteralModel, EvalError> {
    if a is Integer && b is Integer {
        if b->Integer_0 == 0 {
            Err(EvalError::DivisionByZero)
        } else {
            int_result(trunc_div(a->Integer_0, b->Integer_0))
        }
    } else if lit_numeric(a) && lit_numeric(b) {
        if to_rat(b).num == 0 {
            Err(EvalError::DivisionByZero)
        } else {
            rat_result(rat_div(to_rat(a), to_rat(b)))
        }
    } else {
        Err(EvalError::TypeError)
    }
}

/// Logical not: a boolean negates; an integer is true exactly when zero; a
/// fractional number is never "falsy"; a text is true exactly when empty;
/// the absent value is true.
pub open spec fn not_spec(a: LiteralModel) -> LiteralModel {
    match a {
        LiteralModel::Bool(b) => LiteralModel::Bool(!b),
        LiteralModel::Float(_) => LiteralModel::Bool(false),
        LiteralModel::Integer(v) => LiteralModel::Bool(v == 0),
        LiteralModel::String(s) => LiteralModel::Bool(s.len() == 0),
        LiteralModel::Nil => LiteralModel::Bool(true),
    }
}

/// Unary minus: negates a number; anything else is a type failure.
pub open spec fn neg_spec(a: LiteralModel) -> Result<LiteralModel, EvalError> {
    match a {
        LiteralModel::Integer(v) => int_result(-v),
        LiteralModel::Float(r) => rat_result(Rat { num: -r.num, den: r.den }),
        _ => Err(EvalError::TypeError),
    }
}

/// Lexicographic order of two character sequences, by code point.
pub open spec fn seq_char_cmp(a: Seq<char>, b: Seq<char>) -> Ordering
    decreases a.len(),
{
    if a.len() == 0 && b.len() == 0 {
        Ordering::Equal
    } else if a.len() == 0 {
        Ordering::Less
    } else if b.len() == 0 {
        Ordering::Greater
    } else if a[0] < b[0] {
        Ordering::Less
    } else if b[0] < a[0] {
        Ordering::Greater
    } else {
        seq_char_cmp(a.skip(1), b.skip(1))
    }
}

/// The order of two literals: numbers compare as rationals (an integer
/// widened against a fractional number), texts lexicographically, booleans
/// with false before true, absent values equal; tags the model does not
/// relate are unordered.
pub open spec fn cmp_spec(a: LiteralModel, b: LiteralModel) -> Option<Ordering> {
    if lit_numeric(a) && lit_numeric(b) {
        if rat_eq(to_rat(a), to_rat(b)) {
            Some(Ordering::Equal)
        } else if rat_lt(to_rat(a), to_rat(b)) {
            Some(Ordering::Less)
        } else {
            Some(Ordering::Greater)
        }
    } else if a is String && b is String {
        Some(seq_char_cmp(a->String_0, b->String_0))
    } else if a is Bool && b is Bool {
        if a->Bool_0 == b->Bool_0 {
            Some(Ordering::Equal)
        } else if !a->Bool_0 {
            Some(Ordering::Less)
        } else {
            Some(Ordering::Greater)
        }
    } else if a is Nil && b is Nil {
        Some(Ordering::Equal)
    } else {
        None
    }
}

/// Equality of two literals: an order comparison that comes out equal.
pub open spec fn eq_lit_spec(a: LiteralModel, b: LiteralModel) -> bool {
    cmp_spec(a, b) == Some(Ordering::Equal)
}

impl Literal {
    /// Addition, by [`add_spec`].
    pub fn add(&self, rhs: &Literal) -> (res: Result<Literal, EvalError>)
        requires
            lit_valid(self@),
            lit_valid(rhs@),
        ensures
            match add_spec(self@, rhs@) {
                Ok(l) => res matches Ok(r) && r@ == l && lit_valid(r@),
                Err(e) => res == Err::<Literal, EvalError>(e),
            },
    {
        match (self, rhs) {
            (Literal::Integer(x), Literal::Integer(y)) => match x.checked_add(*y) {
                Some(v) => Ok(Literal::Integer(v)),
                None => Err(EvalError::Overflow),
            },
            (Literal::String(s), Literal::String(t)) => Ok(
                Literal::String(s.clone().concat(t.as_str())),
            ),
            _ => {
                if self.is_numeric() && rhs.is_numeric() {
                    match Self::frac_add(self.as_fraction(), rhs.as_fraction()) {
                        Ok(f) => Ok(Literal::Float(f)),
                        Err(e) => Err(e),
                    }
                } else {
                    Err(EvalError::TypeError)
                }
            },
        }
    }

    /// Subtraction, by [`sub_spec`].
    pub fn sub(&self, rhs: &Literal) -> (res: Result<Literal, EvalError>)
        requires
            lit_valid(self@),
            lit_valid(rhs@),
        ensures
            match sub_spec(self@, rhs@) {
                Ok(l) => res matches Ok(r) && r@ == l && lit_valid(r@),
                Err(e) => res == Err::<Literal, EvalError>(e),
            },
    {
        match (self, rhs) {
            (Literal::Integer(x), Literal::Integer(y)) => match x.checked_sub(*y) {
                Some(v) => Ok(Literal::Integer(v)),
                None => Err(EvalError::Overflow),
            },
            _ => {
                if self.is_numeric() && rhs.is_numeric() {
                    match Self::frac_sub(self.as_fraction(), rhs.as_fraction()) {
                        Ok(f) => Ok(Literal::Float(f)),
                        Err(e) => Err(e),
                    }
                } else {
                    Err(EvalError::TypeError)
                }
            },
        }
    }

    /// Multiplication, by [`mul_spec`].
    pub fn mul(&self, rhs: &Literal) -> (res: Result<Literal, EvalError>)
        requires
            lit_valid(self@),
            lit_valid(rhs@),
        ensures
            match mul_spec(self@, rhs@) {
                Ok(l) => res matches Ok(r) && r@ == l && lit_valid(r@),
                Err(e) => res == Err::<Literal, EvalError>(e),
            },
    {
        match (self, rhs) {
            (Literal::Integer(x), Literal::Integer(y)) => match x.checked_mul(*y) {
                Some(v) => Ok(Literal::Integer(v)),
                None => Err(EvalError::Overflow),
            },
            _ => {
                if self.is_numeric() && rhs.is_numeric() {
                    match Self::frac_mul(self.as_fraction(), rhs.as_fraction()) {
                        Ok(f) => Ok(Literal::Float(f)),
                        Err(e) => Err(e),
                    }
                } else {
                    Err(EvalError::TypeError)
                }
            },
        }
    }

    /// Division, by [`div_spec`].
    pub fn div(&self, rhs: &Literal) -> (res: Result<Literal, EvalError>)
        requires
            lit_valid(self@),
            lit_valid(rhs@),
        ensures
            match div_spec(self@, rhs@) {
                Ok(l) => res matches Ok(r) && r@ == l && lit_valid(r@),
                Err(e) => res == Err::<Literal, EvalError>(e),
            },
    {
        match (self, rhs) {
            (Literal::Integer(x), Literal::Integer(y)) => {
                if *y == 0 {
                    Err(EvalError::DivisionByZero)
                } else {
                    match x.checked_div(*y) {
                        Some(v) => Ok(Literal::Integer(v)),
                        None => Err(EvalError::Overflow),
                    }
                }
            },
            _ => {
                if self.is_numeric() && rhs.is_numeric() {
                    match Self::frac_div(self.as_fraction(), rhs.as_fraction()) {
                        Ok(f) => Ok(Literal::Float(f)),
                        Err(e) => Err(e),
                    }
                } else {
                    Err(EvalError::TypeError)
                }
            },
        }
    }

    /// Logical not, by [`not_spec`]. Total: every tag has a truth value.
    pub fn not(&self) -> (res: Literal)
        ensures
            res@ == not_spec(self@),
    {
        match self {
            Literal::Bool(b) => Literal::Bool(!*b),
            Literal::Float(_) => Literal::Bool(false),
            Literal::Integer(v) => Literal::Bool(*v == 0),
            Literal::String(s) => Literal::Bool(s.as_str().unicode_len() == 0),
            Literal::Nil => Literal::Bool(true),
        }
    }

    /// Unary minus, by [`neg_spec`].
    pub fn neg(&self) -> (res: Result<Literal, EvalError>)
        requires
            lit_valid(self@),
        ensures
            match neg_spec(self@) {
                Ok(l) => res matches Ok(r) && r@ == l && lit_valid(r@),
                Err(e) => res == Err::<Literal, EvalError>(e),
            },
    {
        match self {
            Literal::Integer(v) => match 0i64.checked_sub(*v) {
                Some(n) => Ok(Literal::Integer(n)),
                None => Err(EvalError::Overflow),
            },
            Literal::Float(f) => match 0i64.checked_sub(f.num) {
                Some(n) => Ok(Literal::Float(Fraction { num: n, den: f.den })),
                None => Err(EvalError::Overflow),
            },
            _ => Err(EvalError::TypeError),
        }
    }

    /// Whether this literal is a number.
    pub fn is_numeric(&self) -> (b: bool)
        ensures
            b == lit_numeric(self@),
    {
        match self {
            Literal::Integer(_) => true,
            Literal::Float(_) => true,
            _ => false,
        }
    }

    /// The fraction a numeric literal denotes, an integer widened.
    fn as_fraction(&self) -> (f: Fraction)
        requires
            lit_numeric(self@),
            lit_valid(self@),
        ensures
            f.rat() == to_rat(self@),
            f.valid(),
    {
        match self {
            Literal::Integer(v) => Fraction { num: *v, den: 1 },
            Literal::Float(f) => *f,
            _ => Fraction { num: 0, den: 1 },
        }
    }

    fn frac_add(p: Fraction, q: Fraction) -> (res: Result<Fraction, EvalError>)
        requires
            p.valid(),
            q.valid(),
        ensures
            rat_fits(rat_add(p.rat(), q.rat())) ==> (res matches Ok(f) && f.rat() == rat_add(
                p.rat(),
                q.rat(),
            ) && f.valid()),
            !rat_fits(rat_add(p.rat(), q.rat())) ==> res == Err::<Fraction, EvalError>(
                EvalError::Overflow,
            ),
    {
        proof {
            lemma_cross_bounds(p, q);
        }
        let n1: i128 = (p.num as i128) * (q.den as i128);
        let n2: i128 = (q.num as i128) * (p.den as i128);
        let den: u128 = (p.den as u128) * (q.den as u128);
        match n1.checked_add(n2) {
            Some(num) => Self::frac_fit(num, den),
            None => Err(EvalError::Overflow),
        }
    }

    fn frac_sub(p: Fraction, q: Fraction) -> (res: Result<Fraction, EvalError>)
        requires
            p.valid(),
            q.valid(),
        ensures
            rat_fits(rat_sub(p.rat(), q.rat())) ==> (res matches Ok(f) && f.rat() == rat_sub(
                p.rat(),
                q.rat(),
            ) && f.valid()),
            !rat_fits(rat_sub(p.rat(), q.rat())) ==> res == Err::<Fraction, EvalError>(
                EvalError::Overflow,
            ),
    {
        proof {
            lemma_cross_bounds(p, q);
        }
        let n1: i128 = (p.num as i128) * (q.den as i128);
        let n2: i128 = (q.num as i128) * (p.den as i128);
        let den: u128 = (p.den as u128) * (q.den as u128);
        match n1.checked_sub(n2) {
            Some(num) => Self::frac_fit(num, den),
            None => Err(EvalError::Overflow),
        }
    }

    fn frac_mul(p: Fraction, q: Fraction) -> (res: Result<Fraction, EvalError>)
        requires
            p.valid(),
            q.valid(),
        ensures
            rat_fits(rat_mul(p.rat(), q.rat())) ==> (res matches Ok(f) && f.rat() == rat_mul(
                p.rat(),
                q.rat(),
            ) && f.valid()),
            !rat_fits(rat_mul(p.rat(), q.rat())) ==> res == Err::<Fraction, EvalError>(
                EvalError::Overflow,
            ),
    {
        proof {
            lemma_num_bounds(p, q);
        }
        let num: i128 = (p.num as i128) * (q.num as i128);
        let den: u128 = (p.den as u128) * (q.den as u128);
        Self::frac_fit(num, den)
    }

    fn frac_div(p: Fraction, q: Fraction) -> (res: Result<Fraction, EvalError>)
        requires
            p.valid(),
            q.valid(),
        ensures
            q.rat().num == 0 ==> res == Err::<Fraction, EvalError>(EvalError::DivisionByZero),
            q.rat().num != 0 && rat_fits(rat_div(p.rat(), q.rat())) ==> (res matches Ok(f)
                && f.rat() == rat_div(p.rat(), q.rat()) && f.valid()),
            q.rat().num != 0 && !rat_fits(rat_div(p.rat(), q.rat())) ==> res == Err::<
                Fraction,
                EvalError,
            >(EvalError::Overflow),
    {
        if q.num == 0 {
            return Err(EvalError::DivisionByZero);
        }
        proof {
            lemma_cross_bounds(p, q);
            lemma_div_bounds(p, q);
        }
        if q.num < 0 {
            let num: i128 = -((p.num as i128) * (q.den as i128));
            let den: u128 = (p.den as u128) * ((-(q.num as i128)) as u128);
            Self::frac_fit(num, den)
        } else {
            let num: i128 = (p.num as i128) * (q.den as i128);
            let den: u128 = (p.den as u128) * (q.num as u128);
            Self::frac_fit(num, den)
        }
    }

    /// Narrows an exactly computed fraction back to the 64-bit carriers.
    fn frac_fit(num: i128, den: u128) -> (res: Result<Fraction, EvalError>)
        requires
            den >= 1,
        ensures
            rat_fits(Rat { num: num as int, den: den as int }) ==> (res matches Ok(f) && f.rat()
                == (Rat { num: num as int, den: den as int }) && f.valid()),
            !rat_fits(Rat { num: num as int, den: den as int }) ==> res == Err::<
                Fraction,
                EvalError,
            >(EvalError::Overflow),
    {
        if num < i64::MIN as i128 || num > i64::MAX as i128 || den > u64::MAX as u128 {
            Err(EvalError::Overflow)
        } else {
            Ok(Fraction { num: num as i64, den: den as u64 })
        }
    }
}

impl Literal {
    /// The numerator and denominator a numeric literal denotes, an integer
    /// widened over 1. Unlike [`Literal::as_fraction`] this asks no
    /// validity, so the equality and ordering impls stay total.
    fn parts(&self) -> (p: (i64, u64))
        requires
            lit_numeric(self@),
        ensures
            p.0 as int == to_rat(self@).num,
            p.1 as int == to_rat(self@).den,
    {
        match self {
            Literal::Integer(v) => (*v, 1),
            Literal::Float(f) => (f.num, f.den),
            _ => (0, 1),
        }
    }

    /// Lexicographic comparison of two texts, by code point.
    fn str_cmp(a: &str, b: &str) -> (o: Ordering)
        ensures
            o == seq_char_cmp(a@, b@),
    {
        let na = a.unicode_len();
        let nb = b.unicode_len();
        let mut i: usize = 0;
        proof {
            assert(a@.skip(0) =~= a@);
            assert(b@.skip(0) =~= b@);
        }
        while i < na && i < nb
            invariant
                i <= na,
                i <= nb,
                na == a@.len(),
                nb == b@.len(),
                seq_char_cmp(a@, b@) == seq_char_cmp(a@.skip(i as int), b@.skip(i as int)),
            decreases na - i,
        {
            let ca = a.get_char(i);
            let cb = b.get_char(i);
            proof {
                assert(a@.skip(i as int)[0] == ca);
                assert(b@.skip(i as int)[0] == cb);
            }
            if ca < cb {
                return Ordering::Less;
            }
            if cb < ca {
                return Ordering::Greater;
            }
            proof {
                assert(a@.skip(i as int).skip(1) =~= a@.skip(i as int + 1));
                assert(b@.skip(i as int).skip(1) =~= b@.skip(i as int + 1));
            }
            i = i + 1;
        }
        if na == nb {
            Ordering::Equal
        } else if na < nb {
            Ordering::Less
        } else {
            Ordering::Greater
        }
    }
}

impl PartialEq for Literal {
    fn eq(&self, other: &Self) -> (r: bool) {
        matches!(self.partial_cmp(other), Some(Ordering::Equal))
    }
}

impl vstd::std_specs::cmp::PartialEqSpecImpl for Literal {
    open spec fn obeys_eq_spec() -> bool {
        true
    }

    open spec fn eq_spec(&self, other: &Self) -> bool {
        eq_lit_spec(self@, other@)
    }
}

impl PartialOrd for Literal {
    fn partial_cmp(&self, other: &Self) -> (r: Option<Ordering>) {
        match (self, other) {
            (Literal::String(a), Literal::String(b)) => Some(
                Self::str_cmp(a.as_str(), b.as_str()),
            ),
            (Literal::Bool(a), Literal::Bool(b)) => {
                if *a == *b {
                    Some(Ordering::Equal)
                } else if !*a {
                    Some(Ordering::Less)
                } else {
                    Some(Ordering::Greater)
                }
            },
            (Literal::Nil, Literal::Nil) => Some(Ordering::Equal),
            _ => {
                if self.is_numeric() && other.is_numeric() {
                    let (n1, d1) = self.parts();
                    let (n2, d2) = other.parts();
                    proof {
                        lemma_loose_mixed_product(n1 as int, d2 as int);
                        lemma_loose_mixed_product(n2 as int, d1 as int);
                    }
                    let lhs: i128 = (n1 as i128) * (d2 as i128);
                    let rhs: i128 = (n2 as i128) * (d1 as i128);
                    if lhs == rhs {
                        Some(Ordering::Equal)
                    } else if lhs < rhs {
                        Some(Ordering::Less)
                    } else {
                        Some(Ordering::Greater)
                    }
                } else {
                    None
                }
            },
        }
    }
}

impl vstd::std_specs::cmp::PartialOrdSpecImpl for Literal {
    open spec fn obeys_partial_cmp_spec() -> bool {
        true
    }

    open spec fn partial_cmp_spec(&self, other: &Self) -> Option<Ordering> {
        cmp_spec(self@, other@)
    }
}

/// A 64-bit signed value times a 64-bit unsigned value fits a 128-bit
/// signed integer, whatever its sign.
proof fn lemma_loose_mixed_product(a: int, b: int)
    requires
        i64::MIN <= a <= i64::MAX,
        0 <= b <= u64::MAX,
    ensures
        -i128::MAX <= a * b <= i128::MAX,
{
    assert(-i128::MAX <= a * b <= i128::MAX) by (nonlinear_arith)
        requires
            i64::MIN <= a <= i64::MAX,
            0 <= b <= u64::MAX,
    ;
}

/// The cross products of two valid fractions fit a 128-bit signed integer.
proof fn lemma_cross_bounds(p: Fraction, q: Fraction)
    requires
        p.valid(),
        q.valid(),
    ensures
        -i128::MAX <= p.num as int * q.den as int <= i128::MAX,
        -i128::MAX <= q.num as int * p.den as int <= i128::MAX,
        1 <= p.den as int * q.den as int <= u128::MAX,
{
    lemma_mixed_product(p.num as int, q.den as int);
    lemma_mixed_product(q.num as int, p.den as int);
    lemma_den_product(p.den as int, q.den as int);
}

/// The numerator product of two valid fractions fits a 128-bit signed
/// integer.
proof fn lemma_num_bounds(p: Fraction, q: Fraction)
    requires
        p.valid(),
        q.valid(),
    ensures
        i128::MIN <= p.num as int * q.num as int <= i128::MAX,
        1 <= p.den as int * q.den as int <= u128::MAX,
{
    assert(i128::MIN <= p.num as int * q.num as int <= i128::MAX) by (nonlinear_arith)
        requires
            i64::MIN <= p.num as int <= i64::MAX,
            i64::MIN <= q.num as int <= i64::MAX,
    ;
    lemma_den_product(p.den as int, q.den as int);
}

/// The denominator of a division by a valid, nonzero fraction stays within
/// the 128-bit unsigned range and positive.
proof fn lemma_div_bounds(p: Fraction, q: Fraction)
    requires
        p.valid(),
        q.valid(),
        q.num != 0,
    ensures
        q.num < 0 ==> 1 <= p.den as int * -(q.num as int) <= u128::MAX,
        q.num > 0 ==> 1 <= p.den as int * q.num as int <= u128::MAX,
{
    assert(q.num < 0 ==> 1 <= p.den as int * -(q.num as int) <= u128::MAX) by (nonlinear_arith)
        requires
            1 <= p.den as int <= u64::MAX,
            i64::MIN <= q.num as int <= i64::MAX,
            q.num as int != 0,
    ;
    assert(q.num > 0 ==> 1 <= p.den as int * q.num as int <= u128::MAX) by (nonlinear_arith)
        requires
            1 <= p.den as int <= u64::MAX,
            i64::MIN <= q.num as int <= i64::MAX,
    ;
}

/// `|a| <= 2^63` times `0 < b < 2^64` stays within the 128-bit signed
/// range.
proof fn lemma_mixed_product(a: int, b: int)
    requires
        i64::MIN <= a <= i64::MAX,
        1 <= b <= u64::MAX,
    ensures
        -i128::MAX <= a * b <= i128::MAX,
{
    assert(-i128::MAX <= a * b <= i128::MAX) by (nonlinear_arith)
        requires
            i64::MIN <= a <= i64::MAX,
            1 <= b <= u64::MAX,
    ;
}

/// The product of two positive 64-bit denominators is positive and fits
/// the 128-bit unsigned range.
proof fn lemma_den_product(a: int, b: int)
    requires
        1 <= a <= u64::MAX,
        1 <= b <= u64::MAX,
    ensures
        1 <= a * b <= u128::MAX,
{
    assert(1 <= a * b <= u128::MAX) by (nonlinear_arith)
        requires
            1 <= a <= u64::MAX,
            1 <= b <= u64::MAX,
    ;
}

} // verus!
