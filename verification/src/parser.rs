//! The recursive-descent parser, and the evaluator that folds an expression
//! tree into one literal value.
//!
//! The grammar, lowest precedence first: logical-or, logical-and, equality
//! (`==`, `!=`), comparison (`>`, `>=`, `<`, `<=`), term (`+`, `-`), factor
//! (`*`, `/`), unary (`!`, `-`), primary (a number, string or identifier
//! literal, or a parenthesized expression). Every binary tier is
//! left-associative: it loops, consuming its operators and nesting to the
//! left. The six binary tiers differ only in their operator set, so both
//! the specification and the parser treat them as one numbered level.
//!
//! Like the scanner, the grammar is written down twice: as a specification
//! over token models ([`parse_level`], [`parse_spec`]) and as the
//! executable [`Parser`], proved to follow it. The evaluator likewise
//! follows [`eval_spec`], a post-order fold: [`Parser::evaluate`] is a
//! tagged match over the node kinds that hands each node to its visit
//! method (binary, grouping, literal, unary), so another consumer of the
//! tree starts from the same four operations.

use vstd::prelude::*;
use crate::errors::{EvalError, SyntaxError, SyntaxErrorKind};
use crate::expr::{expr_model, expr_size, expr_valid, Expr, ExprModel};
use crate::literal::{
    add_spec, cmp_spec, div_spec, eq_lit_spec, lit_valid, mul_spec, neg_spec, not_spec, sub_spec,
    Literal, LiteralModel,
};
use crate::number::number_value;
use crate::scanner::tokens_view;
use crate::token::{Token, TokenModel, TokenType};
use core::cmp::Ordering;

verus! {

/// A failure at a token: its kind and the line it stood on.
pub open spec fn tok_err(kind: SyntaxErrorKind, t: TokenModel) -> SyntaxError {
    SyntaxError { kind, token: Some(t.kind), line: t.line as u32 }
}

/// A failure with no token to blame: the input ended too early, at the
/// line of the last token if there was one.
pub open spec fn end_err(toks: Seq<TokenModel>, kind: SyntaxErrorKind) -> SyntaxError {
    SyntaxError {
        kind,
        token: None,
        line: if toks.len() > 0 {
            toks.last().line as u32
        } else {
            0
        },
    }
}

/// The operator set of each binary precedence level, from factor (0) up to
/// logical-or (5).
pub open spec fn level_op(lv: nat, k: TokenType) -> bool {
    if lv == 5 {
        k == TokenType::Or
    } else if lv == 4 {
        k == TokenType::And
    } else if lv == 3 {
        k == TokenType::EqualEqual || k == TokenType::BangEqual
    } else if lv == 2 {
        k == TokenType::Greater || k == TokenType::GreaterEqual || k == TokenType::Less || k
            == TokenType::LessEqual
    } else if lv == 1 {
        k == TokenType::Plus || k == TokenType::Minus
    } else {
        k == TokenType::Star || k == TokenType::Slash
    }
}

/// One binary precedence level: its operand (the next level down, or a
/// unary below factor), then [`parse_level_rest`] for the operator loop.
/// Every parse function yields the parsed tree and the position after it.
pub open spec fn parse_level(toks: Seq<TokenModel>, i: int, lv: nat) -> Result<
    (ExprModel, int),
    SyntaxError,
>
    decreases toks.len() - i, 2 * lv + 4,
{
    let first = if lv == 0 {
        parse_unary(toks, i)
    } else {
        parse_level(toks, i, (lv - 1) as nat)
    };
    match first {
        Ok((e, j)) => {
            if i <= j <= toks.len() {
                parse_level_rest(toks, j, e, lv)
            } else {
                Err(end_err(toks, SyntaxErrorKind::UnexpectedEnd))
            }
        },
        Err(e) => Err(e),
    }
}

/// The left-associative operator loop of one level: as long as one of the
/// level's operators is at hand, parse the next operand and nest the tree
/// to the left.
pub open spec fn parse_level_rest(
    toks: Seq<TokenModel>,
    i: int,
    left: ExprModel,
    lv: nat,
) -> Result<(ExprModel, int), SyntaxError>
    decreases toks.len() - i, 2 * lv + 3,
{
    if 0 <= i < toks.len() && level_op(lv, toks[i].kind) {
        let next = if lv == 0 {
            parse_unary(toks, i + 1)
        } else {
            parse_level(toks, i + 1, (lv - 1) as nat)
        };
        match next {
            Ok((right, j)) => {
                if i < j <= toks.len() {
                    parse_level_rest(
                        toks,
                        j,
                        ExprModel::Binary {
                            left: Box::new(left),
                            operator: toks[i],
                            right: Box::new(right),
                        },
                        lv,
                    )
                } else {
                    Err(end_err(toks, SyntaxErrorKind::UnexpectedEnd))
                }
            },
            Err(e) => Err(e),
        }
    } else {
        Ok((left, i))
    }
}

/// A prefix `!` or `-` applies to the unary expression after it; anything
/// else is a primary.
pub open spec fn parse_unary(toks: Seq<TokenModel>, i: int) -> Result<
    (ExprModel, int),
    SyntaxError,
>
    decreases toks.len() - i, 3int,
{
    if 0 <= i < toks.len() && (toks[i].kind == TokenType::Bang || toks[i].kind
        == TokenType::Minus) {
        match parse_unary(toks, i + 1) {
            Ok((right, j)) => Ok(
                (ExprModel::Unary { operator: toks[i], right: Box::new(right) }, j),
            ),
            Err(e) => Err(e),
        }
    } else {
        parse_primary(toks, i)
    }
}

/// A primary expression: a number lexeme (by [`number_value`]), a string
/// lexeme, the identifiers `true` and `false`, or a parenthesized
/// expression that must close.
pub open spec fn parse_primary(toks: Seq<TokenModel>, i: int) -> Result<
    (ExprModel, int),
    SyntaxError,
>
    decreases toks.len() - i, 2int,
{
    if !(0 <= i < toks.len()) {
        Err(end_err(toks, SyntaxErrorKind::UnexpectedEnd))
    } else {
        let t = toks[i];
        match t.kind {
            TokenType::Number => match t.lexeme {
                Some(lx) => match number_value(lx) {
                    Some(lm) => Ok((ExprModel::Literal(lm), i + 1)),
                    None => Err(tok_err(SyntaxErrorKind::InvalidNumber, t)),
                },
                None => Err(tok_err(SyntaxErrorKind::InvalidNumber, t)),
            },
            TokenType::String => match t.lexeme {
                Some(lx) => Ok((ExprModel::Literal(LiteralModel::String(lx)), i + 1)),
                None => Err(tok_err(SyntaxErrorKind::UnexpectedToken, t)),
            },
            TokenType::Identifier => match t.lexeme {
                Some(lx) => {
                    if lx == "true"@ {
                        Ok((ExprModel::Literal(LiteralModel::Bool(true)), i + 1))
                    } else if lx == "false"@ {
                        Ok((ExprModel::Literal(LiteralModel::Bool(false)), i + 1))
                    } else {
                        Err(tok_err(SyntaxErrorKind::UnknownIdentifier, t))
                    }
                },
                None => Err(tok_err(SyntaxErrorKind::UnexpectedToken, t)),
            },
            TokenType::LeftParen => match parse_level(toks, i + 1, 5) {
                Ok((inner, j)) => {
                    if 0 <= j < toks.len() && toks[j].kind == TokenType::RightParen {
                        Ok((ExprModel::Grouping { expr: Box::new(inner) }, j + 1))
                    } else if 0 <= j < toks.len() {
                        Err(tok_err(SyntaxErrorKind::MissingClosingParen, toks[j]))
                    } else {
                        Err(end_err(toks, SyntaxErrorKind::MissingClosingParen))
                    }
                },
                Err(e) => Err(e),
            },
            _ => Err(tok_err(SyntaxErrorKind::UnexpectedToken, t)),
        }
    }
}

/// What parsing a token sequence yields: one whole expression, with no
/// token left over.
pub open spec fn parse_spec(toks: Seq<TokenModel>) -> Result<ExprModel, SyntaxError> {
    match parse_level(toks, 0, 5) {
        Ok((e, j)) => {
            if j == toks.len() {
                Ok(e)
            } else if 0 <= j < toks.len() {
                Err(tok_err(SyntaxErrorKind::TrailingTokens, toks[j]))
            } else {
                Err(end_err(toks, SyntaxErrorKind::UnexpectedEnd))
            }
        },
        Err(e) => Err(e),
    }
}

/// What one binary operator does to its two evaluated operands. An
/// operator outside the recognized set (`&&` and `||` among them) is an
/// evaluation failure naming it.
pub open spec fn apply_binary_spec(op: TokenType, l: LiteralModel, r: LiteralModel) -> Result<
    LiteralModel,
    EvalError,
> {
    match op {
        TokenType::Plus => add_spec(l, r),
        TokenType::Minus => sub_spec(l, r),
        TokenType::Star => mul_spec(l, r),
        TokenType::Slash => div_spec(l, r),
        TokenType::BangEqual => Ok(LiteralModel::Bool(!eq_lit_spec(l, r))),
        TokenType::EqualEqual => Ok(LiteralModel::Bool(eq_lit_spec(l, r))),
        TokenType::Greater => Ok(LiteralModel::Bool(cmp_spec(l, r) == Some(Ordering::Greater))),
        TokenType::GreaterEqual => Ok(
            LiteralModel::Bool(
                cmp_spec(l, r) == Some(Ordering::Greater) || cmp_spec(l, r) == Some(
                    Ordering::Equal,
                ),
            ),
        ),
        TokenType::Less => Ok(LiteralModel::Bool(cmp_spec(l, r) == Some(Ordering::Less))),
        TokenType::LessEqual => Ok(
            LiteralModel::Bool(
                cmp_spec(l, r) == Some(Ordering::Less) || cmp_spec(l, r) == Some(Ordering::Equal),
            ),
        ),
        _ => Err(EvalError::EvaluationError(op)),
    }
}

/// What one unary operator does to its evaluated operand.
pub open spec fn apply_unary_spec(op: TokenType, v: LiteralModel) -> Result<
    LiteralModel,
    EvalError,
> {
    match op {
        TokenType::Bang => Ok(not_spec(v)),
        TokenType::Minus => neg_spec(v),
        _ => Err(EvalError::EvaluationError(op)),
    }
}

/// Evaluation: a post-order fold. Operands are evaluated before their
/// operator is examined, the left one first, and the first failure
/// propagates.
pub open spec fn eval_spec(e: ExprModel) -> Result<LiteralModel, EvalError>
    decreases e,
{
    match e {
        ExprModel::Literal(l) => Ok(l),
        ExprModel::Grouping { expr } => eval_spec(*expr),
        ExprModel::Unary { operator, right } => match eval_spec(*right) {
            Ok(v) => apply_unary_spec(operator.kind, v),
            Err(er) => Err(er),
        },
        ExprModel::Binary { left, operator, right } => match eval_spec(*left) {
            Ok(lv) => match eval_spec(*right) {
                Ok(rv) => apply_binary_spec(operator.kind, lv, rv),
                Err(er) => Err(er),
            },
            Err(er) => Err(er),
        },
    }
}

/// Two operators of the term level chain to the left: three numbers joined
/// by `+` or `-` parse as `(a o1 b) o2 c`, never as `a o1 (b o2 c)`,
/// whatever the numbers and the line positions.
pub proof fn lemma_term_level_left_associative(
    a: TokenModel,
    o1: TokenModel,
    b: TokenModel,
    o2: TokenModel,
    c: TokenModel,
    la: Seq<char>,
    lb: Seq<char>,
    lc: Seq<char>,
    va: LiteralModel,
    vb: LiteralModel,
    vc: LiteralModel,
)
    requires
        a.kind == TokenType::Number,
        b.kind == TokenType::Number,
        c.kind == TokenType::Number,
        a.lexeme == Some(la),
        b.lexeme == Some(lb),
        c.lexeme == Some(lc),
        number_value(la) == Some(va),
        number_value(lb) == Some(vb),
        number_value(lc) == Some(vc),
        o1.kind == TokenType::Plus || o1.kind == TokenType::Minus,
        o2.kind == TokenType::Plus || o2.kind == TokenType::Minus,
    ensures
        parse_spec(seq![a, o1, b, o2, c]) == Ok::<_, SyntaxError>(
            ExprModel::Binary {
                left: Box::new(
                    ExprModel::Binary {
                        left: Box::new(ExprModel::Literal(va)),
                        operator: o1,
                        right: Box::new(ExprModel::Literal(vb)),
                    },
                ),
                operator: o2,
                right: Box::new(ExprModel::Literal(vc)),
            },
        ),
{
    let toks = seq![a, o1, b, o2, c];
    let ea = ExprModel::Literal(va);
    let eb = ExprModel::Literal(vb);
    let ec = ExprModel::Literal(vc);
    let e1 = ExprModel::Binary { left: Box::new(ea), operator: o1, right: Box::new(eb) };
    let e2 = ExprModel::Binary { left: Box::new(e1), operator: o2, right: Box::new(ec) };
    // Each number parses as one primary.
    assert(parse_primary(toks, 0) == Ok::<_, SyntaxError>((ea, 1int)));
    assert(parse_unary(toks, 0) == Ok::<_, SyntaxError>((ea, 1int)));
    assert(parse_primary(toks, 2) == Ok::<_, SyntaxError>((eb, 3int)));
    assert(parse_unary(toks, 2) == Ok::<_, SyntaxError>((eb, 3int)));
    assert(parse_primary(toks, 4) == Ok::<_, SyntaxError>((ec, 5int)));
    assert(parse_unary(toks, 4) == Ok::<_, SyntaxError>((ec, 5int)));
    // The factor level takes each number alone: neither `+` nor `-` is one
    // of its operators, and nothing follows the last number.
    assert(parse_level_rest(toks, 1, ea, 0) == Ok::<_, SyntaxError>((ea, 1int)));
    assert(parse_level(toks, 0, 0) == Ok::<_, SyntaxError>((ea, 1int)));
    assert(parse_level_rest(toks, 3, eb, 0) == Ok::<_, SyntaxError>((eb, 3int)));
    assert(parse_level(toks, 2, 0) == Ok::<_, SyntaxError>((eb, 3int)));
    assert(parse_level_rest(toks, 5, ec, 0) == Ok::<_, SyntaxError>((ec, 5int)));
    assert(parse_level(toks, 4, 0) == Ok::<_, SyntaxError>((ec, 5int)));
    // The term level folds the chain leftward.
    assert(parse_level_rest(toks, 5, e2, 1) == Ok::<_, SyntaxError>((e2, 5int)));
    assert(parse_level_rest(toks, 3, e1, 1) == Ok::<_, SyntaxError>((e2, 5int)));
    assert(parse_level_rest(toks, 1, ea, 1) == Ok::<_, SyntaxError>((e2, 5int)));
    assert(parse_level(toks, 0, 1) == Ok::<_, SyntaxError>((e2, 5int)));
    // The levels above the term level see none of their operators and pass
    // the tree through.
    assert(parse_level_rest(toks, 5, e2, 2) == Ok::<_, SyntaxError>((e2, 5int)));
    assert(parse_level(toks, 0, 2) == Ok::<_, SyntaxError>((e2, 5int)));
    assert(parse_level_rest(toks, 5, e2, 3) == Ok::<_, SyntaxError>((e2, 5int)));
    assert(parse_level(toks, 0, 3) == Ok::<_, SyntaxError>((e2, 5int)));
    assert(parse_level_rest(toks, 5, e2, 4) == Ok::<_, SyntaxError>((e2, 5int)));
    assert(parse_level(toks, 0, 4) == Ok::<_, SyntaxError>((e2, 5int)));
    assert(parse_level_rest(toks, 5, e2, 5) == Ok::<_, SyntaxError>((e2, 5int)));
    assert(parse_level(toks, 0, 5) == Ok::<_, SyntaxError>((e2, 5int)));
}

/// A tree built from literal and grouping nodes alone: no operators.
pub open spec fn literal_grouping_only(e: ExprModel) -> bool
    decreases e,
{
    match e {
        ExprModel::Literal(_) => true,
        ExprModel::Grouping { expr } => literal_grouping_only(*expr),
        _ => false,
    }
}

/// The one literal at the bottom of such a tree.
pub open spec fn inner_literal(e: ExprModel) -> LiteralModel
    decreases e,
{
    match e {
        ExprModel::Literal(l) => l,
        ExprModel::Grouping { expr } => inner_literal(*expr),
        _ => LiteralModel::Nil,
    }
}

/// Evaluating a tree of literal and grouping nodes alone returns the
/// original literal unchanged.
pub proof fn lemma_eval_literal_grouping(e: ExprModel)
    requires
        literal_grouping_only(e),
    ensures
        eval_spec(e) == Ok::<_, EvalError>(inner_literal(e)),
    decreases e,
{
    match e {
        ExprModel::Grouping { expr } => {
            lemma_eval_literal_grouping(*expr);
        },
        _ => {},
    }
}

/// The recursive-descent parser: a token sequence read once, left to
/// right, through an owned cursor, and the evaluator over the trees it
/// builds.
#[derive(Debug)]
pub struct Parser {
    tokens: Vec<Token>,
    current: usize,
}

impl Parser {
    /// The models of the tokens this parser reads.
    pub closed spec fn toks(&self) -> Seq<TokenModel> {
        tokens_view(self.tokens@)
    }

    /// The cursor: the position of the next unread token.
    pub closed spec fn cur(&self) -> int {
        self.current as int
    }

    /// The cursor never runs past the end of the sequence.
    pub closed spec fn wf(&self) -> bool {
        self.current <= self.tokens.len()
    }

    pub fn new(tokens: Vec<Token>) -> (p: Self)
        ensures
            p.toks() == tokens_view(tokens@),
            p.cur() == 0,
            p.wf(),
    {
        Parser { tokens, current: 0 }
    }

    /// Parses the whole sequence into one expression, by [`parse_spec`]:
    /// tokens left over after a complete expression are a failure.
    pub fn parse(&mut self) -> (res: Result<Expr, SyntaxError>)
        requires
            old(self).wf(),
            old(self).cur() == 0,
        ensures
            final(self).toks() == old(self).toks(),
            match parse_spec(old(self).toks()) {
                Ok(em) => (res matches Ok(e) && expr_model(e) == em && expr_valid(em)),
                Err(er) => res == Err::<Expr, SyntaxError>(er),
            },
    {
        let e = match self.expression() {
            Ok(e) => e,
            Err(er) => {
                return Err(er);
            },
        };
        if self.is_at_end() {
            Ok(e)
        } else {
            let t = &self.tokens[self.current];
            Err(
                SyntaxError {
                    kind: SyntaxErrorKind::TrailingTokens,
                    token: Some(t.token_type),
                    line: t.position.line,
                },
            )
        }
    }

    /// One whole expression: the lowest-precedence level.
    pub fn expression(&mut self) -> (res: Result<Expr, SyntaxError>)
        requires
            old(self).wf(),
        ensures
            final(self).toks() == old(self).toks(),
            final(self).wf(),
            old(self).cur() <= final(self).cur(),
            res is Ok ==> old(self).cur() < final(self).cur(),
            match parse_level(old(self).toks(), old(self).cur(), 5) {
                Ok((em, j)) => (res matches Ok(e) && expr_model(e) == em && expr_valid(em)
                    && final(self).cur() == j),
                Err(er) => res == Err::<Expr, SyntaxError>(er),
            },
        decreases old(self).toks().len() - old(self).cur(), 16int,
    {
        self.binary_level(5)
    }

    /// One binary precedence level, by [`parse_level`]: the operand below
    /// it, then the left-associative operator loop.
    fn binary_level(&mut self, lv: usize) -> (res: Result<Expr, SyntaxError>)
        requires
            old(self).wf(),
            lv <= 5,
        ensures
            final(self).toks() == old(self).toks(),
            final(self).wf(),
            old(self).cur() <= final(self).cur(),
            res is Ok ==> old(self).cur() < final(self).cur(),
            match parse_level(old(self).toks(), old(self).cur(), lv as nat) {
                Ok((em, j)) => (res matches Ok(e) && expr_model(e) == em && expr_valid(em)
                    && final(self).cur() == j),
                Err(er) => res == Err::<Expr, SyntaxError>(er),
            },
        decreases old(self).toks().len() - old(self).cur(), 2 * lv + 4,
    {
        let ghost toks = self.toks();
        let ghost i0 = self.cur();
        let first = if lv == 0 {
            self.unary()
        } else {
            self.binary_level(lv - 1)
        };
        let mut left = match first {
            Ok(e) => e,
            Err(er) => {
                return Err(er);
            },
        };
        while self.level_op_at_hand(lv)
            invariant
                self.wf(),
                lv <= 5,
                self.toks() == toks,
                toks == old(self).toks(),
                i0 == old(self).cur(),
                i0 < self.cur(),
                expr_valid(expr_model(left)),
                parse_level(toks, i0, lv as nat) == parse_level_rest(
                    toks,
                    self.cur(),
                    expr_model(left),
                    lv as nat,
                ),
            decreases self.toks().len() - self.cur(),
        {
            let ghost itop = self.cur();
            let op = match self.advance() {
                Some(t) => t,
                None => {
                    return Err(
                        SyntaxError {
                            kind: SyntaxErrorKind::UnexpectedEnd,
                            token: None,
                            line: 0,
                        },
                    );
                },
            };
            let next = if lv == 0 {
                self.unary()
            } else {
                self.binary_level(lv - 1)
            };
            let right = match next {
                Ok(e) => e,
                Err(er) => {
                    return Err(er);
                },
            };
            left = Expr::Binary { left: Box::new(left), operator: op, right: Box::new(right) };
        }
        Ok(left)
    }

    /// Whether one of the level's operators is at hand.
    fn level_op_at_hand(&self, lv: usize) -> (b: bool)
        requires
            self.wf(),
        ensures
            b == (self.cur() < self.toks().len() && level_op(lv as nat, self.toks()[self.cur()].kind)),
    {
        match self.peek() {
            Some(t) => {
                let k = t.token_type;
                if lv == 5 {
                    k == TokenType::Or
                } else if lv == 4 {
                    k == TokenType::And
                } else if lv == 3 {
                    k == TokenType::EqualEqual || k == TokenType::BangEqual
                } else if lv == 2 {
                    k == TokenType::Greater || k == TokenType::GreaterEqual || k == TokenType::Less
                        || k == TokenType::LessEqual
                } else if lv == 1 {
                    k == TokenType::Plus || k == TokenType::Minus
                } else {
                    k == TokenType::Star || k == TokenType::Slash
                }
            },
            None => false,
        }
    }

    /// A prefix `!` or `-`, or a primary, by [`parse_unary`].
    fn unary(&mut self) -> (res: Result<Expr, SyntaxError>)
        requires
            old(self).wf(),
        ensures
            final(self).toks() == old(self).toks(),
            final(self).wf(),
            old(self).cur() <= final(self).cur(),
            res is Ok ==> old(self).cur() < final(self).cur(),
            match parse_unary(old(self).toks(), old(self).cur()) {
                Ok((em, j)) => (res matches Ok(e) && expr_model(e) == em && expr_valid(em)
                    && final(self).cur() == j),
                Err(er) => res == Err::<Expr, SyntaxError>(er),
            },
        decreases old(self).toks().len() - old(self).cur(), 3int,
    {
        let is_unary_op = match self.peek() {
            Some(t) => t.token_type == TokenType::Bang || t.token_type == TokenType::Minus,
            None => false,
        };
        if is_unary_op {
            let op = match self.advance() {
                Some(t) => t,
                None => {
                    return Err(
                        SyntaxError {
                            kind: SyntaxErrorKind::UnexpectedEnd,
                            token: None,
                            line: 0,
                        },
                    );
                },
            };
            match self.unary() {
                Ok(right) => Ok(Expr::Unary { operator: op, right: Box::new(right) }),
                Err(er) => Err(er),
            }
        } else {
            self.primary()
        }
    }

    /// A primary expression, by [`parse_primary`].
    fn primary(&mut self) -> (res: Result<Expr, SyntaxError>)
        requires
            old(self).wf(),
        ensures
            final(self).toks() == old(self).toks(),
            final(self).wf(),
            old(self).cur() <= final(self).cur(),
            res is Ok ==> old(self).cur() < final(self).cur(),
            match parse_primary(old(self).toks(), old(self).cur()) {
                Ok((em, j)) => (res matches Ok(e) && expr_model(e) == em && expr_valid(em)
                    && final(self).cur() == j),
                Err(er) => res == Err::<Expr, SyntaxError>(er),
            },
        decreases old(self).toks().len() - old(self).cur(), 2int,
    {
        let t = match self.advance() {
            Some(t) => t,
            None => {
                return Err(self.end_error(SyntaxErrorKind::UnexpectedEnd));
            },
        };
        match t.token_type {
            TokenType::Number => match &t.lexeme {
                Some(s) => match Literal::number_literal(s.as_str()) {
                    Some(l) => Ok(Expr::Literal(l)),
                    None => Err(Self::token_error(SyntaxErrorKind::InvalidNumber, &t)),
                },
                None => Err(Self::token_error(SyntaxErrorKind::InvalidNumber, &t)),
            },
            TokenType::String => match t.lexeme {
                Some(s) => Ok(Expr::Literal(Literal::String(s))),
                None => Err(Self::token_error(SyntaxErrorKind::UnexpectedToken, &t)),
            },
            TokenType::Identifier => match &t.lexeme {
                Some(s) => {
                    if *s == String::from_str("true") {
                        Ok(Expr::Literal(Literal::Bool(true)))
                    } else if *s == String::from_str("false") {
                        Ok(Expr::Literal(Literal::Bool(false)))
                    } else {
                        Err(Self::token_error(SyntaxErrorKind::UnknownIdentifier, &t))
                    }
                },
                None => Err(Self::token_error(SyntaxErrorKind::UnexpectedToken, &t)),
            },
            TokenType::LeftParen => {
                let inner = match self.expression() {
                    Ok(e) => e,
                    Err(er) => {
                        return Err(er);
                    },
                };
                match self.peek() {
                    Some(close) => {
                        if close.token_type == TokenType::RightParen {
                            let closing = self.advance();
                            Ok(Expr::Grouping { expr: Box::new(inner) })
                        } else {
                            Err(Self::token_error(SyntaxErrorKind::MissingClosingParen, close))
                        }
                    },
                    None => Err(self.end_error(SyntaxErrorKind::MissingClosingParen)),
                }
            },
            _ => Err(Self::token_error(SyntaxErrorKind::UnexpectedToken, &t)),
        }
    }

    /// The failure blamed on a token.
    fn token_error(kind: SyntaxErrorKind, t: &Token) -> (e: SyntaxError)
        ensures
            e == tok_err(kind, t@),
    {
        SyntaxError { kind, token: Some(t.token_type), line: t.position.line }
    }

    /// The failure of an input that ended too early.
    fn end_error(&self, kind: SyntaxErrorKind) -> (e: SyntaxError)
        ensures
            e == end_err(self.toks(), kind),
    {
        let line = if self.tokens.len() > 0 {
            self.tokens[self.tokens.len() - 1].position.line
        } else {
            0
        };
        SyntaxError { kind, token: None, line }
    }

    /// Takes the token at the cursor, moving the cursor past it; `None` at
    /// the end of the sequence. The cursor never moves backward.
    fn advance(&mut self) -> (r: Option<Token>)
        requires
            old(self).wf(),
        ensures
            final(self).toks() == old(self).toks(),
            final(self).wf(),
            old(self).cur() < old(self).toks().len() ==> (r matches Some(t) && t@ == old(
                self,
            ).toks()[old(self).cur()] && final(self).cur() == old(self).cur() + 1),
            old(self).cur() >= old(self).toks().len() ==> r is None && final(self).cur() == old(
                self,
            ).cur(),
    {
        if self.current < self.tokens.len() {
            let t = self.tokens[self.current].clone();
            self.current = self.current + 1;
            Some(t)
        } else {
            None
        }
    }

    /// The token at the cursor, without moving it.
    fn peek(&self) -> (r: Option<&Token>)
        requires
            self.wf(),
        ensures
            self.cur() < self.toks().len() ==> (r matches Some(t) && t@ == self.toks()[self.cur()]),
            self.cur() >= self.toks().len() ==> r is None,
    {
        if self.current < self.tokens.len() {
            Some(&self.tokens[self.current])
        } else {
            None
        }
    }

    /// Whether the cursor has passed the last token.
    fn is_at_end(&self) -> (b: bool)
        requires
            self.wf(),
        ensures
            b == (self.cur() >= self.toks().len()),
    {
        self.current >= self.tokens.len()
    }

    /// Folds an expression tree into one literal value, by [`eval_spec`].
    pub fn evaluate(&self, expr: &Expr) -> (res: Result<Literal, EvalError>)
        requires
            expr_valid(expr_model(*expr)),
        ensures
            match eval_spec(expr_model(*expr)) {
                Ok(lm) => (res matches Ok(l) && l@ == lm && lit_valid(lm)),
                Err(er) => res == Err::<Literal, EvalError>(er),
            },
        decreases expr_size(*expr), 1int,
    {
        match expr {
            Expr::Binary { left, operator, right } => self.visit_binary(left, operator, right),
            Expr::Grouping { expr: inner } => self.visit_grouping(inner),
            Expr::Unary { operator, right } => self.visit_unary(operator, right),
            Expr::Literal(l) => self.visit_literal(l),
        }
    }

    /// A binary node: both operands evaluated (left first), then the
    /// operator applied by [`apply_binary_spec`].
    pub fn visit_binary(&self, left: &Expr, operator: &Token, right: &Expr) -> (res: Result<
        Literal,
        EvalError,
    >)
        requires
            expr_valid(expr_model(*left)),
            expr_valid(expr_model(*right)),
        ensures
            ({
                let out = match eval_spec(expr_model(*left)) {
                    Ok(lv) => match eval_spec(expr_model(*right)) {
                        Ok(rv) => apply_binary_spec(operator@.kind, lv, rv),
                        Err(er) => Err(er),
                    },
                    Err(er) => Err(er),
                };
                match out {
                    Ok(lm) => (res matches Ok(l) && l@ == lm && lit_valid(lm)),
                    Err(er) => res == Err::<Literal, EvalError>(er),
                }
            }),
        decreases expr_size(*left) + expr_size(*right), 2int,
    {
        let token_type = operator.token_type;
        let lv = match self.evaluate(left) {
            Ok(v) => v,
            Err(er) => {
                return Err(er);
            },
        };
        let rv = match self.evaluate(right) {
            Ok(v) => v,
            Err(er) => {
                return Err(er);
            },
        };
        match token_type {
            TokenType::Plus => lv.add(&rv),
            TokenType::Minus => lv.sub(&rv),
            TokenType::Star => lv.mul(&rv),
            TokenType::Slash => lv.div(&rv),
            TokenType::BangEqual => Ok(Literal::Bool(lv != rv)),
            TokenType::EqualEqual => Ok(Literal::Bool(lv == rv)),
            TokenType::Greater => Ok(
                Literal::Bool(matches!(lv.partial_cmp(&rv), Some(Ordering::Greater))),
            ),
            TokenType::GreaterEqual => Ok(
                Literal::Bool(
                    matches!(lv.partial_cmp(&rv), Some(Ordering::Greater) | Some(Ordering::Equal)),
                ),
            ),
            TokenType::Less => Ok(
                Literal::Bool(matches!(lv.partial_cmp(&rv), Some(Ordering::Less))),
            ),
            TokenType::LessEqual => Ok(
                Literal::Bool(
                    matches!(lv.partial_cmp(&rv), Some(Ordering::Less) | Some(Ordering::Equal)),
                ),
            ),
            _ => Err(EvalError::EvaluationError(token_type)),
        }
    }

    /// A grouping node: its inner expression, unchanged.
    pub fn visit_grouping(&self, expr: &Expr) -> (res: Result<Literal, EvalError>)
        requires
            expr_valid(expr_model(*expr)),
        ensures
            match eval_spec(expr_model(*expr)) {
                Ok(lm) => (res matches Ok(l) && l@ == lm && lit_valid(lm)),
                Err(er) => res == Err::<Literal, EvalError>(er),
            },
        decreases expr_size(*expr), 2int,
    {
        self.evaluate(expr)
    }

    /// A literal node: its held value.
    pub fn visit_literal(&self, literal: &Literal) -> (res: Result<Literal, EvalError>)
        requires
            lit_valid(literal@),
        ensures
            res matches Ok(l) && l@ == literal@,
    {
        Ok(literal.clone())
    }

    /// A unary node: the operand evaluated, then the operator applied by
    /// [`apply_unary_spec`].
    pub fn visit_unary(&self, operator: &Token, right: &Expr) -> (res: Result<Literal, EvalError>)
        requires
            expr_valid(expr_model(*right)),
        ensures
            ({
                let out = match eval_spec(expr_model(*right)) {
                    Ok(v) => apply_unary_spec(operator@.kind, v),
                    Err(er) => Err(er),
                };
                match out {
                    Ok(lm) => (res matches Ok(l) && l@ == lm && lit_valid(lm)),
                    Err(er) => res == Err::<Literal, EvalError>(er),
                }
            }),
        decreases expr_size(*right), 2int,
    {
        let token_type = operator.token_type;
        let v = match self.evaluate(right) {
            Ok(v) => v,
            Err(er) => {
                return Err(er);
            },
        };
        match token_type {
            TokenType::Bang => Ok(v.not()),
            TokenType::Minus => v.neg(),
            _ => Err(EvalError::EvaluationError(token_type)),
        }
    }
}

} // verus!
