//! A small expression-language front end: a character-level lexical scanner
//! built as an explicit finite-state machine, a token model, an abstract
//! syntax tree for expressions, a recursive-descent parser, and an evaluator
//! that folds an expression tree into a dynamically typed literal value.
//! Beside it stand a few self-contained data-structure exercises: a singly
//! linked list with the usual drills (reversal, deletion, nth-from-end,
//! merge) and a digit-string-to-integer converter.

pub mod atoi;
pub mod common;
pub mod errors;
pub mod expr;
pub mod lexer_scanner;
pub mod linklist;
pub mod list_node;
pub mod literal;
pub mod number;
pub mod opt;
pub mod parser;
pub mod scanner;
pub mod strutil;
pub mod token;

use vstd::prelude::*;
use crate::errors::{InterpretError, ScanError};
use crate::literal::{Literal, LiteralModel};
use crate::parser::{eval_spec, parse_spec, Parser};
use crate::scanner::{scan_spec, tokens_view, LexerScanner};
use crate::token::Token;

verus! {

/// Scans a source text into its token sequence: exactly what a full run of
/// the scanning machine yields on the text followed by the end-of-input
/// sentinel.
pub fn scan(source: String) -> (res: Result<Vec<Token>, ScanError>)
    ensures
        match scan_spec(source@) {
            Ok(ts) => res matches Ok(v) && tokens_view(v@) == ts,
            Err(e) => res == Err::<Vec<Token>, ScanError>(e),
        },
{
    let mut sc = LexerScanner::new(source);
    sc.scan()
}

/// What interpreting a source text yields: its tokens scanned, parsed into
/// one expression, and folded into one literal value, with the first
/// failure of any stage propagated.
pub open spec fn evaluate_spec(s: Seq<char>) -> Result<LiteralModel, InterpretError> {
    match scan_spec(s) {
        Err(e) => Err(InterpretError::Scan(e)),
        Ok(toks) => match parse_spec(toks) {
            Err(e) => Err(InterpretError::Syntax(e)),
            Ok(em) => match eval_spec(em) {
                Ok(lm) => Ok(lm),
                Err(e) => Err(InterpretError::Eval(e)),
            },
        },
    }
}

/// Scans, parses and evaluates a source text, by [`evaluate_spec`].
pub fn evaluate(source: String) -> (res: Result<Literal, InterpretError>)
    ensures
        match evaluate_spec(source@) {
            Ok(lm) => res matches Ok(l) && l@ == lm,
            Err(e) => res == Err::<Literal, InterpretError>(e),
        },
{
    let tokens = match scan(source) {
        Ok(t) => t,
        Err(e) => {
            return Err(InterpretError::Scan(e));
        },
    };
    let mut parser = Parser::new(tokens);
    let expr = match parser.parse() {
        Ok(e) => e,
        Err(e) => {
            return Err(InterpretError::Syntax(e));
        },
    };
    match parser.evaluate(&expr) {
        Ok(l) => Ok(l),
        Err(e) => Err(InterpretError::Eval(e)),
    }
}

} // verus!
