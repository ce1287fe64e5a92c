use arithmetics::atoi::Atoi;
use arithmetics::errors::{EvalError, InterpretError, ScanError, SyntaxError, SyntaxErrorKind};
use arithmetics::evaluate;
use arithmetics::expr::Expr;
use arithmetics::literal::{Fraction, Literal};
use arithmetics::parser::Parser;
use arithmetics::token::TokenType;

#[test]
fn evaluate_grouped_arithmetic() {
    assert_eq!(evaluate("(1 + 1) * 3".to_string()), Ok(Literal::Integer(6)));
}

#[test]
fn evaluate_mixed_addition_widens() {
    assert_eq!(
        evaluate("1 + 1.5".to_string()),
        Ok(Literal::Float(Fraction::new(5, 2)))
    );
}

#[test]
fn evaluate_not_false() {
    assert_eq!(evaluate("!false".to_string()), Ok(Literal::Bool(true)));
}

#[test]
fn evaluate_negated_number() {
    assert_eq!(evaluate("-5".to_string()), Ok(Literal::Integer(-5)));
}

#[test]
fn evaluate_string_concatenation() {
    assert_eq!(
        evaluate("\"a\" + \"b\"".to_string()),
        Ok(Literal::String("ab".to_string()))
    );
}

#[test]
fn evaluate_bool_plus_number_is_type_error() {
    assert_eq!(
        evaluate("true + 1".to_string()),
        Err(InterpretError::Eval(EvalError::TypeError))
    );
}

#[test]
fn evaluate_literal_through_groupings() {
    let expr = Expr::Grouping {
        expr: Box::new(Expr::Grouping {
            expr: Box::new(Expr::Literal(Literal::Integer(42))),
        }),
    };
    let parser = Parser::new(vec![]);
    assert_eq!(parser.evaluate(&expr), Ok(Literal::Integer(42)));

    let expr = Expr::Grouping {
        expr: Box::new(Expr::Literal(Literal::String("keep".to_string()))),
    };
    assert_eq!(parser.evaluate(&expr), Ok(Literal::String("keep".to_string())));
}

#[test]
fn evaluate_subtraction_is_left_associative() {
    assert_eq!(evaluate("8 - 3 - 2".to_string()), Ok(Literal::Integer(3)));
}

#[test]
fn evaluate_division() {
    assert_eq!(evaluate("7 / 2".to_string()), Ok(Literal::Integer(3)));
    assert_eq!(evaluate("-7 / 2".to_string()), Ok(Literal::Integer(-3)));
    assert_eq!(
        evaluate("1.0 / 4".to_string()),
        Ok(Literal::Float(Fraction::new(1, 4)))
    );
    assert_eq!(
        evaluate("1 / 0".to_string()),
        Err(InterpretError::Eval(EvalError::DivisionByZero))
    );
    assert_eq!(
        evaluate("1 / 0.0".to_string()),
        Err(InterpretError::Eval(EvalError::DivisionByZero))
    );
}

#[test]
fn evaluate_comparisons() {
    assert_eq!(evaluate("1 < 1.5".to_string()), Ok(Literal::Bool(true)));
    assert_eq!(evaluate("2 <= 2.0".to_string()), Ok(Literal::Bool(true)));
    assert_eq!(evaluate("\"a\" < \"b\"".to_string()), Ok(Literal::Bool(true)));
    assert_eq!(evaluate("1 == 1.0".to_string()), Ok(Literal::Bool(true)));
    assert_eq!(evaluate("1 != 2".to_string()), Ok(Literal::Bool(true)));
    assert_eq!(evaluate("3 > 4".to_string()), Ok(Literal::Bool(false)));
    assert_eq!(evaluate("3 >= 3".to_string()), Ok(Literal::Bool(true)));
    // Tags the value model does not relate compare as neither equal nor
    // ordered.
    assert_eq!(evaluate("1 == \"a\"".to_string()), Ok(Literal::Bool(false)));
    assert_eq!(evaluate("1 < \"a\"".to_string()), Ok(Literal::Bool(false)));
    assert_eq!(evaluate("1 >= \"a\"".to_string()), Ok(Literal::Bool(false)));
}

#[test]
fn evaluate_logical_not_coercions() {
    assert_eq!(evaluate("!0".to_string()), Ok(Literal::Bool(true)));
    assert_eq!(evaluate("!3".to_string()), Ok(Literal::Bool(false)));
    assert_eq!(evaluate("!1.5".to_string()), Ok(Literal::Bool(false)));
    assert_eq!(evaluate("!\"\"".to_string()), Ok(Literal::Bool(true)));
    assert_eq!(evaluate("!\"x\"".to_string()), Ok(Literal::Bool(false)));
    assert_eq!(evaluate("!true".to_string()), Ok(Literal::Bool(false)));
}

#[test]
fn evaluate_unary_minus_type_error() {
    assert_eq!(
        evaluate("-true".to_string()),
        Err(InterpretError::Eval(EvalError::TypeError))
    );
}

#[test]
fn evaluate_logical_operators_are_not_evaluable() {
    // `&&` and `||` parse at their precedence levels but are outside the
    // recognized binary operator set; evaluation names the offender.
    assert_eq!(
        evaluate("true && false".to_string()),
        Err(InterpretError::Eval(EvalError::EvaluationError(TokenType::And)))
    );
    assert_eq!(
        evaluate("true || false".to_string()),
        Err(InterpretError::Eval(EvalError::EvaluationError(TokenType::Or)))
    );
}

#[test]
fn evaluate_integer_overflow() {
    assert_eq!(
        evaluate("9223372036854775807 + 1".to_string()),
        Err(InterpretError::Eval(EvalError::Overflow))
    );
}

#[test]
fn evaluate_syntax_errors() {
    assert!(matches!(
        evaluate("+".to_string()),
        Err(InterpretError::Syntax(SyntaxError { kind: SyntaxErrorKind::UnexpectedToken, .. }))
    ));
    assert!(matches!(
        evaluate("(1 + 2".to_string()),
        Err(InterpretError::Syntax(SyntaxError {
            kind: SyntaxErrorKind::MissingClosingParen,
            ..
        }))
    ));
    assert!(matches!(
        evaluate("1 2".to_string()),
        Err(InterpretError::Syntax(SyntaxError { kind: SyntaxErrorKind::TrailingTokens, .. }))
    ));
    assert!(matches!(
        evaluate("1 +".to_string()),
        Err(InterpretError::Syntax(SyntaxError { kind: SyntaxErrorKind::UnexpectedEnd, .. }))
    ));
    assert!(matches!(
        evaluate("".to_string()),
        Err(InterpretError::Syntax(SyntaxError { kind: SyntaxErrorKind::UnexpectedEnd, .. }))
    ));
    assert!(matches!(
        evaluate("99999999999999999999".to_string()),
        Err(InterpretError::Syntax(SyntaxError { kind: SyntaxErrorKind::InvalidNumber, .. }))
    ));
    assert!(matches!(
        evaluate("foo".to_string()),
        Err(InterpretError::Syntax(SyntaxError {
            kind: SyntaxErrorKind::UnknownIdentifier,
            ..
        }))
    ));
}

#[test]
fn evaluate_scan_errors_propagate() {
    assert_eq!(
        evaluate("2. + 3".to_string()),
        Err(InterpretError::Scan(ScanError::InvalidFloat))
    );
    assert_eq!(
        evaluate("1 # 2".to_string()),
        Err(InterpretError::Scan(ScanError::InvalidCharacter))
    );
}

#[test]
fn evaluate_fractional_value_equality() {
    // The exact fraction 25/10 is the value 5/2.
    assert_eq!(
        evaluate("1 + 1.5".to_string()),
        Ok(Literal::Float(Fraction::new(25, 10)))
    );
    assert_eq!(
        evaluate("0.1 + 0.2".to_string()),
        Ok(Literal::Float(Fraction::new(3, 10)))
    );
}

#[test]
fn atoi_with_whitespace_and_dot() {
    let atoi = Atoi::new(" -22 abc".to_string());
    assert_eq!(-22, atoi.parse());

    let atoi = Atoi::new("-22.3333abc".to_string());
    assert_eq!(-22, atoi.parse());
}

#[test]
fn atoi_with_overflow() {
    let atoi = Atoi::new("2000000000000000000000".to_string());
    assert_eq!(i32::MAX, atoi.parse());

    let atoi = Atoi::new("-2000000000000000000000".to_string());
    assert_eq!(i32::MIN, atoi.parse());
}

#[test]
fn atoi_with_invalid() {
    let atoi = Atoi::new("abc".to_string());
    assert_eq!(0, atoi.parse());
}

#[test]
fn atoi_edge_cases() {
    assert_eq!(0, Atoi::new(String::new()).parse());
    assert_eq!(0, Atoi::new("--2".to_string()).parse());
    assert_eq!(0, Atoi::new("-".to_string()).parse());
    assert_eq!(42, Atoi::new("+42".to_string()).parse());
    assert_eq!(2, Atoi::new("2-2".to_string()).parse());
    assert_eq!(i32::MIN, Atoi::new("-2147483648".to_string()).parse());
    assert_eq!(i32::MAX, Atoi::new("2147483647".to_string()).parse());
    assert_eq!(i32::MAX, Atoi::new("2147483648".to_string()).parse());
}
