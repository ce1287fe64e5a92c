//! The token model: a tagged token kind, an optional lexeme (the source
//! substring a token was built from), and the source position (line counter)
//! stamped on the token when the scanner emits it.

use vstd::prelude::*;

verus! {

/// The kind of a token produced by the scanner.
#[derive(Debug, Clone, Copy, PartialEq, Eq, Structural)]
pub enum TokenType {
    /// A run of decimal digits, possibly with an embedded decimal point.
    Number,
    /// `(`
    LeftParen,
    /// `)`
    RightParen,
    /// `-`
    Minus,
    /// `+`
    Plus,
    /// `*`
    Star,
    /// `/`
    Slash,
    /// `!`
    Bang,
    /// `=`
    Equal,
    /// `==`
    EqualEqual,
    /// `!=`
    BangEqual,
    /// `>`
    Greater,
    /// `>=`
    GreaterEqual,
    /// `<`
    Less,
    /// `<=`
    LessEqual,
    /// A run of letters.
    Identifier,
    /// A quoted string.
    String,
    /// `;`
    Semicolon,
    /// `&&`
    And,
    /// `||`
    Or,
}

/// A source position: the scanner's line counter, incremented on each
/// newline it consumes.
#[derive(Debug, Clone, Copy, PartialEq, Eq, Structural)]
pub struct Position {
    pub line: u32,
}

impl Position {
    pub fn new(line: u32) -> (p: Self)
        ensures
            p.line == line,
    {
        Position { line }
    }
}

/// The mathematical model of a token: its kind, the character sequence of
/// its lexeme if it carries one, and the line it was emitted on.
pub ghost struct TokenModel {
    pub kind: TokenType,
    pub lexeme: Option<Seq<char>>,
    pub line: nat,
}

/// A token produced by the scanner. Immutable once produced; equality
/// compares kind, lexeme and position.
#[derive(Debug)]
pub struct Token {
    pub token_type: TokenType,
    pub lexeme: Option<String>,
    pub position: Position,
}

impl View for Token {
    type V = TokenModel;

    open spec fn view(&self) -> TokenModel {
        TokenModel {
            kind: self.token_type,
            lexeme: match self.lexeme {
                Some(s) => Some(s@),
                None => None,
            },
            line: self.position.line as nat,
        }
    }
}

impl Token {
    pub fn new(token_type: TokenType, value: Option<String>, position: Position) -> (t: Token)
        ensures
            t.token_type == token_type,
            t.position == position,
            t@.kind == token_type,
            t@.line == position.line as nat,
            (t@.lexeme matches Some(l) <==> value is Some),
            value matches Some(s) ==> t@.lexeme == Some(s@),
    {
        Token { token_type, lexeme: value, position }
    }
}

impl Clone for Token {
    fn clone(&self) -> (res: Self)
        ensures
            res@ == self@,
    {
        Token {
            token_type: self.token_type,
            lexeme: match &self.lexeme {
                Some(s) => Some(s.clone()),
                None => None,
            },
            position: self.position,
        }
    }
}

impl PartialEq for Token {
    fn eq(&self, other: &Self) -> (r: bool) {
        let kinds_eq = self.token_type == other.token_type;
        let lexemes_eq = match (&self.lexeme, &other.lexeme) {
            (Some(a), Some(b)) => *a == *b,
            (None, None) => true,
            _ => false,
        };
        kinds_eq && lexemes_eq && self.position.line == other.position.line
    }
}

impl vstd::std_specs::cmp::PartialEqSpecImpl for Token {
    open spec fn obeys_eq_spec() -> bool {
        true
    }

    open spec fn eq_spec(&self, other: &Self) -> bool {
        self@ == other@
    }
}

} // verus!
