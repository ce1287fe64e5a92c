//! A standalone lexical scanner over the same expression vocabulary, with a
//! plainer token shape: every token carries its lexeme text, and no source
//! position. It recognizes `&&` but no `||`, and it takes a newline as an
//! invalid character rather than counting lines.
//!
//! As in [`crate::scanner`], the automaton is written down once as a
//! specification ([`lex_step`], [`lex_run`]) and once as the executable
//! [`LexerScanner`], proved to follow it.

use vstd::prelude::*;
use crate::errors::ScanError;
use crate::strutil::{alpha_char, chars_to_string, digit_char, is_alpha_char, is_digit_char};

verus! {

/// The kind of a token.
#[derive(Debug, Clone, Copy, PartialEq, Eq, Structural)]
pub enum TokenType {
    /// A run of decimal digits, possibly with an embedded decimal point.
    Number,
    /// `(`
    LeftParen,
    /// `)`
    RightParen,
    /// `-`
    Minus,
    /// `+`
    Plus,
    /// `*`
    Star,
    /// `/`
    Slash,
    /// `!`
    Bang,
    /// `=`
    Equal,
    /// `==`
    EqualEqual,
    /// `!=`
    BangEqual,
    /// `>`
    Greater,
    /// `>=`
    GreaterEqual,
    /// `<`
    Less,
    /// `<=`
    LessEqual,
    /// A run of letters.
    Identifier,
    /// A quoted string.
    String,
    /// `;`
    Semicolon,
    /// `&&`
    And,
}

/// The states of the scanning automaton.
#[derive(Debug, Clone, Copy, PartialEq, Eq, Structural)]
pub enum LexerState {
    Initial,
    InNumber,
    InNumberFloat,
    InString,
    InIdentifier,
    InBang,
    InGreater,
    InLess,
    InEqual,
    InAnd,
}

/// The mathematical model of a token: its kind and its lexeme text.
pub ghost struct TokenModel {
    pub kind: TokenType,
    pub lexeme: Seq<char>,
}

/// A token: its kind and the text it was built from. Punctuation tokens
/// carry their own spelling.
#[derive(Debug)]
pub struct Token {
    token_type: TokenType,
    lexeme: String,
}

impl View for Token {
    type V = TokenModel;

    closed spec fn view(&self) -> TokenModel {
        TokenModel { kind: self.token_type, lexeme: self.lexeme@ }
    }
}

impl Token {
    pub fn new(token_type: TokenType, value: String) -> (t: Token)
        ensures
            t@.kind == token_type,
            t@.lexeme == value@,
    {
        Token { token_type, lexeme: value }
    }
}

impl Clone for Token {
    fn clone(&self) -> (res: Self)
        ensures
            res@ == self@,
    {
        Token { token_type: self.token_type, lexeme: self.lexeme.clone() }
    }
}

impl PartialEq for Token {
    fn eq(&self, other: &Self) -> (r: bool) {
        self.token_type == other.token_type && self.lexeme == other.lexeme
    }
}

impl vstd::std_specs::cmp::PartialEqSpecImpl for Token {
    open spec fn obeys_eq_spec() -> bool {
        true
    }

    open spec fn eq_spec(&self, other: &Self) -> bool {
        self@ == other@
    }
}

/// The mathematical state of a scan: the automaton state, the accumulation
/// buffer, and the tokens emitted so far.
pub ghost struct LexMachine {
    pub state: LexerState,
    pub buffer: Seq<char>,
    pub tokens: Seq<TokenModel>,
}

/// The machine a scan starts from.
pub open spec fn lex_init() -> LexMachine {
    LexMachine { state: LexerState::Initial, buffer: Seq::empty(), tokens: Seq::empty() }
}

/// Emitting a token with the given lexeme text: the buffer is cleared and
/// the machine returns to the initial state.
pub open spec fn lex_emit(m: LexMachine, kind: TokenType, lexeme: Seq<char>) -> LexMachine {
    LexMachine {
        state: LexerState::Initial,
        buffer: Seq::empty(),
        tokens: m.tokens.push(TokenModel { kind, lexeme }),
    }
}

/// Ranks the states so that re-processing a character after an emission is
/// a descent.
pub open spec fn lex_rank(s: LexerState) -> nat {
    match s {
        LexerState::Initial => 0,
        _ => 1,
    }
}

/// One character of input, from the initial state. Unlike the scanner with
/// positions, a newline (or `|`) is an invalid character here.
pub open spec fn lex_initial_step(m: LexMachine, c: char) -> Result<LexMachine, ScanError> {
    if c == '(' {
        Ok(lex_emit(m, TokenType::LeftParen, seq!['(']))
    } else if c == ')' {
        Ok(lex_emit(m, TokenType::RightParen, seq![')']))
    } else if c == '+' {
        Ok(lex_emit(m, TokenType::Plus, seq!['+']))
    } else if c == '-' {
        Ok(lex_emit(m, TokenType::Minus, seq!['-']))
    } else if c == '*' {
        Ok(lex_emit(m, TokenType::Star, seq!['*']))
    } else if c == '/' {
        Ok(lex_emit(m, TokenType::Slash, seq!['/']))
    } else if c == '!' {
        Ok(LexMachine { state: LexerState::InBang, ..m })
    } else if c == '>' {
        Ok(LexMachine { state: LexerState::InGreater, ..m })
    } else if c == '<' {
        Ok(LexMachine { state: LexerState::InLess, ..m })
    } else if c == '=' {
        Ok(LexMachine { state: LexerState::InEqual, ..m })
    } else if c == '"' {
        Ok(LexMachine { state: LexerState::InString, ..m })
    } else if c == ';' {
        Ok(lex_emit(m, TokenType::Semicolon, seq![';']))
    } else if c == '&' {
        Ok(LexMachine { state: LexerState::InAnd, ..m })
    } else if is_digit_char(c) {
        Ok(LexMachine { state: LexerState::InNumber, buffer: m.buffer.push(c), ..m })
    } else if is_alpha_char(c) {
        Ok(LexMachine { state: LexerState::InIdentifier, buffer: m.buffer.push(c), ..m })
    } else if c == '\0' || c == ' ' {
        Ok(LexMachine { buffer: Seq::empty(), ..m })
    } else {
        Err(ScanError::InvalidCharacter)
    }
}

/// One character of input, from any state.
pub open spec fn lex_step(m: LexMachine, c: char) -> Result<LexMachine, ScanError>
    decreases lex_rank(m.state),
{
    match m.state {
        LexerState::Initial => lex_initial_step(m, c),
        LexerState::InNumber => {
            if is_digit_char(c) {
                Ok(LexMachine { buffer: m.buffer.push(c), ..m })
            } else if c == '.' {
                Ok(LexMachine { state: LexerState::InNumberFloat, buffer: m.buffer.push(c), ..m })
            } else {
                lex_step(lex_emit(m, TokenType::Number, m.buffer), c)
            }
        },
        LexerState::InNumberFloat => {
            if is_digit_char(c) {
                Ok(LexMachine { state: LexerState::InNumber, buffer: m.buffer.push(c), ..m })
            } else {
                Err(ScanError::InvalidFloat)
            }
        },
        LexerState::InIdentifier => {
            if is_alpha_char(c) {
                Ok(LexMachine { buffer: m.buffer.push(c), ..m })
            } else {
                lex_step(lex_emit(m, TokenType::Identifier, m.buffer), c)
            }
        },
        LexerState::InBang => {
            if c == '=' {
                Ok(lex_emit(m, TokenType::BangEqual, seq!['!', '=']))
            } else {
                lex_step(lex_emit(m, TokenType::Bang, seq!['!']), c)
            }
        },
        LexerState::InGreater => {
            if c == '=' {
                Ok(lex_emit(m, TokenType::GreaterEqual, seq!['>', '=']))
            } else {
                lex_step(lex_emit(m, TokenType::Greater, seq!['>']), c)
            }
        },
        LexerState::InLess => {
            if c == '=' {
                Ok(lex_emit(m, TokenType::LessEqual, seq!['<', '=']))
            } else {
                lex_step(lex_emit(m, TokenType::Less, seq!['<']), c)
            }
        },
        LexerState::InEqual => {
            if c == '=' {
                Ok(lex_emit(m, TokenType::EqualEqual, seq!['=', '=']))
            } else {
                lex_step(lex_emit(m, TokenType::Equal, seq!['=']), c)
            }
        },
        LexerState::InString => {
            if c == '"' {
                Ok(lex_emit(m, TokenType::String, m.buffer))
            } else if c == ';' || c == '\0' {
                Err(ScanError::UnterminatedString)
            } else {
                Ok(LexMachine { buffer: m.buffer.push(c), ..m })
            }
        },
        LexerState::InAnd => {
            if c == '&' {
                Ok(lex_emit(m, TokenType::And, seq!['&', '&']))
            } else {
                Err(ScanError::InvalidOperator)
            }
        },
    }
}

/// Runs the machine over a whole character sequence.
pub open spec fn lex_run(m: LexMachine, s: Seq<char>) -> Result<LexMachine, ScanError>
    decreases s.len(),
{
    if s.len() == 0 {
        Ok(m)
    } else {
        match lex_step(m, s[0]) {
            Ok(m2) => lex_run(m2, s.skip(1)),
            Err(e) => Err(e),
        }
    }
}

/// What scanning a source text yields here.
pub open spec fn lex_scan_spec(s: Seq<char>) -> Result<Seq<TokenModel>, ScanError> {
    match lex_run(lex_init(), s.push('\0')) {
        Ok(m) => Ok(m.tokens),
        Err(e) => Err(e),
    }
}

/// The models of a token sequence.
pub open spec fn lex_tokens_view(ts: Seq<Token>) -> Seq<TokenModel> {
    ts.map_values(|t: Token| t@)
}

/// The executable scanner; its abstract value is the [`LexMachine`] it
/// embodies.
pub struct LexerScanner {
    tokens: Vec<Token>,
    source: String,
    current_state: LexerState,
    current_buffer: Vec<char>,
}

impl View for LexerScanner {
    type V = LexMachine;

    closed spec fn view(&self) -> LexMachine {
        LexMachine {
            state: self.current_state,
            buffer: self.current_buffer@,
            tokens: lex_tokens_view(self.tokens@),
        }
    }
}

impl LexerScanner {
    /// The characters the scanner will feed to the machine: the source it
    /// was built from, with the sentinel appended.
    pub closed spec fn src(&self) -> Seq<char> {
        self.source@
    }

    pub fn new(source: String) -> (s: Self)
        ensures
            s@ == lex_init(),
            s.src() == source@.push('\0'),
    {
        let mut new_source = source;
        new_source.append("\0");
        proof {
            reveal_strlit("\0");
            assert(new_source@ =~= new_source@.subrange(0, new_source@.len() - 1).push('\0'));
        }
        let s = LexerScanner {
            tokens: Vec::new(),
            source: new_source,
            current_state: LexerState::Initial,
            current_buffer: Vec::new(),
        };
        proof {
            assert(s@.buffer =~= lex_init().buffer);
            assert(s@.tokens =~= lex_init().tokens);
        }
        s
    }

    /// Scans the whole source: the result is exactly what a full run of the
    /// specification machine yields on it.
    pub fn scan(&mut self) -> (res: Result<Vec<Token>, ScanError>)
        ensures
            final(self).src() == old(self).src(),
            match lex_run(old(self)@, old(self).src()) {
                Ok(m) => {
                    &&& final(self)@ == m
                    &&& res matches Ok(ts) && lex_tokens_view(ts@) == m.tokens
                },
                Err(e) => res == Err::<Vec<Token>, ScanError>(e),
            },
    {
        let ghost m0 = self@;
        let ghost src = self.src();
        let n = self.source.as_str().unicode_len();
        let mut i: usize = 0;
        proof {
            assert(src.skip(0) =~= src);
        }
        while i < n
            invariant
                i <= n,
                n == self.src().len(),
                self.src() == src,
                m0 == old(self)@,
                src == old(self).src(),
                lex_run(m0, src) == lex_run(self@, src.skip(i as int)),
            decreases n - i,
        {
            let c = self.source.as_str().get_char(i);
            let ghost before = self@;
            let r = self.process_input(c);
            match r {
                Ok(()) => {
                    proof {
                        assert(src.skip(i as int)[0] == c);
                        assert(lex_run(before, src.skip(i as int)) == lex_run(
                            self@,
                            src.skip(i as int).skip(1),
                        ));
                        assert(src.skip(i as int).skip(1) =~= src.skip(i as int + 1));
                    }
                },
                Err(e) => {
                    proof {
                        assert(src.skip(i as int)[0] == c);
                        assert(lex_run(before, src.skip(i as int)) == Err::<LexMachine, ScanError>(
                            e,
                        ));
                    }
                    return Err(e);
                },
            }
            i = i + 1;
        }
        proof {
            assert(src.skip(n as int) =~= Seq::<char>::empty());
        }
        let mut out: Vec<Token> = Vec::new();
        let mut j: usize = 0;
        while j < self.tokens.len()
            invariant
                j <= self.tokens.len(),
                out@.len() == j,
                forall|k: int| 0 <= k < j ==> out@[k]@ == #[trigger] self.tokens@[k]@,
            decreases self.tokens.len() - j,
        {
            let t = self.tokens[j].clone();
            out.push(t);
            j = j + 1;
        }
        proof {
            assert(lex_tokens_view(out@) =~= lex_tokens_view(self.tokens@));
        }
        Ok(out)
    }

    /// Feeds one character to the machine. On success the scanner embodies
    /// the machine the specification step yields.
    pub fn process_input(&mut self, c: char) -> (res: Result<(), ScanError>)
        ensures
            final(self).src() == old(self).src(),
            match lex_step(old(self)@, c) {
                Ok(m) => res is Ok && final(self)@ == m,
                Err(e) => res == Err::<(), ScanError>(e),
            },
        decreases lex_rank(self@.state),
    {
        match self.current_state {
            LexerState::Initial => {
                if c == '(' {
                    self.add_token(TokenType::LeftParen, String::from_str("("));
                    proof {
                        reveal_strlit("(");
                        assert("("@ =~= seq!['(']);
                    }
                    Ok(())
                } else if c == ')' {
                    self.add_token(TokenType::RightParen, String::from_str(")"));
                    proof {
                        reveal_strlit(")");
                        assert(")"@ =~= seq![')']);
                    }
                    Ok(())
                } else if c == '+' {
                    self.add_token(TokenType::Plus, String::from_str("+"));
                    proof {
                        reveal_strlit("+");
                        assert("+"@ =~= seq!['+']);
                    }
                    Ok(())
                } else if c == '-' {
                    self.add_token(TokenType::Minus, String::from_str("-"));
                    proof {
                        reveal_strlit("-");
                        assert("-"@ =~= seq!['-']);
                    }
                    Ok(())
                } else if c == '*' {
                    self.add_token(TokenType::Star, String::from_str("*"));
                    proof {
                        reveal_strlit("*");
                        assert("*"@ =~= seq!['*']);
                    }
                    Ok(())
                } else if c == '/' {
                    self.add_token(TokenType::Slash, String::from_str("/"));
                    proof {
                        reveal_strlit("/");
                        assert("/"@ =~= seq!['/']);
                    }
                    Ok(())
                } else if c == '!' {
                    self.set_state(LexerState::InBang);
                    Ok(())
                } else if c == '>' {
                    self.set_state(LexerState::InGreater);
                    Ok(())
                } else if c == '<' {
                    self.set_state(LexerState::InLess);
                    Ok(())
                } else if c == '=' {
                    self.set_state(LexerState::InEqual);
                    Ok(())
                } else if c == '"' {
                    self.set_state(LexerState::InString);
                    Ok(())
                } else if c == ';' {
                    self.add_token(TokenType::Semicolon, String::from_str(";"));
                    proof {
                        reveal_strlit(";");
                        assert(";"@ =~= seq![';']);
                    }
                    Ok(())
                } else if c == '&' {
                    self.set_state(LexerState::InAnd);
                    Ok(())
                } else if digit_char(c) {
                    self.set_state(LexerState::InNumber);
                    self.push_buffer(c);
                    Ok(())
                } else if alpha_char(c) {
                    self.set_state(LexerState::InIdentifier);
                    self.push_buffer(c);
                    Ok(())
                } else if c == '\0' || c == ' ' {
                    self.clear_buffer();
                    self.state_initial();
                    Ok(())
                } else {
                    Err(ScanError::InvalidCharacter)
                }
            },
            LexerState::InNumber => {
                if digit_char(c) {
                    self.push_buffer(c);
                    Ok(())
                } else if c == '.' {
                    self.push_buffer(c);
                    self.set_state(LexerState::InNumberFloat);
                    Ok(())
                } else {
                    let lexeme = self.get_buffer();
                    self.add_token(TokenType::Number, lexeme);
                    self.process_input(c)
                }
            },
            LexerState::InNumberFloat => {
                if digit_char(c) {
                    self.push_buffer(c);
                    self.set_state(LexerState::InNumber);
                    Ok(())
                } else {
                    Err(ScanError::InvalidFloat)
                }
            },
            LexerState::InIdentifier => {
                if alpha_char(c) {
                    self.push_buffer(c);
                    Ok(())
                } else {
                    let lexeme = self.get_buffer();
                    self.add_token(TokenType::Identifier, lexeme);
                    self.process_input(c)
                }
            },
            LexerState::InBang => {
                if c == '=' {
                    self.add_token(TokenType::BangEqual, String::from_str("!="));
                    proof {
                        reveal_strlit("!=");
                        assert("!="@ =~= seq!['!', '=']);
                    }
                    Ok(())
                } else {
                    self.add_token(TokenType::Bang, String::from_str("!"));
                    proof {
                        reveal_strlit("!");
                        assert("!"@ =~= seq!['!']);
                    }
                    self.process_input(c)
                }
            },
            LexerState::InGreater => {
                if c == '=' {
                    self.add_token(TokenType::GreaterEqual, String::from_str(">="));
                    proof {
                        reveal_strlit(">=");
                        assert(">="@ =~= seq!['>', '=']);
                    }
                    Ok(())
                } else {
                    self.add_token(TokenType::Greater, String::from_str(">"));
                    proof {
                        reveal_strlit(">");
                        assert(">"@ =~= seq!['>']);
                    }
                    self.process_input(c)
                }
            },
            LexerState::InLess => {
                if c == '=' {
                    self.add_token(TokenType::LessEqual, String::from_str("<="));
                    proof {
                        reveal_strlit("<=");
                        assert("<="@ =~= seq!['<', '=']);
                    }
                    Ok(())
                } else {
                    self.add_token(TokenType::Less, String::from_str("<"));
                    proof {
                        reveal_strlit("<");
                        assert("<"@ =~= seq!['<']);
                    }
                    self.process_input(c)
                }
            },
            LexerState::InEqual => {
                if c == '=' {
                    self.add_token(TokenType::EqualEqual, String::from_str("=="));
                    proof {
                        reveal_strlit("==");
                        assert("=="@ =~= seq!['=', '=']);
                    }
                    Ok(())
                } else {
                    self.add_token(TokenType::Equal, String::from_str("="));
                    proof {
                        reveal_strlit("=");
                        assert("="@ =~= seq!['=']);
                    }
                    self.process_input(c)
                }
            },
            LexerState::InString => {
                if c == '"' {
                    let lexeme = self.get_buffer();
                    self.add_token(TokenType::String, lexeme);
                    Ok(())
                } else if c == ';' || c == '\0' {
                    Err(ScanError::UnterminatedString)
                } else {
                    self.push_buffer(c);
                    Ok(())
                }
            },
            LexerState::InAnd => {
                if c == '&' {
                    self.add_token(TokenType::And, String::from_str("&&"));
                    proof {
                        reveal_strlit("&&");
                        assert("&&"@ =~= seq!['&', '&']);
                    }
                    Ok(())
                } else {
                    Err(ScanError::InvalidOperator)
                }
            },
        }
    }

    fn state_initial(&mut self)
        ensures
            final(self).src() == old(self).src(),
            final(self)@ == (LexMachine { state: LexerState::Initial, ..old(self)@ }),
    {
        self.set_state(LexerState::Initial);
    }

    /// The buffered lexeme, as text.
    fn get_buffer(&self) -> (r: String)
        ensures
            r@ == self@.buffer,
    {
        chars_to_string(&self.current_buffer)
    }

    fn push_buffer(&mut self, c: char)
        ensures
            final(self).src() == old(self).src(),
            final(self)@ == (LexMachine { buffer: old(self)@.buffer.push(c), ..old(self)@ }),
    {
        self.current_buffer.push(c);
    }

    fn clear_buffer(&mut self)
        ensures
            final(self).src() == old(self).src(),
            final(self)@ == (LexMachine { buffer: Seq::<char>::empty(), ..old(self)@ }),
    {
        self.current_buffer.clear();
        proof {
            assert(self@.buffer =~= Seq::<char>::empty());
        }
    }

    fn set_state(&mut self, state: LexerState)
        ensures
            final(self).src() == old(self).src(),
            final(self)@ == (LexMachine { state: state, ..old(self)@ }),
    {
        self.current_state = state;
    }

    /// Emits a token carrying the given lexeme text; the buffer is cleared
    /// and the machine returns to the initial state.
    fn add_token(&mut self, token_type: TokenType, lexeme: String)
        ensures
            final(self).src() == old(self).src(),
            final(self)@ == lex_emit(old(self)@, token_type, lexeme@),
    {
        self.tokens.push(Token { token_type, lexeme });
        self.clear_buffer();
        self.state_initial();
        proof {
            assert(self@.tokens =~= old(self)@.tokens.push(
                TokenModel { kind: token_type, lexeme: lexeme@ },
            ));
        }
    }
}

} // verus!
