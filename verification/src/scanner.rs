//! The lexical scanner: an explicit character-by-character finite-state
//! machine that turns source text into an ordered token sequence.
//!
//! The machine is written down twice: once as the specification
//! ([`scan_step`], [`scan_run`]) over a mathematical [`ScanMachine`], and
//! once as the executable [`LexerScanner`], whose methods are proved to
//! follow the specification step by step. The source is terminated with a
//! `'\0'` sentinel so that a pending multi-character lexeme or numeric or
//! identifier run flushes at the end of the input.

use vstd::prelude::*;
use crate::errors::ScanError;
use crate::strutil::{alpha_char, chars_to_string, digit_char, is_alpha_char, is_digit_char};
use crate::token::{Position, Token, TokenModel, TokenType};

verus! {

/// The states of the scanning automaton.
#[derive(Debug, Clone, Copy, PartialEq, Eq, Structural)]
pub enum ScanState {
    Initial,
    InNumber,
    InNumberFloat,
    InString,
    InIdentifier,
    InBang,
    InGreater,
    InLess,
    InEqual,
    InAnd,
    InOr,
}

/// The mathematical state of a scan: the automaton state, the accumulation
/// buffer, the line counter, and the tokens emitted so far.
pub ghost struct ScanMachine {
    pub state: ScanState,
    pub buffer: Seq<char>,
    pub line: nat,
    pub tokens: Seq<TokenModel>,
}

/// The machine a scan starts from: initial state, empty buffer, line zero,
/// no tokens.
pub open spec fn init_machine() -> ScanMachine {
    ScanMachine { state: ScanState::Initial, buffer: Seq::empty(), line: 0, tokens: Seq::empty() }
}

/// Emitting a token: it is stamped with the current line counter, the
/// buffer is cleared, and the machine returns to the initial state.
pub open spec fn emit(m: ScanMachine, kind: TokenType, lexeme: Option<Seq<char>>) -> ScanMachine {
    ScanMachine {
        state: ScanState::Initial,
        buffer: Seq::empty(),
        line: m.line,
        tokens: m.tokens.push(TokenModel { kind, lexeme, line: m.line }),
    }
}

/// The line counter saturates at the largest 32-bit value instead of
/// growing without bound.
pub open spec fn line_inc(line: nat) -> nat {
    if line < u32::MAX as nat {
        line + 1
    } else {
        line
    }
}

/// Ranks the states so that re-processing a character after an emission
/// (which always returns to `Initial`) is a descent.
pub open spec fn state_rank(s: ScanState) -> nat {
    match s {
        ScanState::Initial => 0,
        _ => 1,
    }
}

/// One character of input, from the initial state. Single-character
/// punctuation emits at once; the ambiguous leads (`!`, `>`, `<`, `=`,
/// `&`, `|`) and `"` only move to a pending state; a digit or letter opens
/// an accumulation run; newline advances the line counter; blank and the
/// end-of-input sentinel clear the buffer; anything else is a failure.
pub open spec fn initial_step(m: ScanMachine, c: char) -> Result<ScanMachine, ScanError> {
    if c == '(' {
        Ok(emit(m, TokenType::LeftParen, None))
    } else if c == ')' {
        Ok(emit(m, TokenType::RightParen, None))
    } else if c == '+' {
        Ok(emit(m, TokenType::Plus, None))
    } else if c == '-' {
        Ok(emit(m, TokenType::Minus, None))
    } else if c == '*' {
        Ok(emit(m, TokenType::Star, None))
    } else if c == '/' {
        Ok(emit(m, TokenType::Slash, None))
    } else if c == ';' {
        Ok(emit(m, TokenType::Semicolon, None))
    } else if c == '!' {
        Ok(ScanMachine { state: ScanState::InBang, ..m })
    } else if c == '>' {
        Ok(ScanMachine { state: ScanState::InGreater, ..m })
    } else if c == '<' {
        Ok(ScanMachine { state: ScanState::InLess, ..m })
    } else if c == '=' {
        Ok(ScanMachine { state: ScanState::InEqual, ..m })
    } else if c == '"' {
        Ok(ScanMachine { state: ScanState::InString, ..m })
    } else if c == '&' {
        Ok(ScanMachine { state: ScanState::InAnd, ..m })
    } else if c == '|' {
        Ok(ScanMachine { state: ScanState::InOr, ..m })
    } else if is_digit_char(c) {
        Ok(ScanMachine { state: ScanState::InNumber, buffer: m.buffer.push(c), ..m })
    } else if is_alpha_char(c) {
        Ok(ScanMachine { state: ScanState::InIdentifier, buffer: m.buffer.push(c), ..m })
    } else if c == '\n' {
        Ok(ScanMachine { line: line_inc(m.line), ..m })
    } else if c == '\0' || c == ' ' {
        Ok(ScanMachine { buffer: Seq::empty(), ..m })
    } else {
        Err(ScanError::InvalidCharacter)
    }
}

/// One character of input, from any state. An accumulating state that sees
/// a character it cannot take emits its pending token and re-processes that
/// character from the initial state, so lookahead characters are never
/// dropped.
pub open spec fn scan_step(m: ScanMachine, c: char) -> Result<ScanMachine, ScanError>
    decreases state_rank(m.state),
{
    match m.state {
        ScanState::Initial => initial_step(m, c),
        ScanState::InNumber => {
            if is_digit_char(c) {
                Ok(ScanMachine { buffer: m.buffer.push(c), ..m })
            } else if c == '.' {
                Ok(ScanMachine { state: ScanState::InNumberFloat, buffer: m.buffer.push(c), ..m })
            } else {
                scan_step(emit(m, TokenType::Number, Some(m.buffer)), c)
            }
        },
        ScanState::InNumberFloat => {
            if is_digit_char(c) {
                Ok(ScanMachine { state: ScanState::InNumber, buffer: m.buffer.push(c), ..m })
            } else {
                Err(ScanError::InvalidFloat)
            }
        },
        ScanState::InIdentifier => {
            if is_alpha_char(c) {
                Ok(ScanMachine { buffer: m.buffer.push(c), ..m })
            } else {
                scan_step(emit(m, TokenType::Identifier, Some(m.buffer)), c)
            }
        },
        ScanState::InBang => {
            if c == '=' {
                Ok(emit(m, TokenType::BangEqual, None))
            } else {
                scan_step(emit(m, TokenType::Bang, None), c)
            }
        },
        ScanState::InGreater => {
            if c == '=' {
                Ok(emit(m, TokenType::GreaterEqual, None))
            } else {
                scan_step(emit(m, TokenType::Greater, None), c)
            }
        },
        ScanState::InLess => {
            if c == '=' {
                Ok(emit(m, TokenType::LessEqual, None))
            } else {
                scan_step(emit(m, TokenType::Less, None), c)
            }
        },
        ScanState::InEqual => {
            if c == '=' {
                Ok(emit(m, TokenType::EqualEqual, None))
            } else {
                scan_step(emit(m, TokenType::Equal, None), c)
            }
        },
        ScanState::InString => {
            if c == '"' {
                Ok(emit(m, TokenType::String, Some(m.buffer)))
            } else if c == ';' || c == '\0' {
                Err(ScanError::UnterminatedString)
            } else {
                Ok(ScanMachine { buffer: m.buffer.push(c), ..m })
            }
        },
        ScanState::InAnd => {
            if c == '&' {
                Ok(emit(m, TokenType::And, None))
            } else {
                Err(ScanError::InvalidOperator)
            }
        },
        ScanState::InOr => {
            if c == '|' {
                Ok(emit(m, TokenType::Or, None))
            } else {
                Err(ScanError::InvalidOperator)
            }
        },
    }
}

/// Runs the machine over a whole character sequence. The first failing
/// step fails the run.
pub open spec fn scan_run(m: ScanMachine, s: Seq<char>) -> Result<ScanMachine, ScanError>
    decreases s.len(),
{
    if s.len() == 0 {
        Ok(m)
    } else {
        match scan_step(m, s[0]) {
            Ok(m2) => scan_run(m2, s.skip(1)),
            Err(e) => Err(e),
        }
    }
}

/// What scanning a source text yields: the tokens of a full run from the
/// initial machine over the text followed by the end-of-input sentinel.
pub open spec fn scan_spec(s: Seq<char>) -> Result<Seq<TokenModel>, ScanError> {
    match scan_run(init_machine(), s.push('\0')) {
        Ok(m) => Ok(m.tokens),
        Err(e) => Err(e),
    }
}

/// The models of a token sequence.
pub open spec fn tokens_view(ts: Seq<Token>) -> Seq<TokenModel> {
    ts.map_values(|t: Token| t@)
}

/// The token kind of a single-character punctuation mark.
pub open spec fn punct_kind(c: char) -> TokenType {
    if c == '(' {
        TokenType::LeftParen
    } else if c == ')' {
        TokenType::RightParen
    } else if c == '+' {
        TokenType::Plus
    } else if c == '-' {
        TokenType::Minus
    } else if c == '*' {
        TokenType::Star
    } else if c == '/' {
        TokenType::Slash
    } else {
        TokenType::Semicolon
    }
}

/// Scanning a single punctuation mark yields exactly the one matching
/// token, with no lexeme, on line zero.
pub proof fn lemma_scan_punctuation(c: char)
    requires
        c == '(' || c == ')' || c == '+' || c == '-' || c == '*' || c == '/' || c == ';',
    ensures
        scan_spec(seq![c]) == Ok::<_, ScanError>(
            seq![TokenModel { kind: punct_kind(c), lexeme: None, line: 0 }],
        ),
{
    let s = seq![c].push('\0');
    assert(s[0] == c);
    assert(s.skip(1) =~= seq!['\0']);
    let m1 = emit(init_machine(), punct_kind(c), None);
    assert(scan_step(init_machine(), c) == Ok::<_, ScanError>(m1));
    assert(s.skip(1)[0] == '\0');
    assert(s.skip(1).skip(1) =~= Seq::<char>::empty());
    let m2 = ScanMachine { buffer: Seq::empty(), ..m1 };
    assert(scan_step(m1, '\0') == Ok::<_, ScanError>(m2));
    assert(scan_run(m2, s.skip(1).skip(1)) == Ok::<_, ScanError>(m2));
    assert(scan_run(m1, s.skip(1)) == Ok::<_, ScanError>(m2));
    assert(scan_run(init_machine(), s) == Ok::<_, ScanError>(m2));
    assert(m2.tokens =~= seq![TokenModel { kind: punct_kind(c), lexeme: None, line: 0 }]);
    assert(m2.tokens == seq![TokenModel { kind: punct_kind(c), lexeme: None, line: 0 }]);
}

/// Running the machine from the number state over a run of digits and the
/// sentinel flushes exactly one Number token carrying the buffer and the
/// digits.
proof fn lemma_run_digits(m: ScanMachine, s: Seq<char>)
    requires
        m.state is InNumber,
        forall|k: int| 0 <= k < s.len() ==> is_digit_char(#[trigger] s[k]),
    ensures
        scan_run(m, s.push('\0')) == Ok::<_, ScanError>(
            ScanMachine {
                state: ScanState::Initial,
                buffer: Seq::empty(),
                line: m.line,
                tokens: m.tokens.push(
                    TokenModel {
                        kind: TokenType::Number,
                        lexeme: Some(m.buffer + s),
                        line: m.line,
                    },
                ),
            },
        ),
    decreases s.len(),
{
    if s.len() == 0 {
        let e = emit(m, TokenType::Number, Some(m.buffer));
        assert(s.push('\0')[0] == '\0');
        assert(!is_digit_char('\0')) by {
            assert('\0' as u32 == 0);
        }
        let m3 = ScanMachine { buffer: Seq::empty(), ..e };
        assert(scan_step(e, '\0') == Ok::<_, ScanError>(m3));
        assert(scan_step(m, '\0') == scan_step(e, '\0'));
        assert(s.push('\0').skip(1) =~= Seq::<char>::empty());
        assert(m.buffer + s =~= m.buffer);
        assert(m3.buffer =~= Seq::<char>::empty());
        assert(scan_run(m3, s.push('\0').skip(1)) == Ok::<_, ScanError>(m3));
        assert(scan_run(m, s.push('\0')) == Ok::<_, ScanError>(m3));
    } else {
        let c = s[0];
        assert(is_digit_char(c));
        assert(c != '.') by {
            assert('.' as u32 == 46 && '0' as u32 == 48);
        }
        let m2 = ScanMachine { buffer: m.buffer.push(c), ..m };
        assert(s.push('\0')[0] == c);
        assert(scan_step(m, c) == Ok::<_, ScanError>(m2));
        assert(s.push('\0').skip(1) =~= s.skip(1).push('\0'));
        lemma_run_digits(m2, s.skip(1));
        assert(m.buffer.push(c) + s.skip(1) =~= m.buffer + s);
        assert(scan_run(m, s.push('\0')) == scan_run(m2, s.skip(1).push('\0')));
    }
}

/// Scanning a nonempty run of decimal digits yields exactly one Number
/// token whose lexeme is that run.
pub proof fn lemma_scan_digit_run(s: Seq<char>)
    requires
        s.len() >= 1,
        forall|k: int| 0 <= k < s.len() ==> is_digit_char(#[trigger] s[k]),
    ensures
        scan_spec(s) == Ok::<_, ScanError>(
            seq![TokenModel { kind: TokenType::Number, lexeme: Some(s), line: 0 }],
        ),
{
    let c = s[0];
    assert(is_digit_char(c));
    assert(c != '(' && c != ')' && c != '+' && c != '-' && c != '*' && c != '/' && c != ';' && c
        != '!' && c != '>' && c != '<' && c != '=' && c != '"' && c != '&' && c != '|') by {
        assert('0' as u32 == 48 && '9' as u32 == 57);
        assert('(' as u32 == 40 && ')' as u32 == 41 && '+' as u32 == 43 && '-' as u32 == 45 && '*'
            as u32 == 42 && '/' as u32 == 47 && ';' as u32 == 59 && '!' as u32 == 33 && '>' as u32
            == 62 && '<' as u32 == 60 && '=' as u32 == 61 && '"' as u32 == 34 && '&' as u32 == 38
            && '|' as u32 == 124);
    }
    let m1 = ScanMachine {
        state: ScanState::InNumber,
        buffer: seq![c],
        line: 0,
        tokens: Seq::empty(),
    };
    assert(init_machine().buffer.push(c) =~= seq![c]);
    assert(s.push('\0')[0] == c);
    assert(scan_step(init_machine(), c) == Ok::<_, ScanError>(m1));
    assert(s.push('\0').skip(1) =~= s.skip(1).push('\0'));
    lemma_run_digits(m1, s.skip(1));
    assert(seq![c] + s.skip(1) =~= s);
    assert(scan_run(init_machine(), s.push('\0')) == scan_run(m1, s.skip(1).push('\0')));
    assert(Seq::<TokenModel>::empty().push(
        TokenModel { kind: TokenType::Number, lexeme: Some(s), line: 0 },
    ) =~= seq![TokenModel { kind: TokenType::Number, lexeme: Some(s), line: 0 }]);
}

/// The executable scanner. Its abstract value (`@`) is the [`ScanMachine`]
/// it currently embodies; the source it was built over, sentinel included,
/// is `self.src()`.
pub struct LexerScanner {
    tokens: Vec<Token>,
    source: String,
    current_state: ScanState,
    current_buffer: Vec<char>,
    pub position: Position,
}

impl View for LexerScanner {
    type V = ScanMachine;

    closed spec fn view(&self) -> ScanMachine {
        ScanMachine {
            state: self.current_state,
            buffer: self.current_buffer@,
            line: self.position.line as nat,
            tokens: tokens_view(self.tokens@),
        }
    }
}

impl LexerScanner {
    /// The characters the scanner will feed to the machine: the source it
    /// was built from, with the sentinel appended.
    pub closed spec fn src(&self) -> Seq<char> {
        self.source@
    }

    pub fn new(source: String) -> (s: Self)
        ensures
            s@ == init_machine(),
            s.src() == source@.push('\0'),
    {
        let mut new_source = source;
        new_source.append("\0");
        proof {
            reveal_strlit("\0");
            assert(new_source@ =~= new_source@.subrange(0, new_source@.len() - 1).push('\0'));
        }
        let s = LexerScanner {
            tokens: Vec::new(),
            source: new_source,
            current_state: ScanState::Initial,
            current_buffer: Vec::new(),
            position: Position::new(0),
        };
        proof {
            assert(s@.buffer =~= init_machine().buffer);
            assert(s@.tokens =~= init_machine().tokens);
        }
        s
    }

    /// Scans the whole source: the result is exactly what a full run of the
    /// specification machine yields on it.
    pub fn scan(&mut self) -> (res: Result<Vec<Token>, ScanError>)
        ensures
            final(self).src() == old(self).src(),
            match scan_run(old(self)@, old(self).src()) {
                Ok(m) => {
                    &&& final(self)@ == m
                    &&& res matches Ok(ts) && tokens_view(ts@) == m.tokens
                },
                Err(e) => res == Err::<Vec<Token>, ScanError>(e),
            },
    {
        let ghost m0 = self@;
        let ghost src = self.src();
        let n = self.source.as_str().unicode_len();
        let mut i: usize = 0;
        proof {
            assert(src.skip(0) =~= src);
        }
        while i < n
            invariant
                i <= n,
                n == self.src().len(),
                self.src() == src,
                m0 == old(self)@,
                src == old(self).src(),
                scan_run(m0, src) == scan_run(self@, src.skip(i as int)),
            decreases n - i,
        {
            let c = self.source.as_str().get_char(i);
            let ghost before = self@;
            let r = self.process_input(c);
            match r {
                Ok(()) => {
                    proof {
                        assert(src.skip(i as int)[0] == c);
                        assert(scan_run(before, src.skip(i as int)) == scan_run(
                            self@,
                            src.skip(i as int).skip(1),
                        ));
                        assert(src.skip(i as int).skip(1) =~= src.skip(i as int + 1));
                    }
                },
                Err(e) => {
                    proof {
                        assert(src.skip(i as int)[0] == c);
                        assert(scan_run(before, src.skip(i as int)) == Err::<ScanMachine, ScanError>(
                            e,
                        ));
                    }
                    return Err(e);
                },
            }
            i = i + 1;
        }
        proof {
            assert(src.skip(n as int) =~= Seq::<char>::empty());
        }
        let mut out: Vec<Token> = Vec::new();
        let mut j: usize = 0;
        while j < self.tokens.len()
            invariant
                j <= self.tokens.len(),
                out@.len() == j,
                forall|k: int| 0 <= k < j ==> out@[k]@ == #[trigger] self.tokens@[k]@,
            decreases self.tokens.len() - j,
        {
            let t = self.tokens[j].clone();
            out.push(t);
            j = j + 1;
        }
        proof {
            assert(tokens_view(out@) =~= tokens_view(self.tokens@));
        }
        Ok(out)
    }

    /// Feeds one character to the machine. On success the scanner embodies
    /// the machine the specification step yields; a failing step leaves it
    /// unchanged.
    pub fn process_input(&mut self, c: char) -> (res: Result<(), ScanError>)
        ensures
            final(self).src() == old(self).src(),
            match scan_step(old(self)@, c) {
                Ok(m) => res is Ok && final(self)@ == m,
                Err(e) => res == Err::<(), ScanError>(e),
            },
        decreases state_rank(self@.state),
    {
        match self.current_state {
            ScanState::Initial => {
                if c == '(' {
                    self.add_token(TokenType::LeftParen);
                    Ok(())
                } else if c == ')' {
                    self.add_token(TokenType::RightParen);
                    Ok(())
                } else if c == '+' {
                    self.add_token(TokenType::Plus);
                    Ok(())
                } else if c == '-' {
                    self.add_token(TokenType::Minus);
                    Ok(())
                } else if c == '*' {
                    self.add_token(TokenType::Star);
                    Ok(())
                } else if c == '/' {
                    self.add_token(TokenType::Slash);
                    Ok(())
                } else if c == ';' {
                    self.add_token(TokenType::Semicolon);
                    Ok(())
                } else if c == '!' {
                    self.set_state(ScanState::InBang);
                    Ok(())
                } else if c == '>' {
                    self.set_state(ScanState::InGreater);
                    Ok(())
                } else if c == '<' {
                    self.set_state(ScanState::InLess);
                    Ok(())
                } else if c == '=' {
                    self.set_state(ScanState::InEqual);
                    Ok(())
                } else if c == '"' {
                    self.set_state(ScanState::InString);
                    Ok(())
                } else if c == '&' {
                    self.set_state(ScanState::InAnd);
                    Ok(())
                } else if c == '|' {
                    self.set_state(ScanState::InOr);
                    Ok(())
                } else if digit_char(c) {
                    self.set_state(ScanState::InNumber);
                    self.push_buffer(c);
                    Ok(())
                } else if alpha_char(c) {
                    self.set_state(ScanState::InIdentifier);
                    self.push_buffer(c);
                    Ok(())
                } else if c == '\n' {
                    self.line_advance();
                    Ok(())
                } else if c == '\0' || c == ' ' {
                    self.clear_buffer();
                    self.state_initial();
                    Ok(())
                } else {
                    Err(ScanError::InvalidCharacter)
                }
            },
            ScanState::InNumber => {
                if digit_char(c) {
                    self.push_buffer(c);
                    Ok(())
                } else if c == '.' {
                    self.push_buffer(c);
                    self.set_state(ScanState::InNumberFloat);
                    Ok(())
                } else {
                    let lexeme = self.get_buffer();
                    self.add_token_with_value(TokenType::Number, Some(lexeme));
                    self.process_input(c)
                }
            },
            ScanState::InNumberFloat => {
                if digit_char(c) {
                    self.push_buffer(c);
                    self.set_state(ScanState::InNumber);
                    Ok(())
                } else {
                    Err(ScanError::InvalidFloat)
                }
            },
            ScanState::InIdentifier => {
                if alpha_char(c) {
                    self.push_buffer(c);
                    Ok(())
                } else {
                    let lexeme = self.get_buffer();
                    self.add_token_with_value(TokenType::Identifier, Some(lexeme));
                    self.process_input(c)
                }
            },
            ScanState::InBang => {
                if c == '=' {
                    self.add_token(TokenType::BangEqual);
                    Ok(())
                } else {
                    self.add_token(TokenType::Bang);
                    self.process_input(c)
                }
            },
            ScanState::InGreater => {
                if c == '=' {
                    self.add_token(TokenType::GreaterEqual);
                    Ok(())
                } else {
                    self.add_token(TokenType::Greater);
                    self.process_input(c)
                }
            },
            ScanState::InLess => {
                if c == '=' {
                    self.add_token(TokenType::LessEqual);
                    Ok(())
                } else {
                    self.add_token(TokenType::Less);
                    self.process_input(c)
                }
            },
            ScanState::InEqual => {
                if c == '=' {
                    self.add_token(TokenType::EqualEqual);
                    Ok(())
                } else {
                    self.add_token(TokenType::Equal);
                    self.process_input(c)
                }
            },
            ScanState::InString => {
                if c == '"' {
                    let lexeme = self.get_buffer();
                    self.add_token_with_value(TokenType::String, Some(lexeme));
                    Ok(())
                } else if c == ';' || c == '\0' {
                    Err(ScanError::UnterminatedString)
                } else {
                    self.push_buffer(c);
                    Ok(())
                }
            },
            ScanState::InAnd => {
                if c == '&' {
                    self.add_token(TokenType::And);
                    Ok(())
                } else {
                    Err(ScanError::InvalidOperator)
                }
            },
            ScanState::InOr => {
                if c == '|' {
                    self.add_token(TokenType::Or);
                    Ok(())
                } else {
                    Err(ScanError::InvalidOperator)
                }
            },
        }
    }

    fn line_advance(&mut self)
        ensures
            final(self).src() == old(self).src(),
            final(self)@ == (ScanMachine { line: line_inc(old(self)@.line), ..old(self)@ }),
    {
        if self.position.line < u32::MAX {
            self.position = Position::new(self.position.line + 1);
        }
    }

    fn state_initial(&mut self)
        ensures
            final(self).src() == old(self).src(),
            final(self)@ == (ScanMachine { state: ScanState::Initial, ..old(self)@ }),
    {
        self.set_state(ScanState::Initial);
    }

    /// The buffered lexeme, as text.
    fn get_buffer(&self) -> (r: String)
        ensures
            r@ == self@.buffer,
    {
        chars_to_string(&self.current_buffer)
    }

    fn push_buffer(&mut self, c: char)
        ensures
            final(self).src() == old(self).src(),
            final(self)@ == (ScanMachine { buffer: old(self)@.buffer.push(c), ..old(self)@ }),
    {
        self.current_buffer.push(c);
    }

    fn clear_buffer(&mut self)
        ensures
            final(self).src() == old(self).src(),
            final(self)@ == (ScanMachine { buffer: Seq::<char>::empty(), ..old(self)@ }),
    {
        self.current_buffer.clear();
        proof {
            assert(self@.buffer =~= Seq::<char>::empty());
        }
    }

    fn set_state(&mut self, state: ScanState)
        ensures
            final(self).src() == old(self).src(),
            final(self)@ == (ScanMachine { state: state, ..old(self)@ }),
    {
        self.current_state = state;
    }

    /// Emits a token carrying the given lexeme text, stamped with the
    /// current line counter; the buffer is cleared and the machine returns
    /// to the initial state.
    fn add_token_with_value(&mut self, token_type: TokenType, value: Option<String>)
        ensures
            final(self).src() == old(self).src(),
            final(self)@ == emit(
                old(self)@,
                token_type,
                match value {
                    Some(s) => Some(s@),
                    None => None,
                },
            ),
    {
        let position = self.position;
        self.tokens.push(Token { token_type, lexeme: value, position });
        self.clear_buffer();
        self.state_initial();
        proof {
            assert(self@.tokens =~= old(self)@.tokens.push(
                TokenModel {
                    kind: token_type,
                    lexeme: match value {
                        Some(s) => Some(s@),
                        None => None,
                    },
                    line: old(self)@.line,
                },
            ));
        }
    }

    /// Emits a token with no lexeme.
    fn add_token(&mut self, token_type: TokenType)
        ensures
            final(self).src() == old(self).src(),
            final(self)@ == emit(old(self)@, token_type, None),
    {
        self.add_token_with_value(token_type, None);
    }
}

} // verus!
