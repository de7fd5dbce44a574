//! The lexer: source text to an ordered, finite token sequence ending
//! in an end-of-file token.

use vstd::prelude::*;

use crate::assets::push_char;
use crate::token::{Operator, Token, TokenType, Type};

verus! {

/// An error of the lexer, with the line it arose on.
#[derive(Debug, Clone, PartialEq)]
pub enum LexError {
    UnterminatedString(usize),
    UnexpectedCharacter(char, usize),
}

/// Whether a character is an ASCII digit.
pub open spec fn digit_char(c: char) -> bool {
    ('0' as u32) <= (c as u32) && (c as u32) <= ('9' as u32)
}

/// Whether a character may start an identifier.
pub open spec fn alpha_char(c: char) -> bool {
    (('a' as u32) <= (c as u32) && (c as u32) <= ('z' as u32)) || (('A' as u32) <= (c as u32) && (
    c as u32) <= ('Z' as u32)) || c == '_'
}

/// The keyword token of a word, where one exists.
pub open spec fn keyword_of(s: Seq<char>) -> Option<TokenType> {
    if s == "if"@ {
        Option::Some(TokenType::If)
    } else if s == "else"@ {
        Option::Some(TokenType::Else)
    } else if s == "and"@ {
        Option::Some(TokenType::And)
    } else if s == "or"@ {
        Option::Some(TokenType::Or)
    } else if s == "break"@ {
        Option::Some(TokenType::Break)
    } else if s == "continue"@ {
        Option::Some(TokenType::Continue)
    } else if s == "return"@ {
        Option::Some(TokenType::Return)
    } else if s == "while"@ {
        Option::Some(TokenType::While)
    } else if s == "for"@ {
        Option::Some(TokenType::For)
    } else if s == "function"@ {
        Option::Some(TokenType::Function)
    } else if s == "event"@ {
        Option::Some(TokenType::Event)
    } else if s == "true"@ {
        Option::Some(TokenType::Bool(true))
    } else if s == "false"@ {
        Option::Some(TokenType::Bool(false))
    } else if s == "let"@ {
        Option::Some(TokenType::Let)
    } else if s == "number"@ {
        Option::Some(TokenType::Type(Type::Number))
    } else if s == "string"@ {
        Option::Some(TokenType::Type(Type::String))
    } else if s == "bool"@ {
        Option::Some(TokenType::Type(Type::Bool))
    } else if s == "table"@ {
        Option::Some(TokenType::Type(Type::Table))
    } else if s == "void"@ {
        Option::Some(TokenType::Type(Type::Void))
    } else {
        Option::None
    }
}

/// The lexer state: the source as characters, the tokens read so far,
/// the start of the token being read, the read position, and the
/// current line.
pub struct Lexer {
    pub source: Vec<char>,
    pub tokens: Vec<Token>,
    pub start: usize,
    pub current: usize,
    pub line: usize,
}

impl Lexer {
    /// The read position never passes the end of the source.
    pub open spec fn wf(&self) -> bool {
        self.current <= self.source@.len()
    }

    /// A lexer over the characters of `source`, positioned at its
    /// start.
    pub fn new(source: &String) -> (l: Lexer)
        ensures
            l.source@ == source@,
            l.tokens@.len() == 0,
            l.start == 0,
            l.current == 0,
            l.line == 1,
            l.wf(),
    {
        let s = source.as_str();
        let n = s.unicode_len();
        let mut chars: Vec<char> = Vec::new();
        let mut i: usize = 0;
        while i < n
            invariant
                i <= n,
                n == source@.len(),
                s@ == source@,
                chars@ == source@.take(i as int),
            decreases n - i,
        {
            chars.push(s.get_char(i));
            proof {
                assert(chars@ =~= source@.take(i as int + 1));
            }
            i = i + 1;
        }
        proof {
            assert(source@.take(n as int) =~= source@);
        }
        Lexer { source: chars, tokens: Vec::new(), start: 0, current: 0, line: 1 }
    }

    fn is_at_end(&self) -> (r: bool)
        ensures
            r == (self.current >= self.source@.len()),
    {
        self.current >= self.source.len()
    }

    fn is_digit(&self, c: char) -> (r: bool)
        ensures
            r == digit_char(c),
    {
        match c {
            '0'..='9' => true,
            _ => false,
        }
    }

    fn is_alpha(&self, c: char) -> (r: bool)
        ensures
            r == alpha_char(c),
    {
        match c {
            'a'..='z' | 'A'..='Z' | '_' => true,
            _ => false,
        }
    }

    fn is_alpha_numeric(&self, c: char) -> (r: bool)
        ensures
            r == (digit_char(c) || alpha_char(c)),
    {
        self.is_digit(c) || self.is_alpha(c)
    }

    /// Consume and return the character at the read position.
    fn advance(&mut self) -> (c: char)
        requires
            old(self).current < old(self).source@.len(),
        ensures
            c == old(self).source@[old(self).current as int],
            final(self).current == old(self).current + 1,
            final(self).source == old(self).source,
            final(self).tokens == old(self).tokens,
            final(self).start == old(self).start,
            final(self).line == old(self).line,
            final(self).wf(),
    {
        let c = self.source[self.current];
        let n = self.source.len();
        proof {
            assert(self.current < n);
        }
        self.current = self.current + 1;
        c
    }

    /// The character at the read position, or a sentinel at the end.
    fn peek(&self) -> (c: char)
        ensures
            c == (if self.current < self.source@.len() {
                self.source@[self.current as int]
            } else {
                '\0'
            }),
    {
        if self.current < self.source.len() {
            self.source[self.current]
        } else {
            '\0'
        }
    }

    /// The character one past the read position, or a sentinel.
    fn peek_next(&self) -> (c: char)
        requires
            self.wf(),
        ensures
            c == (if self.current + 1 < self.source@.len() {
                self.source@[self.current as int + 1]
            } else {
                '\0'
            }),
    {
        if self.current >= self.source.len() {
            '\0'
        } else if self.current + 1 < self.source.len() {
            self.source[self.current + 1]
        } else {
            '\0'
        }
    }

    /// Consume the next character exactly when it equals `expected`.
    fn compare(&mut self, expected: char) -> (r: bool)
        requires
            old(self).wf(),
        ensures
            r == (old(self).current < old(self).source@.len() && old(self).source@[old(
                self,
            ).current as int] == expected),
            final(self).current == (if r {
                old(self).current + 1
            } else {
                old(self).current as int
            }),
            final(self).source == old(self).source,
            final(self).tokens == old(self).tokens,
            final(self).start == old(self).start,
            final(self).line == old(self).line,
            final(self).wf(),
    {
        if self.is_at_end() {
            return false;
        }
        if self.peek() != expected {
            return false;
        }
        let n = self.source.len();
        proof {
            assert(self.current < n);
        }
        self.current = self.current + 1;
        true
    }

    /// Append one token at the current line.
    fn add_token(&mut self, t: TokenType)
        ensures
            final(self).tokens@ == old(self).tokens@.push(
                Token { token_type: t, line: old(self).line },
            ),
            final(self).source == old(self).source,
            final(self).current == old(self).current,
            final(self).start == old(self).start,
            final(self).line == old(self).line,
    {
        let line = self.line;
        self.tokens.push(Token::new(t, line));
    }

    /// Append `matches` when the next character is `expected`, else
    /// `fails`.
    fn add_token_cond(&mut self, expected: char, matches_t: TokenType, fails: TokenType)
        requires
            old(self).wf(),
        ensures
            final(self).wf(),
            final(self).source == old(self).source,
            final(self).line == old(self).line,
            final(self).tokens@.len() == old(self).tokens@.len() + 1,
            final(self).current >= old(self).current,
    {
        if self.compare(expected) {
            self.add_token(matches_t);
        } else {
            self.add_token(fails);
        }
    }

    /// The keyword a word denotes, if any.
    fn string_to_keyword(&self, string: &String) -> (r: Option<TokenType>)
        ensures
            r == keyword_of(string@),
    {
        if *string == String::from_str("if") {
            Option::Some(TokenType::If)
        } else if *string == String::from_str("else") {
            Option::Some(TokenType::Else)
        } else if *string == String::from_str("and") {
            Option::Some(TokenType::And)
        } else if *string == String::from_str("or") {
            Option::Some(TokenType::Or)
        } else if *string == String::from_str("break") {
            Option::Some(TokenType::Break)
        } else if *string == String::from_str("continue") {
            Option::Some(TokenType::Continue)
        } else if *string == String::from_str("return") {
            Option::Some(TokenType::Return)
        } else if *string == String::from_str("while") {
            Option::Some(TokenType::While)
        } else if *string == String::from_str("for") {
            Option::Some(TokenType::For)
        } else if *string == String::from_str("function") {
            Option::Some(TokenType::Function)
        } else if *string == String::from_str("event") {
            Option::Some(TokenType::Event)
        } else if *string == String::from_str("true") {
            Option::Some(TokenType::Bool(true))
        } else if *string == String::from_str("false") {
            Option::Some(TokenType::Bool(false))
        } else if *string == String::from_str("let") {
            Option::Some(TokenType::Let)
        } else if *string == String::from_str("number") {
            Option::Some(TokenType::Type(Type::Number))
        } else if *string == String::from_str("string") {
            Option::Some(TokenType::Type(Type::String))
        } else if *string == String::from_str("bool") {
            Option::Some(TokenType::Type(Type::Bool))
        } else if *string == String::from_str("table") {
            Option::Some(TokenType::Type(Type::Table))
        } else if *string == String::from_str("void") {
            Option::Some(TokenType::Type(Type::Void))
        } else {
            Option::None
        }
    }

    /// The source characters between two positions, as a string.
    fn text_range(&self, lo: usize, hi: usize) -> (r: String)
        requires
            lo <= hi,
            hi <= self.source@.len(),
        ensures
            r@ == self.source@.subrange(lo as int, hi as int),
    {
        let mut r = String::new();
        let mut k: usize = lo;
        proof {
            assert(r@ =~= self.source@.subrange(lo as int, lo as int));
        }
        while k < hi
            invariant
                lo <= k <= hi,
                hi <= self.source@.len(),
                r@ == self.source@.subrange(lo as int, k as int),
            decreases hi - k,
        {
            push_char(&mut r, self.source[k]);
            proof {
                assert(r@ =~= self.source@.subrange(lo as int, k as int + 1));
            }
            k = k + 1;
        }
        r
    }

    fn bump_line(&mut self)
        ensures
            *final(self) == (Lexer {
                line: (if old(self).line < usize::MAX {
                    old(self).line + 1
                } else {
                    old(self).line as int
                }) as usize,
                ..*old(self)
            }),
    {
        if self.line < usize::MAX {
            self.line = self.line + 1;
        }
    }

    /// Read a string literal; the opening quote is already consumed.
    fn lex_string(&mut self) -> (r: Result<(), LexError>)
        requires
            old(self).wf(),
            old(self).start < old(self).current,
        ensures
            final(self).wf(),
            final(self).source == old(self).source,
            final(self).current >= old(self).current,
            r is Ok ==> final(self).tokens@.len() == old(self).tokens@.len() + 1,
            r is Ok ==> final(self).tokens@.last().token_type is String,
    {
        loop
            invariant
                self.wf(),
                self.source == old(self).source,
                self.tokens == old(self).tokens,
                self.start == old(self).start,
                self.start < self.current,
                self.current >= old(self).current,
            decreases self.source@.len() - self.current,
        {
            if self.is_at_end() {
                return Result::Err(LexError::UnterminatedString(self.line));
            }
            let c = self.peek();
            if c == '"' {
                self.advance();
                let lo = if self.start + 1 <= self.current - 1 {
                    self.start + 1
                } else {
                    self.current - 1
                };
                let text = self.text_range(lo, self.current - 1);
                self.add_token(TokenType::String(text));
                return Result::Ok(());
            }
            if c == '\n' {
                self.bump_line();
            }
            self.advance();
        }
    }

    /// Read a numeric literal, keeping its source text.
    fn lex_number(&mut self)
        requires
            old(self).wf(),
            old(self).start <= old(self).current,
        ensures
            final(self).wf(),
            final(self).source == old(self).source,
            final(self).line == old(self).line,
            final(self).current >= old(self).current,
            final(self).tokens@.len() == old(self).tokens@.len() + 1,
            final(self).tokens@.last().token_type is Number,
    {
        loop
            invariant
                self.wf(),
                self.source == old(self).source,
                self.tokens == old(self).tokens,
                self.line == old(self).line,
                self.start == old(self).start,
                self.start <= self.current,
                self.current >= old(self).current,
            decreases self.source@.len() - self.current,
        {
            let c = self.peek();
            if !self.is_digit(c) {
                break ;
            }
            self.advance();
        }
        if self.peek() == '.' && self.is_digit(self.peek_next()) {
            self.advance();
            loop
                invariant
                    self.wf(),
                    self.source == old(self).source,
                    self.tokens == old(self).tokens,
                    self.line == old(self).line,
                    self.start == old(self).start,
                    self.start <= self.current,
                    self.current >= old(self).current,
                decreases self.source@.len() - self.current,
            {
                let c = self.peek();
                if !self.is_digit(c) {
                    break ;
                }
                self.advance();
            }
        }
        let text = self.text_range(self.start, self.current);
        self.add_token(TokenType::Number(text));
    }

    /// Read an identifier or keyword.
    fn lex_identifier(&mut self)
        requires
            old(self).wf(),
            old(self).start <= old(self).current,
        ensures
            final(self).wf(),
            final(self).source == old(self).source,
            final(self).line == old(self).line,
            final(self).current >= old(self).current,
            final(self).tokens@.len() == old(self).tokens@.len() + 1,
    {
        loop
            invariant
                self.wf(),
                self.source == old(self).source,
                self.tokens == old(self).tokens,
                self.line == old(self).line,
                self.start == old(self).start,
                self.start <= self.current,
                self.current >= old(self).current,
            decreases self.source@.len() - self.current,
        {
            let c = self.peek();
            if !self.is_alpha_numeric(c) {
                break ;
            }
            self.advance();
        }
        let text = self.text_range(self.start, self.current);
        match self.string_to_keyword(&text) {
            Option::Some(t) => self.add_token(t),
            Option::None => self.add_token(TokenType::Ident(text)),
        }
    }

    /// Read one token (or skip whitespace or a comment) at the read
    /// position.
    pub fn lex_token(&mut self) -> (r: Result<(), LexError>)
        requires
            old(self).wf(),
            old(self).current < old(self).source@.len(),
            old(self).start == old(self).current,
        ensures
            final(self).wf(),
            final(self).source == old(self).source,
            final(self).current > old(self).current,
    {
        let c = self.advance();
        match c {
            '(' => {
                self.add_token(TokenType::LeftParen);
                Result::Ok(())
            },
            ')' => {
                self.add_token(TokenType::RightParen);
                Result::Ok(())
            },
            '[' => {
                self.add_token(TokenType::LeftBracket);
                Result::Ok(())
            },
            ']' => {
                self.add_token(TokenType::RightBracket);
                Result::Ok(())
            },
            '{' => {
                self.add_token(TokenType::LeftBrace);
                Result::Ok(())
            },
            '}' => {
                self.add_token(TokenType::RightBrace);
                Result::Ok(())
            },
            ',' => {
                self.add_token(TokenType::Comma);
                Result::Ok(())
            },
            '.' => {
                self.add_token(TokenType::Dot);
                Result::Ok(())
            },
            ';' => {
                self.add_token(TokenType::Semicolon);
                Result::Ok(())
            },
            ':' => {
                self.add_token(TokenType::Colon);
                Result::Ok(())
            },
            '+' => {
                self.add_token_cond(
                    '=',
                    TokenType::Operator(Operator::PlusEqual),
                    TokenType::Operator(Operator::Plus),
                );
                Result::Ok(())
            },
            '*' => {
                self.add_token_cond(
                    '=',
                    TokenType::Operator(Operator::StarEqual),
                    TokenType::Operator(Operator::Star),
                );
                Result::Ok(())
            },
            '^' => {
                self.add_token(TokenType::Operator(Operator::Caret));
                Result::Ok(())
            },
            '&' => {
                self.add_token_cond(
                    '&',
                    TokenType::Operator(Operator::And),
                    TokenType::Operator(Operator::Ampersand),
                );
                Result::Ok(())
            },
            '|' => {
                if self.compare('|') {
                    self.add_token(TokenType::Operator(Operator::Or));
                    Result::Ok(())
                } else {
                    Result::Err(LexError::UnexpectedCharacter('|', self.line))
                }
            },
            '!' => {
                self.add_token_cond(
                    '=',
                    TokenType::Operator(Operator::BangEqual),
                    TokenType::Operator(Operator::Bang),
                );
                Result::Ok(())
            },
            '=' => {
                self.add_token_cond(
                    '=',
                    TokenType::Operator(Operator::EqualEqual),
                    TokenType::Equal,
                );
                Result::Ok(())
            },
            '<' => {
                self.add_token_cond(
                    '=',
                    TokenType::Operator(Operator::LessEqual),
                    TokenType::Operator(Operator::Less),
                );
                Result::Ok(())
            },
            '>' => {
                self.add_token_cond(
                    '=',
                    TokenType::Operator(Operator::GreaterEqual),
                    TokenType::Operator(Operator::Greater),
                );
                Result::Ok(())
            },
            '-' => {
                if self.compare('>') {
                    self.add_token(TokenType::Arrow);
                } else if self.compare('=') {
                    self.add_token(TokenType::Operator(Operator::MinusEqual));
                } else {
                    self.add_token(TokenType::Operator(Operator::Minus));
                }
                Result::Ok(())
            },
            '/' => {
                if self.compare('/') {
                    loop
                        invariant
                            self.wf(),
                            self.source == old(self).source,
                            self.current > old(self).current,
                        decreases self.source@.len() - self.current,
                    {
                        if self.is_at_end() {
                            break ;
                        }
                        if self.peek() == '\n' {
                            break ;
                        }
                        self.advance();
                    }
                } else if self.compare('=') {
                    self.add_token(TokenType::Operator(Operator::SlashEqual));
                } else {
                    self.add_token(TokenType::Operator(Operator::Slash));
                }
                Result::Ok(())
            },
            '"' => self.lex_string(),
            '\t' | ' ' | '\r' => Result::Ok(()),
            '\n' => {
                self.bump_line();
                Result::Ok(())
            },
            '0'..='9' => {
                self.lex_number();
                Result::Ok(())
            },
            'a'..='z' | 'A'..='Z' | '_' => {
                self.lex_identifier();
                Result::Ok(())
            },
            _ => Result::Err(LexError::UnexpectedCharacter(c, self.line)),
        }
    }

    /// Read the whole source: an ordered, finite token sequence that
    /// ends in exactly one end-of-file token.
    pub fn lex(&mut self) -> (r: Result<Vec<Token>, LexError>)
        requires
            old(self).wf(),
        ensures
            match r {
                Result::Ok(toks) => toks@.len() >= 1 && toks@.last().token_type is EOF,
                Result::Err(_) => true,
            },
    {
        loop
            invariant
                self.wf(),
            decreases self.source@.len() - self.current,
        {
            if self.is_at_end() {
                break ;
            }
            self.start = self.current;
            match self.lex_token() {
                Result::Ok(()) => {},
                Result::Err(e) => {
                    return Result::Err(e);
                },
            }
        }
        self.add_token(TokenType::EOF);
        let mut out: Vec<Token> = Vec::new();
        core::mem::swap(&mut out, &mut self.tokens);
        Result::Ok(out)
    }
}

} // verus!
