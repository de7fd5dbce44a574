//! The statement/expression tree of the source language, and the
//! recursive-descent parser that produces it from a token stream.

use vstd::prelude::*;

use crate::token::{Operator, Token, TokenType, Type};

verus! {

/// An expression. A numeric literal keeps its source text.
#[derive(Debug, PartialEq)]
pub enum Expr {
    Number(String),
    String(String),
    Identifier(String),
    Bool(bool),
    Binary(Box<Expr>, Operator, Box<Expr>),
    FunctionCall(String, Vec<Expr>),
}

/// An event a handler can react to.
#[derive(Debug, Clone, PartialEq)]
pub enum Event {
    FlagClicked,
    KeyPressed(Key),
}

/// A key named by a `key_pressed` event.
#[derive(Debug, Clone, Copy, PartialEq, Eq, Structural)]
pub enum Key {
    Any,
    Space,
    Up,
    Down,
    Left,
    Right,
    Char(char),
}

/// A compound-assignment operator; it desugars at the statement level
/// into `name = name <op> rhs`.
#[derive(Debug, Clone, Copy, PartialEq, Eq, Structural)]
pub enum MutationOperator {
    AddEqual,
    SubEqual,
    MultEqual,
    DivEqual,
}

/// A statement.
#[derive(Debug, PartialEq)]
pub enum Stmt {
    Expression(Expr),
    /// name, type, initializer
    VariableDeclaration(String, Type, Expr),
    VariableAssignment(String, Expr),
    VariableMutation(String, MutationOperator, Expr),
    /// name, parameters, body, return type
    FunctionDeclaration(String, Vec<(String, Type)>, Vec<Stmt>, Type),
    EventHandler(Event, Vec<Stmt>),
    FunctionCall(String, Vec<Expr>),
    /// condition, block if true, block if false
    If(Expr, Vec<Stmt>, Option<Vec<Stmt>>),
    While(Expr, Vec<Stmt>),
    Return(Expr),
}

/// An error of the parser: an unexpected token, with its line, or a
/// token stream that ended too early.
#[derive(Debug, Clone, Copy, PartialEq, Eq, Structural)]
pub enum ParseError {
    UnexpectedToken(usize),
    UnexpectedEnd,
}

/// The recursive-descent parser: a token stream and a read position.
pub struct Parser {
    pub tokens: Vec<Token>,
    pub position: usize,
}

impl Parser {
    /// The read position never passes the end of the stream.
    pub open spec fn wf(&self) -> bool {
        self.position <= self.tokens@.len()
    }

    /// A parser over the given tokens, positioned at the start.
    pub fn new(tokens: Vec<Token>) -> (p: Parser)
        ensures
            p.tokens == tokens,
            p.position == 0,
            p.wf(),
    {
        Parser { tokens, position: 0 }
    }

    /// The line of the current token, for error reports.
    fn here(&self) -> (r: usize) {
        if self.position < self.tokens.len() {
            self.tokens[self.position].line
        } else if self.tokens.len() > 0 {
            self.tokens[self.tokens.len() - 1].line
        } else {
            0
        }
    }

    /// Consume one token of the expected simple kind.
    fn eat_semicolon(&mut self) -> (r: Result<(), ParseError>)
        requires
            old(self).wf(),
        ensures
            final(self).tokens == old(self).tokens,
            final(self).wf(),
            r is Ok ==> final(self).position == old(self).position + 1,
    {
        if self.position >= self.tokens.len() {
            return Result::Err(ParseError::UnexpectedEnd);
        }
        match &self.tokens[self.position].token_type {
            TokenType::Semicolon => {
                self.position = self.position + 1;
                Result::Ok(())
            },
            _ => Result::Err(ParseError::UnexpectedToken(self.here())),
        }
    }

    fn eat_colon(&mut self) -> (r: Result<(), ParseError>)
        requires
            old(self).wf(),
        ensures
            final(self).tokens == old(self).tokens,
            final(self).wf(),
            r is Ok ==> final(self).position == old(self).position + 1,
    {
        if self.position >= self.tokens.len() {
            return Result::Err(ParseError::UnexpectedEnd);
        }
        match &self.tokens[self.position].token_type {
            TokenType::Colon => {
                self.position = self.position + 1;
                Result::Ok(())
            },
            _ => Result::Err(ParseError::UnexpectedToken(self.here())),
        }
    }

    fn eat_equal(&mut self) -> (r: Result<(), ParseError>)
        requires
            old(self).wf(),
        ensures
            final(self).tokens == old(self).tokens,
            final(self).wf(),
            r is Ok ==> final(self).position == old(self).position + 1,
    {
        if self.position >= self.tokens.len() {
            return Result::Err(ParseError::UnexpectedEnd);
        }
        match &self.tokens[self.position].token_type {
            TokenType::Equal => {
                self.position = self.position + 1;
                Result::Ok(())
            },
            _ => Result::Err(ParseError::UnexpectedToken(self.here())),
        }
    }

    fn eat_lparen(&mut self) -> (r: Result<(), ParseError>)
        requires
            old(self).wf(),
        ensures
            final(self).tokens == old(self).tokens,
            final(self).wf(),
            r is Ok ==> final(self).position == old(self).position + 1,
    {
        if self.position >= self.tokens.len() {
            return Result::Err(ParseError::UnexpectedEnd);
        }
        match &self.tokens[self.position].token_type {
            TokenType::LeftParen => {
                self.position = self.position + 1;
                Result::Ok(())
            },
            _ => Result::Err(ParseError::UnexpectedToken(self.here())),
        }
    }

    fn eat_rparen(&mut self) -> (r: Result<(), ParseError>)
        requires
            old(self).wf(),
        ensures
            final(self).tokens == old(self).tokens,
            final(self).wf(),
            r is Ok ==> final(self).position == old(self).position + 1,
    {
        if self.position >= self.tokens.len() {
            return Result::Err(ParseError::UnexpectedEnd);
        }
        match &self.tokens[self.position].token_type {
            TokenType::RightParen => {
                self.position = self.position + 1;
                Result::Ok(())
            },
            _ => Result::Err(ParseError::UnexpectedToken(self.here())),
        }
    }

    fn eat_arrow(&mut self) -> (r: Result<(), ParseError>)
        requires
            old(self).wf(),
        ensures
            final(self).tokens == old(self).tokens,
            final(self).wf(),
            r is Ok ==> final(self).position == old(self).position + 1,
    {
        if self.position >= self.tokens.len() {
            return Result::Err(ParseError::UnexpectedEnd);
        }
        match &self.tokens[self.position].token_type {
            TokenType::Arrow => {
                self.position = self.position + 1;
                Result::Ok(())
            },
            _ => Result::Err(ParseError::UnexpectedToken(self.here())),
        }
    }

    /// Consume a type annotation.
    fn eat_type(&mut self) -> (r: Result<Type, ParseError>)
        requires
            old(self).wf(),
        ensures
            final(self).tokens == old(self).tokens,
            final(self).wf(),
            r is Ok ==> final(self).position == old(self).position + 1,
    {
        if self.position >= self.tokens.len() {
            return Result::Err(ParseError::UnexpectedEnd);
        }
        match &self.tokens[self.position].token_type {
            TokenType::Type(t) => {
                let t = *t;
                self.position = self.position + 1;
                Result::Ok(t)
            },
            _ => Result::Err(ParseError::UnexpectedToken(self.here())),
        }
    }

    /// Consume an identifier and return its name.
    fn eat_ident(&mut self) -> (r: Result<String, ParseError>)
        requires
            old(self).wf(),
        ensures
            final(self).tokens == old(self).tokens,
            final(self).wf(),
            r is Ok ==> final(self).position == old(self).position + 1,
    {
        if self.position >= self.tokens.len() {
            return Result::Err(ParseError::UnexpectedEnd);
        }
        match &self.tokens[self.position].token_type {
            TokenType::Ident(name) => {
                let name = name.clone();
                self.position = self.position + 1;
                Result::Ok(name)
            },
            _ => Result::Err(ParseError::UnexpectedToken(self.here())),
        }
    }

    /// Whether the current token closes a parenthesis.
    fn at_rparen(&self) -> (r: bool)
        requires
            self.wf(),
        ensures
            r ==> self.position < self.tokens@.len(),
    {
        if self.position >= self.tokens.len() {
            return false;
        }
        match &self.tokens[self.position].token_type {
            TokenType::RightParen => true,
            _ => false,
        }
    }

    /// Parse a comma-separated argument list up to the closing
    /// parenthesis, which is consumed.
    fn parse_args(&mut self) -> (r: Result<Vec<Expr>, ParseError>)
        requires
            old(self).wf(),
        ensures
            final(self).tokens == old(self).tokens,
            final(self).wf(),
            r is Ok ==> final(self).position > old(self).position,
        decreases old(self).tokens@.len() - old(self).position, 1int,
    {
        let mut args: Vec<Expr> = Vec::new();
        loop
            invariant
                self.wf(),
                self.tokens == old(self).tokens,
                self.position >= old(self).position,
            decreases self.tokens@.len() - self.position,
        {
            if self.at_rparen() {
                break ;
            }
            let before = self.position;
            let e = match self.parse_expression() {
                Result::Ok(e) => e,
                Result::Err(er) => {
                    return Result::Err(er);
                },
            };
            args.push(e);
            if self.position >= self.tokens.len() {
                return Result::Err(ParseError::UnexpectedEnd);
            }
            match &self.tokens[self.position].token_type {
                TokenType::Comma => {
                    self.position = self.position + 1;
                },
                _ => {},
            }
        }
        match self.eat_rparen() {
            Result::Ok(()) => Result::Ok(args),
            Result::Err(er) => Result::Err(er),
        }
    }

    /// Parse one expression: a literal, an identifier, a call, or a
    /// parenthesized binary expression.
    pub fn parse_expression(&mut self) -> (r: Result<Expr, ParseError>)
        requires
            old(self).wf(),
        ensures
            final(self).tokens == old(self).tokens,
            final(self).wf(),
            r is Ok ==> final(self).position > old(self).position,
        decreases old(self).tokens@.len() - old(self).position, 0int,
    {
        if self.position >= self.tokens.len() {
            return Result::Err(ParseError::UnexpectedEnd);
        }
        match &self.tokens[self.position].token_type {
            TokenType::Number(t) => {
                let t = t.clone();
                self.position = self.position + 1;
                Result::Ok(Expr::Number(t))
            },
            TokenType::String(t) => {
                let t = t.clone();
                self.position = self.position + 1;
                Result::Ok(Expr::String(t))
            },
            TokenType::Bool(b) => {
                let b = *b;
                self.position = self.position + 1;
                Result::Ok(Expr::Bool(b))
            },
            TokenType::Ident(name) => {
                let name = name.clone();
                self.position = self.position + 1;
                if self.position < self.tokens.len() {
                    let open = match &self.tokens[self.position].token_type {
                        TokenType::LeftParen => true,
                        _ => false,
                    };
                    if open {
                        self.position = self.position + 1;
                        let args = match self.parse_args() {
                            Result::Ok(a) => a,
                            Result::Err(er) => {
                                return Result::Err(er);
                            },
                        };
                        return Result::Ok(Expr::FunctionCall(name, args));
                    }
                }
                Result::Ok(Expr::Identifier(name))
            },
            TokenType::LeftParen => {
                self.position = self.position + 1;
                let left = match self.parse_expression() {
                    Result::Ok(e) => e,
                    Result::Err(er) => {
                        return Result::Err(er);
                    },
                };
                if self.position >= self.tokens.len() {
                    return Result::Err(ParseError::UnexpectedEnd);
                }
                let op = match &self.tokens[self.position].token_type {
                    TokenType::Operator(op) => {
                        let op = *op;
                        self.position = self.position + 1;
                        op
                    },
                    _ => {
                        return Result::Err(ParseError::UnexpectedToken(self.here()));
                    },
                };
                let right = match self.parse_expression() {
                    Result::Ok(e) => e,
                    Result::Err(er) => {
                        return Result::Err(er);
                    },
                };
                match self.eat_rparen() {
                    Result::Ok(()) => Result::Ok(
                        Expr::Binary(Box::new(left), op, Box::new(right)),
                    ),
                    Result::Err(er) => Result::Err(er),
                }
            },
            _ => Result::Err(ParseError::UnexpectedToken(self.here())),
        }
    }

    /// Parse a braced block of statements; both braces are consumed.
    fn parse_block(&mut self) -> (r: Result<Vec<Stmt>, ParseError>)
        requires
            old(self).wf(),
        ensures
            final(self).tokens == old(self).tokens,
            final(self).wf(),
            r is Ok ==> final(self).position > old(self).position,
        decreases old(self).tokens@.len() - old(self).position, 1int,
    {
        if self.position >= self.tokens.len() {
            return Result::Err(ParseError::UnexpectedEnd);
        }
        match &self.tokens[self.position].token_type {
            TokenType::LeftBrace => {
                self.position = self.position + 1;
            },
            _ => {
                return Result::Err(ParseError::UnexpectedToken(self.here()));
            },
        }
        let mut body: Vec<Stmt> = Vec::new();
        loop
            invariant
                self.wf(),
                self.tokens == old(self).tokens,
                self.position > old(self).position,
            decreases self.tokens@.len() - self.position,
        {
            if self.position >= self.tokens.len() {
                return Result::Err(ParseError::UnexpectedEnd);
            }
            match &self.tokens[self.position].token_type {
                TokenType::RightBrace => {
                    self.position = self.position + 1;
                    return Result::Ok(body);
                },
                _ => {},
            }
            let s = match self.parse_statement() {
                Result::Ok(s) => s,
                Result::Err(er) => {
                    return Result::Err(er);
                },
            };
            body.push(s);
        }
    }

    /// Parse the key named inside a `key_pressed` event.
    fn parse_key(&mut self) -> (r: Result<Key, ParseError>)
        requires
            old(self).wf(),
        ensures
            final(self).tokens == old(self).tokens,
            final(self).wf(),
            r is Ok ==> final(self).position > old(self).position,
    {
        if self.position >= self.tokens.len() {
            return Result::Err(ParseError::UnexpectedEnd);
        }
        match &self.tokens[self.position].token_type {
            TokenType::Number(t) => {
                let t = t.clone();
                self.position = self.position + 1;
                if t.as_str().unicode_len() == 1 {
                    let c = t.as_str().get_char(0);
                    match c {
                        '0'..='9' => Result::Ok(Key::Char(c)),
                        _ => Result::Err(ParseError::UnexpectedToken(self.here())),
                    }
                } else {
                    Result::Err(ParseError::UnexpectedToken(self.here()))
                }
            },
            TokenType::Ident(name) => {
                let name = name.clone();
                self.position = self.position + 1;
                if name == String::from_str("any") {
                    Result::Ok(Key::Any)
                } else if name == String::from_str("space") {
                    Result::Ok(Key::Space)
                } else if name == String::from_str("up_arrow") {
                    Result::Ok(Key::Up)
                } else if name == String::from_str("down_arrow") {
                    Result::Ok(Key::Down)
                } else if name == String::from_str("left_arrow") {
                    Result::Ok(Key::Left)
                } else if name == String::from_str("right_arrow") {
                    Result::Ok(Key::Right)
                } else if name.as_str().unicode_len() == 1 {
                    let c = name.as_str().get_char(0);
                    match c {
                        'a'..='z' => Result::Ok(Key::Char(c)),
                        _ => Result::Err(ParseError::UnexpectedToken(self.here())),
                    }
                } else {
                    Result::Err(ParseError::UnexpectedToken(self.here()))
                }
            },
            _ => Result::Err(ParseError::UnexpectedToken(self.here())),
        }
    }

    /// Parse one statement.
    pub fn parse_statement(&mut self) -> (r: Result<Stmt, ParseError>)
        requires
            old(self).wf(),
        ensures
            final(self).tokens == old(self).tokens,
            final(self).wf(),
            r is Ok ==> final(self).position > old(self).position,
        decreases old(self).tokens@.len() - old(self).position, 2int,
    {
        if self.position >= self.tokens.len() {
            return Result::Err(ParseError::UnexpectedEnd);
        }
        match &self.tokens[self.position].token_type {
            TokenType::Let => {
                self.position = self.position + 1;
                let name = match self.eat_ident() {
                    Result::Ok(n) => n,
                    Result::Err(er) => {
                        return Result::Err(er);
                    },
                };
                match self.eat_colon() {
                    Result::Ok(()) => {},
                    Result::Err(er) => {
                        return Result::Err(er);
                    },
                }
                let ty = match self.eat_type() {
                    Result::Ok(t) => t,
                    Result::Err(er) => {
                        return Result::Err(er);
                    },
                };
                match self.eat_equal() {
                    Result::Ok(()) => {},
                    Result::Err(er) => {
                        return Result::Err(er);
                    },
                }
                let e = match self.parse_expression() {
                    Result::Ok(e) => e,
                    Result::Err(er) => {
                        return Result::Err(er);
                    },
                };
                match self.eat_semicolon() {
                    Result::Ok(()) => Result::Ok(Stmt::VariableDeclaration(name, ty, e)),
                    Result::Err(er) => Result::Err(er),
                }
            },
            TokenType::Function => {
                self.position = self.position + 1;
                let name = match self.eat_ident() {
                    Result::Ok(n) => n,
                    Result::Err(er) => {
                        return Result::Err(er);
                    },
                };
                match self.eat_lparen() {
                    Result::Ok(()) => {},
                    Result::Err(er) => {
                        return Result::Err(er);
                    },
                }
                let mut params: Vec<(String, Type)> = Vec::new();
                loop
                    invariant
                        self.wf(),
                        self.tokens == old(self).tokens,
                        self.position > old(self).position,
                    decreases self.tokens@.len() - self.position,
                {
                    if self.at_rparen() {
                        let n = self.tokens.len();
                        proof {
                            assert(self.position < n);
                        }
                        self.position = self.position + 1;
                        break ;
                    }
                    let pname = match self.eat_ident() {
                        Result::Ok(n) => n,
                        Result::Err(er) => {
                            return Result::Err(er);
                        },
                    };
                    match self.eat_colon() {
                        Result::Ok(()) => {},
                        Result::Err(er) => {
                            return Result::Err(er);
                        },
                    }
                    let pty = match self.eat_type() {
                        Result::Ok(t) => t,
                        Result::Err(er) => {
                            return Result::Err(er);
                        },
                    };
                    params.push((pname, pty));
                    if self.position < self.tokens.len() {
                        match &self.tokens[self.position].token_type {
                            TokenType::Comma => {
                                self.position = self.position + 1;
                            },
                            _ => {},
                        }
                    }
                }
                match self.eat_arrow() {
                    Result::Ok(()) => {},
                    Result::Err(er) => {
                        return Result::Err(er);
                    },
                }
                let ret = match self.eat_type() {
                    Result::Ok(t) => t,
                    Result::Err(er) => {
                        return Result::Err(er);
                    },
                };
                let body = match self.parse_block() {
                    Result::Ok(b) => b,
                    Result::Err(er) => {
                        return Result::Err(er);
                    },
                };
                Result::Ok(Stmt::FunctionDeclaration(name, params, body, ret))
            },
            TokenType::Event => {
                self.position = self.position + 1;
                let name = match self.eat_ident() {
                    Result::Ok(n) => n,
                    Result::Err(er) => {
                        return Result::Err(er);
                    },
                };
                let ev: Event;
                if name == String::from_str("flag_clicked") {
                    match self.eat_lparen() {
                        Result::Ok(()) => {},
                        Result::Err(er) => {
                            return Result::Err(er);
                        },
                    }
                    match self.eat_rparen() {
                        Result::Ok(()) => {},
                        Result::Err(er) => {
                            return Result::Err(er);
                        },
                    }
                    ev = Event::FlagClicked;
                } else if name == String::from_str("key_pressed") {
                    match self.eat_lparen() {
                        Result::Ok(()) => {},
                        Result::Err(er) => {
                            return Result::Err(er);
                        },
                    }
                    let key = match self.parse_key() {
                        Result::Ok(k) => k,
                        Result::Err(er) => {
                            return Result::Err(er);
                        },
                    };
                    match self.eat_rparen() {
                        Result::Ok(()) => {},
                        Result::Err(er) => {
                            return Result::Err(er);
                        },
                    }
                    ev = Event::KeyPressed(key);
                } else {
                    return Result::Err(ParseError::UnexpectedToken(self.here()));
                }
                let body = match self.parse_block() {
                    Result::Ok(b) => b,
                    Result::Err(er) => {
                        return Result::Err(er);
                    },
                };
                Result::Ok(Stmt::EventHandler(ev, body))
            },
            TokenType::If => {
                self.position = self.position + 1;
                let cond = match self.parse_expression() {
                    Result::Ok(e) => e,
                    Result::Err(er) => {
                        return Result::Err(er);
                    },
                };
                let tb = match self.parse_block() {
                    Result::Ok(b) => b,
                    Result::Err(er) => {
                        return Result::Err(er);
                    },
                };
                let mut fb: Option<Vec<Stmt>> = Option::None;
                if self.position < self.tokens.len() {
                    let has_else = match &self.tokens[self.position].token_type {
                        TokenType::Else => true,
                        _ => false,
                    };
                    if has_else {
                        self.position = self.position + 1;
                        let b = match self.parse_block() {
                            Result::Ok(b) => b,
                            Result::Err(er) => {
                                return Result::Err(er);
                            },
                        };
                        fb = Option::Some(b);
                    }
                }
                Result::Ok(Stmt::If(cond, tb, fb))
            },
            TokenType::While => {
                self.position = self.position + 1;
                let cond = match self.parse_expression() {
                    Result::Ok(e) => e,
                    Result::Err(er) => {
                        return Result::Err(er);
                    },
                };
                let body = match self.parse_block() {
                    Result::Ok(b) => b,
                    Result::Err(er) => {
                        return Result::Err(er);
                    },
                };
                Result::Ok(Stmt::While(cond, body))
            },
            TokenType::Return => {
                self.position = self.position + 1;
                let e = match self.parse_expression() {
                    Result::Ok(e) => e,
                    Result::Err(er) => {
                        return Result::Err(er);
                    },
                };
                match self.eat_semicolon() {
                    Result::Ok(()) => Result::Ok(Stmt::Return(e)),
                    Result::Err(er) => Result::Err(er),
                }
            },
            TokenType::Ident(name) => {
                let name = name.clone();
                self.position = self.position + 1;
                if self.position >= self.tokens.len() {
                    return Result::Err(ParseError::UnexpectedEnd);
                }
                match &self.tokens[self.position].token_type {
                    TokenType::LeftParen => {
                        self.position = self.position + 1;
                        let args = match self.parse_args() {
                            Result::Ok(a) => a,
                            Result::Err(er) => {
                                return Result::Err(er);
                            },
                        };
                        match self.eat_semicolon() {
                            Result::Ok(()) => Result::Ok(Stmt::FunctionCall(name, args)),
                            Result::Err(er) => Result::Err(er),
                        }
                    },
                    TokenType::Equal => {
                        self.position = self.position + 1;
                        let e = match self.parse_expression() {
                            Result::Ok(e) => e,
                            Result::Err(er) => {
                                return Result::Err(er);
                            },
                        };
                        match self.eat_semicolon() {
                            Result::Ok(()) => Result::Ok(Stmt::VariableAssignment(name, e)),
                            Result::Err(er) => Result::Err(er),
                        }
                    },
                    TokenType::Operator(op) => {
                        let mop = match op {
                            Operator::PlusEqual => MutationOperator::AddEqual,
                            Operator::MinusEqual => MutationOperator::SubEqual,
                            Operator::StarEqual => MutationOperator::MultEqual,
                            Operator::SlashEqual => MutationOperator::DivEqual,
                            _ => {
                                return Result::Err(ParseError::UnexpectedToken(self.here()));
                            },
                        };
                        self.position = self.position + 1;
                        let e = match self.parse_expression() {
                            Result::Ok(e) => e,
                            Result::Err(er) => {
                                return Result::Err(er);
                            },
                        };
                        match self.eat_semicolon() {
                            Result::Ok(()) => Result::Ok(Stmt::VariableMutation(name, mop, e)),
                            Result::Err(er) => Result::Err(er),
                        }
                    },
                    _ => Result::Err(ParseError::UnexpectedToken(self.here())),
                }
            },
            _ => Result::Err(ParseError::UnexpectedToken(self.here())),
        }
    }

    /// Parse the whole stream into top-level statements, up to the
    /// end-of-file token.
    pub fn parse(&mut self) -> (r: Result<Vec<Stmt>, ParseError>)
        requires
            old(self).wf(),
        ensures
            final(self).tokens == old(self).tokens,
            final(self).wf(),
    {
        let mut stmts: Vec<Stmt> = Vec::new();
        loop
            invariant
                self.wf(),
                self.tokens == old(self).tokens,
            decreases self.tokens@.len() - self.position,
        {
            if self.position >= self.tokens.len() {
                return Result::Ok(stmts);
            }
            match &self.tokens[self.position].token_type {
                TokenType::EOF => {
                    return Result::Ok(stmts);
                },
                _ => {},
            }
            let s = match self.parse_statement() {
                Result::Ok(s) => s,
                Result::Err(er) => {
                    return Result::Err(er);
                },
            };
            stmts.push(s);
        }
    }
}

} // verus!
