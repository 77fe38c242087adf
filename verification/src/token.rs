//! The lexical vocabulary: token kinds, lexical categories, and the
//! classified symbols that the token source hands to the grammar driver.

use vstd::prelude::*;
use crate::category::Category;
use crate::text::{signed_decimal_string, spec_signed_decimal};

verus! {

/// One token kind of the language.
///
/// A real literal is represented by its kind alone: the analysis is purely
/// static, so the numeric value of a real literal never matters to it, and
/// keeping the value outside the core lets the whole front end stay within
/// integer arithmetic.  An integer literal keeps its 32-bit value so that a
/// token stream records the program text faithfully.
#[derive(Debug, PartialEq)]
pub enum Token {
    // keywords
    Program,
    Var,
    Integer,
    Real,
    Boolean,
    Procedure,
    Begin,
    End,
    If,
    Then,
    Else,
    While,
    Do,
    Not,
    True,
    False,
    // delimiters
    Semicolon,
    Period,
    Colon,
    LParentheses,
    RParentheses,
    Comma,
    // operators
    Assign,
    Equal,
    NotEqual,
    GreaterThan,
    LessThan,
    GreaterThanOrEqual,
    LessThanOrEqual,
    And,
    Or,
    Add,
    Sub,
    Mult,
    Div,
    // literals
    LitInt(i32),
    LitReal,
    LitStr(String),
    /// End-of-input marker.
    Empty,
}

/// The lexical category of a token, used for dispatch on one-token
/// lookahead.
#[derive(Debug, Clone, Copy, PartialEq, Eq, Structural)]
pub enum Type {
    Keyword,
    Identifier,
    IntLiteral,
    RealLiteral,
    Delimiter,
    /// The assignment operator `:=`.
    Command,
    RelOperator,
    AddOperator,
    MulOperator,
    Eof,
}

/// One classified symbol of the input stream: a token kind, its lexical
/// category, and the 1-based source line it was read from.
#[derive(Debug, PartialEq)]
pub struct Symbol {
    pub token: Token,
    pub category: Type,
    pub line: u32,
}

/// The canonical surface spelling of a token, as diagnostics render it.
pub open spec fn spec_spelling(t: Token) -> Seq<char> {
    match t {
        Token::Program => "program"@,
        Token::Var => "var"@,
        Token::Integer => "integer"@,
        Token::Real => "real"@,
        Token::Boolean => "boolean"@,
        Token::Procedure => "procedure"@,
        Token::Begin => "begin"@,
        Token::End => "end"@,
        Token::If => "if"@,
        Token::Then => "then"@,
        Token::Else => "else"@,
        Token::While => "while"@,
        Token::Do => "do"@,
        Token::Not => "not"@,
        Token::True => "true"@,
        Token::False => "false"@,
        Token::Semicolon => ";"@,
        Token::Period => "."@,
        Token::Colon => ":"@,
        Token::LParentheses => "("@,
        Token::RParentheses => ")"@,
        Token::Comma => ","@,
        Token::Assign => ":="@,
        Token::Equal => "="@,
        Token::NotEqual => "<>"@,
        Token::GreaterThan => ">"@,
        Token::LessThan => "<"@,
        Token::GreaterThanOrEqual => ">="@,
        Token::LessThanOrEqual => "<="@,
        Token::And => "and"@,
        Token::Or => "or"@,
        Token::Add => "+"@,
        Token::Sub => "-"@,
        Token::Mult => "*"@,
        Token::Div => "/"@,
        Token::LitInt(i) => spec_signed_decimal(i as int),
        Token::LitReal => "real literal"@,
        Token::LitStr(s) => s@,
        Token::Empty => "EOF"@,
    }
}

impl Token {
    /// Renders this token's canonical surface spelling.
    pub fn spelling(&self) -> (r: String)
        ensures
            r@ == spec_spelling(*self),
    {
        match self {
            Token::Program => String::from_str("program"),
            Token::Var => String::from_str("var"),
            Token::Integer => String::from_str("integer"),
            Token::Real => String::from_str("real"),
            Token::Boolean => String::from_str("boolean"),
            Token::Procedure => String::from_str("procedure"),
            Token::Begin => String::from_str("begin"),
            Token::End => String::from_str("end"),
            Token::If => String::from_str("if"),
            Token::Then => String::from_str("then"),
            Token::Else => String::from_str("else"),
            Token::While => String::from_str("while"),
            Token::Do => String::from_str("do"),
            Token::Not => String::from_str("not"),
            Token::True => String::from_str("true"),
            Token::False => String::from_str("false"),
            Token::Semicolon => String::from_str(";"),
            Token::Period => String::from_str("."),
            Token::Colon => String::from_str(":"),
            Token::LParentheses => String::from_str("("),
            Token::RParentheses => String::from_str(")"),
            Token::Comma => String::from_str(","),
            Token::Assign => String::from_str(":="),
            Token::Equal => String::from_str("="),
            Token::NotEqual => String::from_str("<>"),
            Token::GreaterThan => String::from_str(">"),
            Token::LessThan => String::from_str("<"),
            Token::GreaterThanOrEqual => String::from_str(">="),
            Token::LessThanOrEqual => String::from_str("<="),
            Token::And => String::from_str("and"),
            Token::Or => String::from_str("or"),
            Token::Add => String::from_str("+"),
            Token::Sub => String::from_str("-"),
            Token::Mult => String::from_str("*"),
            Token::Div => String::from_str("/"),
            Token::LitInt(i) => signed_decimal_string(*i),
            Token::LitReal => String::from_str("real literal"),
            Token::LitStr(s) => s.clone(),
            Token::Empty => String::from_str("EOF"),
        }
    }

    /// Copies this token.  Written out by hand so that verified callers
    /// know the copy equals the original.
    pub fn duplicate(&self) -> (r: Token)
        ensures
            r == *self,
    {
        match self {
            Token::Program => Token::Program,
            Token::Var => Token::Var,
            Token::Integer => Token::Integer,
            Token::Real => Token::Real,
            Token::Boolean => Token::Boolean,
            Token::Procedure => Token::Procedure,
            Token::Begin => Token::Begin,
            Token::End => Token::End,
            Token::If => Token::If,
            Token::Then => Token::Then,
            Token::Else => Token::Else,
            Token::While => Token::While,
            Token::Do => Token::Do,
            Token::Not => Token::Not,
            Token::True => Token::True,
            Token::False => Token::False,
            Token::Semicolon => Token::Semicolon,
            Token::Period => Token::Period,
            Token::Colon => Token::Colon,
            Token::LParentheses => Token::LParentheses,
            Token::RParentheses => Token::RParentheses,
            Token::Comma => Token::Comma,
            Token::Assign => Token::Assign,
            Token::Equal => Token::Equal,
            Token::NotEqual => Token::NotEqual,
            Token::GreaterThan => Token::GreaterThan,
            Token::LessThan => Token::LessThan,
            Token::GreaterThanOrEqual => Token::GreaterThanOrEqual,
            Token::LessThanOrEqual => Token::LessThanOrEqual,
            Token::And => Token::And,
            Token::Or => Token::Or,
            Token::Add => Token::Add,
            Token::Sub => Token::Sub,
            Token::Mult => Token::Mult,
            Token::Div => Token::Div,
            Token::LitInt(i) => Token::LitInt(*i),
            Token::LitReal => Token::LitReal,
            Token::LitStr(s) => Token::LitStr(s.clone()),
            Token::Empty => Token::Empty,
        }
    }
}

impl Symbol {
    /// Copies this symbol.
    pub fn duplicate(&self) -> (r: Symbol)
        ensures
            r == *self,
    {
        Symbol { token: self.token.duplicate(), category: self.category, line: self.line }
    }
}

/// The lexical category that classifies each token kind; a symbol is
/// well formed when it carries exactly this category.
pub open spec fn spec_category_of(t: Token) -> Type {
    match t {
        Token::Program => Type::Keyword,
        Token::Var => Type::Keyword,
        Token::Integer => Type::Keyword,
        Token::Real => Type::Keyword,
        Token::Boolean => Type::Keyword,
        Token::Procedure => Type::Keyword,
        Token::Begin => Type::Keyword,
        Token::End => Type::Keyword,
        Token::If => Type::Keyword,
        Token::Then => Type::Keyword,
        Token::Else => Type::Keyword,
        Token::While => Type::Keyword,
        Token::Do => Type::Keyword,
        Token::Not => Type::Keyword,
        Token::True => Type::Keyword,
        Token::False => Type::Keyword,
        Token::Semicolon => Type::Delimiter,
        Token::Period => Type::Delimiter,
        Token::Colon => Type::Delimiter,
        Token::LParentheses => Type::Delimiter,
        Token::RParentheses => Type::Delimiter,
        Token::Comma => Type::Delimiter,
        Token::Assign => Type::Command,
        Token::Equal => Type::RelOperator,
        Token::NotEqual => Type::RelOperator,
        Token::GreaterThan => Type::RelOperator,
        Token::LessThan => Type::RelOperator,
        Token::GreaterThanOrEqual => Type::RelOperator,
        Token::LessThanOrEqual => Type::RelOperator,
        Token::And => Type::MulOperator,
        Token::Or => Type::AddOperator,
        Token::Add => Type::AddOperator,
        Token::Sub => Type::AddOperator,
        Token::Mult => Type::MulOperator,
        Token::Div => Type::MulOperator,
        Token::LitInt(i) => Type::IntLiteral,
        Token::LitReal => Type::RealLiteral,
        Token::LitStr(s) => Type::Identifier,
        Token::Empty => Type::Eof,
    }
}

/// A symbol is well formed when its category classifies its token kind.
pub open spec fn wf_symbol(s: Symbol) -> bool {
    s.category == spec_category_of(s.token)
}

/// Every symbol of a stream is well formed.
pub open spec fn wf_symbols(toks: Seq<Symbol>) -> bool {
    forall|i: int| 0 <= i < toks.len() ==> wf_symbol(#[trigger] toks[i])
}

/// The semantic category denoted by a type keyword.
pub open spec fn category_of_type_token(t: Token) -> Category {
    match t {
        Token::Integer => Category::Integer,
        Token::Real => Category::Real,
        Token::Boolean => Category::Boolean,
        _ => Category::Undefined,
    }
}

/// Classifies a token kind.
pub fn category_of(t: &Token) -> (c: Type)
    ensures
        c == spec_category_of(*t),
{
    match t {
        Token::Program => Type::Keyword,
        Token::Var => Type::Keyword,
        Token::Integer => Type::Keyword,
        Token::Real => Type::Keyword,
        Token::Boolean => Type::Keyword,
        Token::Procedure => Type::Keyword,
        Token::Begin => Type::Keyword,
        Token::End => Type::Keyword,
        Token::If => Type::Keyword,
        Token::Then => Type::Keyword,
        Token::Else => Type::Keyword,
        Token::While => Type::Keyword,
        Token::Do => Type::Keyword,
        Token::Not => Type::Keyword,
        Token::True => Type::Keyword,
        Token::False => Type::Keyword,
        Token::Semicolon => Type::Delimiter,
        Token::Period => Type::Delimiter,
        Token::Colon => Type::Delimiter,
        Token::LParentheses => Type::Delimiter,
        Token::RParentheses => Type::Delimiter,
        Token::Comma => Type::Delimiter,
        Token::Assign => Type::Command,
        Token::Equal => Type::RelOperator,
        Token::NotEqual => Type::RelOperator,
        Token::GreaterThan => Type::RelOperator,
        Token::LessThan => Type::RelOperator,
        Token::GreaterThanOrEqual => Type::RelOperator,
        Token::LessThanOrEqual => Type::RelOperator,
        Token::And => Type::MulOperator,
        Token::Or => Type::AddOperator,
        Token::Add => Type::AddOperator,
        Token::Sub => Type::AddOperator,
        Token::Mult => Type::MulOperator,
        Token::Div => Type::MulOperator,
        Token::LitInt(_) => Type::IntLiteral,
        Token::LitReal => Type::RealLiteral,
        Token::LitStr(_) => Type::Identifier,
        Token::Empty => Type::Eof,
    }
}

impl Symbol {
    /// Builds a well-formed symbol: the lexical category is computed from
    /// the token kind.
    pub fn classified(token: Token, line: u32) -> (s: Symbol)
        ensures
            s.token == token,
            s.line == line,
            wf_symbol(s),
    {
        let category = category_of(&token);
        Symbol { token, category, line }
    }
}

} // verus!
