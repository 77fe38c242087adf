//! The error taxonomy of the analyzer and the diagnostic text each error
//! renders to.
//!
//! Every failure is fatal for the parse that raised it; the diagnostic
//! names the kind of expectation violated, the offending token in its
//! canonical surface spelling, and the 1-based source line it sits on.

use vstd::prelude::*;
use crate::category::Category;
use crate::text::{decimal_string, spec_decimal};
use crate::token::{spec_spelling, Token};

verus! {

/// What a syntax error was looking for when it met the wrong token.
#[derive(Debug, PartialEq)]
pub enum Expectation {
    /// A specific keyword, such as `program` or `begin`.
    Keyword(Token),
    /// A specific delimiter or operator token, such as `;` or `.`.
    Delimiter(Token),
    /// Any identifier.
    Identifier,
    /// One of the type keywords `integer`, `real`, `boolean`.
    TypeKeyword,
    /// A factor: an identifier, a literal, a parenthesized expression, or
    /// `not`.
    Factor,
}

/// A fatal analysis error.
#[derive(Debug, PartialEq)]
#[allow(inconsistent_fields)]
pub enum ParseError {
    /// The lookahead token fits no alternative of a required production.
    Syntax { expected: Expectation, found: Token, line: u32 },
    /// A declaration repeats a name of the open frame.
    AlreadyDeclared { name: String, line: u32 },
    /// A variable declaration reuses the program's or a procedure's name.
    ReservedName { name: String, line: u32 },
    /// An identifier is used without a declaration.
    NotDeclared { name: String, line: u32 },
    /// The right-hand side of an assignment is not acceptable to the
    /// target: `expected` is the target's own category.
    AssignMismatch { expected: Category, found: Category, line: u32 },
    /// `=` or `<>` met two different operand categories; `right` and
    /// `left` are quoted in the order the type stack yields them.
    EqualityMismatch { right: Category, left: Category, op: Token, line: u32 },
    /// An ordering operator met a non-numeric operand.
    RelationalMismatch { found: Category, op: Token, line: u32 },
    /// An arithmetic operator met a Boolean operand.
    ArithmeticMismatch { op: Token, line: u32 },
    /// `and` or `or` met a non-Boolean operand.
    LogicMismatch { op: Token, line: u32 },
}

/// How diagnostics spell a semantic category.
pub open spec fn spec_category_name(c: Category) -> Seq<char> {
    match c {
        Category::Integer => "Integer"@,
        Category::Real => "Real"@,
        Category::Boolean => "Boolean"@,
        Category::Procedure => "Procedure"@,
        Category::Program => "Program"@,
        Category::Sentinel => "Sentinel"@,
        Category::Undefined => "Undefined"@,
    }
}

/// Renders a semantic category as diagnostics spell it.
pub fn category_name(c: Category) -> (r: String)
    ensures
        r@ == spec_category_name(c),
{
    match c {
        Category::Integer => String::from_str("Integer"),
        Category::Real => String::from_str("Real"),
        Category::Boolean => String::from_str("Boolean"),
        Category::Procedure => String::from_str("Procedure"),
        Category::Program => String::from_str("Program"),
        Category::Sentinel => String::from_str("Sentinel"),
        Category::Undefined => String::from_str("Undefined"),
    }
}

/// The text of an expectation, as a syntax diagnostic quotes it.
pub open spec fn spec_expectation_text(x: Expectation) -> Seq<char> {
    match x {
        Expectation::Keyword(k) => "keyword '"@ + spec_spelling(k) + "'"@,
        Expectation::Delimiter(d) => "delimiter '"@ + spec_spelling(d) + "'"@,
        Expectation::Identifier => "identifier"@,
        Expectation::TypeKeyword => "type 'boolean' or 'integer' or 'real'"@,
        Expectation::Factor => "factor"@,
    }
}

impl Expectation {
    /// Renders this expectation as a syntax diagnostic quotes it.
    pub fn text(&self) -> (r: String)
        ensures
            r@ == spec_expectation_text(*self),
    {
        match self {
            Expectation::Keyword(k) => String::from_str("keyword '").concat(
                k.spelling().as_str(),
            ).concat("'"),
            Expectation::Delimiter(d) => String::from_str("delimiter '").concat(
                d.spelling().as_str(),
            ).concat("'"),
            Expectation::Identifier => String::from_str("identifier"),
            Expectation::TypeKeyword => String::from_str("type 'boolean' or 'integer' or 'real'"),
            Expectation::Factor => String::from_str("factor"),
        }
    }
}

/// The full diagnostic text of an error.
pub open spec fn spec_message(e: ParseError) -> Seq<char> {
    match e {
        ParseError::Syntax { expected, found, line } => "Expected "@ + spec_expectation_text(
            expected,
        ) + " found '"@ + spec_spelling(found) + "' => line "@ + spec_decimal(line as nat),
        ParseError::AlreadyDeclared { name, line } => "Identifier '"@ + name@
            + "' already declared => line "@ + spec_decimal(line as nat),
        ParseError::ReservedName { name, line } => "Variable '"@ + name@
            + "' collides with the name of the program or a procedure => line "@ + spec_decimal(
            line as nat,
        ),
        ParseError::NotDeclared { name, line } => "Identifier '"@ + name@
            + "' not declared => line "@ + spec_decimal(line as nat),
        ParseError::AssignMismatch { expected, found, line } => "Mismatched types expected "@
            + spec_category_name(expected) + " found "@ + spec_category_name(found) + " => line "@
            + spec_decimal(line as nat),
        ParseError::EqualityMismatch { right, left, op, line } => "Mismatched types "@
            + spec_category_name(right) + " is different from "@ + spec_category_name(left)
            + " for '"@ + spec_spelling(op) + "' => line "@ + spec_decimal(line as nat),
        ParseError::RelationalMismatch { found, op, line } => "Type "@ + spec_category_name(found)
            + " doesn't support relational operator '"@ + spec_spelling(op) + "' => line "@
            + spec_decimal(line as nat),
        ParseError::ArithmeticMismatch { op, line } => "Type Boolean doesn't support arithmetic operator '"@
            + spec_spelling(op) + "' => line "@ + spec_decimal(line as nat),
        ParseError::LogicMismatch { op, line } => "Logic operator '"@ + spec_spelling(op)
            + "' only supports Boolean operands => line "@ + spec_decimal(line as nat),
    }
}

impl ParseError {
    /// Renders the diagnostic text of this error.
    pub fn message(&self) -> (r: String)
        ensures
            r@ == spec_message(*self),
    {
        match self {
            ParseError::Syntax { expected, found, line } => String::from_str("Expected ").concat(
                expected.text().as_str(),
            ).concat(" found '").concat(found.spelling().as_str()).concat("' => line ").concat(
                decimal_string(*line).as_str(),
            ),
            ParseError::AlreadyDeclared { name, line } => String::from_str("Identifier '").concat(
                name.as_str(),
            ).concat("' already declared => line ").concat(decimal_string(*line).as_str()),
            ParseError::ReservedName { name, line } => String::from_str("Variable '").concat(
                name.as_str(),
            ).concat("' collides with the name of the program or a procedure => line ").concat(
                decimal_string(*line).as_str(),
            ),
            ParseError::NotDeclared { name, line } => String::from_str("Identifier '").concat(
                name.as_str(),
            ).concat("' not declared => line ").concat(decimal_string(*line).as_str()),
            ParseError::AssignMismatch { expected, found, line } => String::from_str(
                "Mismatched types expected ",
            ).concat(category_name(*expected).as_str()).concat(" found ").concat(
                category_name(*found).as_str(),
            ).concat(" => line ").concat(decimal_string(*line).as_str()),
            ParseError::EqualityMismatch { right, left, op, line } => String::from_str(
                "Mismatched types ",
            ).concat(category_name(*right).as_str()).concat(" is different from ").concat(
                category_name(*left).as_str(),
            ).concat(" for '").concat(op.spelling().as_str()).concat("' => line ").concat(
                decimal_string(*line).as_str(),
            ),
            ParseError::RelationalMismatch { found, op, line } => String::from_str("Type ").concat(
                category_name(*found).as_str(),
            ).concat(" doesn't support relational operator '").concat(
                op.spelling().as_str(),
            ).concat("' => line ").concat(decimal_string(*line).as_str()),
            ParseError::ArithmeticMismatch { op, line } => String::from_str(
                "Type Boolean doesn't support arithmetic operator '",
            ).concat(op.spelling().as_str()).concat("' => line ").concat(
                decimal_string(*line).as_str(),
            ),
            ParseError::LogicMismatch { op, line } => String::from_str("Logic operator '").concat(
                op.spelling().as_str(),
            ).concat("' only supports Boolean operands => line ").concat(
                decimal_string(*line).as_str(),
            ),
        }
    }
}

} // verus!
