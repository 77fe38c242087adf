//! Self-contained sample programs that drive the whole analyzer, one per
//! language feature group: procedures with parameters, conditionals, and
//! loops over expressions.  Each builds its token stream by hand and
//! reports whether the analyzer accepts it.

use vstd::prelude::*;
use crate::parser::Parser;
use crate::token::{wf_symbol, wf_symbols, Symbol, Token};

verus! {

/// Appends one classified symbol to a well-formed stream.
fn push_sym(v: &mut Vec<Symbol>, t: Token, line: u32)
    requires
        wf_symbols(old(v)@),
    ensures
        wf_symbols(final(v)@),
        final(v)@ == old(v)@.push(
            Symbol { token: t, category: crate::token::spec_category_of(t), line: line },
        ),
{
    let s = Symbol::classified(t, line);
    v.push(s);
    proof {
        assert forall|i: int| 0 <= i < v@.len() implies wf_symbol(#[trigger] v@[i]) by {
            if i < old(v)@.len() {
                assert(v@[i] == old(v)@[i]);
            }
        }
    }
}

/// A program with a parameterized procedure whose body assigns to its own
/// parameter:
/// `program p1; var x: integer; procedure q(a: integer); begin a := 1 end;
/// begin x := 2 end.`
pub fn test_parser_program10() -> bool {
    let mut v: Vec<Symbol> = Vec::new();
    push_sym(&mut v, Token::Program, 1);
    push_sym(&mut v, Token::LitStr(String::from_str("p1")), 1);
    push_sym(&mut v, Token::Semicolon, 1);
    push_sym(&mut v, Token::Var, 2);
    push_sym(&mut v, Token::LitStr(String::from_str("x")), 2);
    push_sym(&mut v, Token::Colon, 2);
    push_sym(&mut v, Token::Integer, 2);
    push_sym(&mut v, Token::Semicolon, 2);
    push_sym(&mut v, Token::Procedure, 3);
    push_sym(&mut v, Token::LitStr(String::from_str("q")), 3);
    push_sym(&mut v, Token::LParentheses, 3);
    push_sym(&mut v, Token::LitStr(String::from_str("a")), 3);
    push_sym(&mut v, Token::Colon, 3);
    push_sym(&mut v, Token::Integer, 3);
    push_sym(&mut v, Token::RParentheses, 3);
    push_sym(&mut v, Token::Semicolon, 3);
    push_sym(&mut v, Token::Begin, 4);
    push_sym(&mut v, Token::LitStr(String::from_str("a")), 4);
    push_sym(&mut v, Token::Assign, 4);
    push_sym(&mut v, Token::LitInt(1), 4);
    push_sym(&mut v, Token::End, 4);
    push_sym(&mut v, Token::Semicolon, 4);
    push_sym(&mut v, Token::Begin, 5);
    push_sym(&mut v, Token::LitStr(String::from_str("x")), 5);
    push_sym(&mut v, Token::Assign, 5);
    push_sym(&mut v, Token::LitInt(2), 5);
    push_sym(&mut v, Token::End, 5);
    push_sym(&mut v, Token::Period, 5);
    let mut p = Parser::new();
    p.build_ast(v).is_ok()
}

/// A program with a two-way conditional:
/// `program p2; var b: boolean; i: integer;
/// begin if b then i := 1 else i := 2 end.`
pub fn test_parser_program12() -> bool {
    let mut v: Vec<Symbol> = Vec::new();
    push_sym(&mut v, Token::Program, 1);
    push_sym(&mut v, Token::LitStr(String::from_str("p2")), 1);
    push_sym(&mut v, Token::Semicolon, 1);
    push_sym(&mut v, Token::Var, 2);
    push_sym(&mut v, Token::LitStr(String::from_str("b")), 2);
    push_sym(&mut v, Token::Colon, 2);
    push_sym(&mut v, Token::Boolean, 2);
    push_sym(&mut v, Token::Semicolon, 2);
    push_sym(&mut v, Token::LitStr(String::from_str("i")), 2);
    push_sym(&mut v, Token::Colon, 2);
    push_sym(&mut v, Token::Integer, 2);
    push_sym(&mut v, Token::Semicolon, 2);
    push_sym(&mut v, Token::Begin, 3);
    push_sym(&mut v, Token::If, 3);
    push_sym(&mut v, Token::LitStr(String::from_str("b")), 3);
    push_sym(&mut v, Token::Then, 3);
    push_sym(&mut v, Token::LitStr(String::from_str("i")), 3);
    push_sym(&mut v, Token::Assign, 3);
    push_sym(&mut v, Token::LitInt(1), 3);
    push_sym(&mut v, Token::Else, 3);
    push_sym(&mut v, Token::LitStr(String::from_str("i")), 3);
    push_sym(&mut v, Token::Assign, 3);
    push_sym(&mut v, Token::LitInt(2), 3);
    push_sym(&mut v, Token::End, 4);
    push_sym(&mut v, Token::Period, 4);
    let mut p = Parser::new();
    p.build_ast(v).is_ok()
}

/// A program with a loop over a mixed-category expression:
/// `program p3; var i: integer; r: real;
/// begin while i < 10 do r := r + i end.`
pub fn test_parser_program13() -> bool {
    let mut v: Vec<Symbol> = Vec::new();
    push_sym(&mut v, Token::Program, 1);
    push_sym(&mut v, Token::LitStr(String::from_str("p3")), 1);
    push_sym(&mut v, Token::Semicolon, 1);
    push_sym(&mut v, Token::Var, 2);
    push_sym(&mut v, Token::LitStr(String::from_str("i")), 2);
    push_sym(&mut v, Token::Colon, 2);
    push_sym(&mut v, Token::Integer, 2);
    push_sym(&mut v, Token::Semicolon, 2);
    push_sym(&mut v, Token::LitStr(String::from_str("r")), 2);
    push_sym(&mut v, Token::Colon, 2);
    push_sym(&mut v, Token::Real, 2);
    push_sym(&mut v, Token::Semicolon, 2);
    push_sym(&mut v, Token::Begin, 3);
    push_sym(&mut v, Token::While, 3);
    push_sym(&mut v, Token::LitStr(String::from_str("i")), 3);
    push_sym(&mut v, Token::LessThan, 3);
    push_sym(&mut v, Token::LitInt(10), 3);
    push_sym(&mut v, Token::Do, 3);
    push_sym(&mut v, Token::LitStr(String::from_str("r")), 3);
    push_sym(&mut v, Token::Assign, 3);
    push_sym(&mut v, Token::LitStr(String::from_str("r")), 3);
    push_sym(&mut v, Token::Add, 3);
    push_sym(&mut v, Token::LitStr(String::from_str("i")), 3);
    push_sym(&mut v, Token::End, 4);
    push_sym(&mut v, Token::Period, 4);
    let mut p = Parser::new();
    p.build_ast(v).is_ok()
}

} // verus!
