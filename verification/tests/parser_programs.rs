use pascalzim::category::Category;
use pascalzim::error::ParseError;
use pascalzim::parser::Parser;
use pascalzim::token::{Symbol, Token};

fn sym(t: Token, line: u32) -> Symbol {
    Symbol::classified(t, line)
}

fn id(name: &str, line: u32) -> Symbol {
    Symbol::classified(Token::LitStr(name.to_string()), line)
}

/// The token stream of
/// `program teste; var valor1: integer; valor2: real;
/// begin valor1 := 10; end.`
fn program6_tokens() -> Vec<Symbol> {
    vec![
        sym(Token::Program, 1),
        id("teste", 1),
        sym(Token::Semicolon, 1),
        sym(Token::Var, 2),
        id("valor1", 2),
        sym(Token::Colon, 2),
        sym(Token::Integer, 2),
        sym(Token::Semicolon, 2),
        id("valor2", 3),
        sym(Token::Colon, 3),
        sym(Token::Real, 3),
        sym(Token::Semicolon, 3),
        sym(Token::Begin, 4),
        id("valor1", 5),
        sym(Token::Assign, 5),
        sym(Token::LitInt(10), 5),
        sym(Token::Semicolon, 5),
        sym(Token::End, 6),
        sym(Token::Period, 6),
    ]
}

#[test]
fn test_parser_program6() {
    let mut p1: Parser = Parser::new();
    let res = p1.build_ast(program6_tokens());

    assert!(res.is_ok());
}

#[test]
fn test_stack() {
    let mut p1: Parser = Parser::new();
    let res = p1.build_ast(program6_tokens());
    for entry in p1.table.stack.iter() {
        println!("{:?}", entry);
    }
    assert!(res.is_ok());
}

#[test]
fn accepts_minimal_program() {
    // program p; var x: integer; begin x := 10 end.
    let toks = vec![
        sym(Token::Program, 1),
        id("p", 1),
        sym(Token::Semicolon, 1),
        sym(Token::Var, 1),
        id("x", 1),
        sym(Token::Colon, 1),
        sym(Token::Integer, 1),
        sym(Token::Semicolon, 1),
        sym(Token::Begin, 1),
        id("x", 1),
        sym(Token::Assign, 1),
        sym(Token::LitInt(10), 1),
        sym(Token::End, 1),
        sym(Token::Period, 1),
    ];
    let mut p = Parser::new();
    assert!(p.build_ast(toks).is_ok());
}

#[test]
fn missing_semicolon_after_header() {
    // program p var x: integer; begin x := 10; x := 10 end.
    let toks = vec![
        sym(Token::Program, 1),
        id("p", 1),
        sym(Token::Var, 1),
        id("x", 1),
        sym(Token::Colon, 1),
        sym(Token::Integer, 1),
        sym(Token::Semicolon, 1),
        sym(Token::Begin, 1),
        id("x", 1),
        sym(Token::Assign, 1),
        sym(Token::LitInt(10), 1),
        sym(Token::Semicolon, 1),
        id("x", 1),
        sym(Token::Assign, 1),
        sym(Token::LitInt(10), 1),
        sym(Token::End, 1),
        sym(Token::Period, 1),
    ];
    let mut p = Parser::new();
    let err = p.build_ast(toks).unwrap_err();
    assert_eq!(err.message(), "Expected delimiter ';' found 'var' => line 1");
}

#[test]
fn duplicate_declaration_same_var_block() {
    // program p; var x, x : integer; begin end.
    let toks = vec![
        sym(Token::Program, 1),
        id("p", 1),
        sym(Token::Semicolon, 1),
        sym(Token::Var, 2),
        id("x", 2),
        sym(Token::Comma, 2),
        id("x", 2),
        sym(Token::Colon, 2),
        sym(Token::Integer, 2),
        sym(Token::Semicolon, 2),
        sym(Token::Begin, 3),
        sym(Token::End, 3),
        sym(Token::Period, 3),
    ];
    let mut p = Parser::new();
    let err = p.build_ast(toks).unwrap_err();
    assert_eq!(
        err,
        ParseError::AlreadyDeclared { name: "x".to_string(), line: 2 }
    );
    assert_eq!(err.message(), "Identifier 'x' already declared => line 2");
}

#[test]
fn boolean_target_rejects_integer() {
    // program p; var b: boolean; begin b := 1 end.
    let toks = vec![
        sym(Token::Program, 1),
        id("p", 1),
        sym(Token::Semicolon, 1),
        sym(Token::Var, 1),
        id("b", 1),
        sym(Token::Colon, 1),
        sym(Token::Boolean, 1),
        sym(Token::Semicolon, 1),
        sym(Token::Begin, 2),
        id("b", 2),
        sym(Token::Assign, 2),
        sym(Token::LitInt(1), 2),
        sym(Token::End, 2),
        sym(Token::Period, 2),
    ];
    let mut p = Parser::new();
    let err = p.build_ast(toks).unwrap_err();
    assert_eq!(
        err,
        ParseError::AssignMismatch {
            expected: Category::Boolean,
            found: Category::Integer,
            line: 2,
        }
    );
    assert_eq!(
        err.message(),
        "Mismatched types expected Boolean found Integer => line 2"
    );
}

#[test]
fn integer_operand_widens_into_real_target() {
    // program p; var r: real; x: integer; begin r := x + 1 end.
    let toks = vec![
        sym(Token::Program, 1),
        id("p", 1),
        sym(Token::Semicolon, 1),
        sym(Token::Var, 1),
        id("r", 1),
        sym(Token::Colon, 1),
        sym(Token::Real, 1),
        sym(Token::Semicolon, 1),
        id("x", 1),
        sym(Token::Colon, 1),
        sym(Token::Integer, 1),
        sym(Token::Semicolon, 1),
        sym(Token::Begin, 2),
        id("r", 2),
        sym(Token::Assign, 2),
        id("x", 2),
        sym(Token::Add, 2),
        sym(Token::LitInt(1), 2),
        sym(Token::End, 2),
        sym(Token::Period, 2),
    ];
    let mut p = Parser::new();
    assert!(p.build_ast(toks).is_ok());
}

#[test]
fn real_expression_rejected_by_integer_target() {
    // program p; var x: integer; begin x := 2.5 end.
    let toks = vec![
        sym(Token::Program, 1),
        id("p", 1),
        sym(Token::Semicolon, 1),
        sym(Token::Var, 1),
        id("x", 1),
        sym(Token::Colon, 1),
        sym(Token::Integer, 1),
        sym(Token::Semicolon, 1),
        sym(Token::Begin, 2),
        id("x", 2),
        sym(Token::Assign, 2),
        sym(Token::LitReal, 2),
        sym(Token::End, 2),
        sym(Token::Period, 2),
    ];
    let mut p = Parser::new();
    let err = p.build_ast(toks).unwrap_err();
    assert_eq!(
        err.message(),
        "Mismatched types expected Integer found Real => line 2"
    );
}

#[test]
fn undeclared_identifier_in_expression() {
    // program p; var x: integer; begin x := y end.  (y on line 3)
    let toks = vec![
        sym(Token::Program, 1),
        id("p", 1),
        sym(Token::Semicolon, 1),
        sym(Token::Var, 2),
        id("x", 2),
        sym(Token::Colon, 2),
        sym(Token::Integer, 2),
        sym(Token::Semicolon, 2),
        sym(Token::Begin, 3),
        id("x", 3),
        sym(Token::Assign, 3),
        id("y", 3),
        sym(Token::End, 4),
        sym(Token::Period, 4),
    ];
    let mut p = Parser::new();
    let err = p.build_ast(toks).unwrap_err();
    assert_eq!(
        err,
        ParseError::NotDeclared { name: "y".to_string(), line: 3 }
    );
    assert_eq!(err.message(), "Identifier 'y' not declared => line 3");
}

/// The token stream of
/// `program p; var x: integer; procedure q; var x: boolean;
/// begin x := true end; begin x := <tail> end.`
/// where the main body's assignment right-hand side is given by `tail`.
fn shadowing_tokens(tail: Token) -> Vec<Symbol> {
    vec![
        sym(Token::Program, 1),
        id("p", 1),
        sym(Token::Semicolon, 1),
        sym(Token::Var, 2),
        id("x", 2),
        sym(Token::Colon, 2),
        sym(Token::Integer, 2),
        sym(Token::Semicolon, 2),
        sym(Token::Procedure, 3),
        id("q", 3),
        sym(Token::Semicolon, 3),
        sym(Token::Var, 4),
        id("x", 4),
        sym(Token::Colon, 4),
        sym(Token::Boolean, 4),
        sym(Token::Semicolon, 4),
        sym(Token::Begin, 5),
        id("x", 5),
        sym(Token::Assign, 5),
        sym(Token::True, 5),
        sym(Token::End, 5),
        sym(Token::Semicolon, 5),
        sym(Token::Begin, 6),
        id("x", 6),
        sym(Token::Assign, 6),
        sym(tail, 6),
        sym(Token::End, 6),
        sym(Token::Period, 6),
    ]
}

#[test]
fn inner_declaration_shadows_outer() {
    // Inside q, `x` is the inner boolean, so `x := true` type-checks; back
    // outside, `x` is the outer integer again, so `x := 1` type-checks.
    let mut p = Parser::new();
    assert!(p.build_ast(shadowing_tokens(Token::LitInt(1))).is_ok());
}

#[test]
fn outer_declaration_restored_after_procedure() {
    // After q's frame closes, `x` resolves to the outer integer, so the
    // boolean assignment that was fine inside q is now a type mismatch.
    let mut p = Parser::new();
    let err = p.build_ast(shadowing_tokens(Token::True)).unwrap_err();
    assert_eq!(
        err.message(),
        "Mismatched types expected Integer found Boolean => line 6"
    );
}

#[test]
fn redeclaration_allowed_in_nested_frame() {
    // Same spelling declared once per frame is fine (the shadowing
    // program declares x in both the program and procedure frames).
    let mut p = Parser::new();
    assert!(p.build_ast(shadowing_tokens(Token::LitInt(0))).is_ok());
}

#[test]
fn variable_with_program_name_rejected() {
    // program p; var p: integer; begin end.
    let toks = vec![
        sym(Token::Program, 1),
        id("p", 1),
        sym(Token::Semicolon, 1),
        sym(Token::Var, 2),
        id("p", 2),
        sym(Token::Colon, 2),
        sym(Token::Integer, 2),
        sym(Token::Semicolon, 2),
        sym(Token::Begin, 3),
        sym(Token::End, 3),
        sym(Token::Period, 3),
    ];
    let mut p = Parser::new();
    let err = p.build_ast(toks).unwrap_err();
    assert_eq!(
        err,
        ParseError::ReservedName { name: "p".to_string(), line: 2 }
    );
}

#[test]
fn variable_with_enclosing_procedure_name_rejected() {
    // program p; procedure q; var q: integer; begin end; begin end.
    let toks = vec![
        sym(Token::Program, 1),
        id("p", 1),
        sym(Token::Semicolon, 1),
        sym(Token::Procedure, 2),
        id("q", 2),
        sym(Token::Semicolon, 2),
        sym(Token::Var, 3),
        id("q", 3),
        sym(Token::Colon, 3),
        sym(Token::Integer, 3),
        sym(Token::Semicolon, 3),
        sym(Token::Begin, 4),
        sym(Token::End, 4),
        sym(Token::Semicolon, 4),
        sym(Token::Begin, 5),
        sym(Token::End, 5),
        sym(Token::Period, 5),
    ];
    let mut p = Parser::new();
    let err = p.build_ast(toks).unwrap_err();
    assert_eq!(
        err,
        ParseError::ReservedName { name: "q".to_string(), line: 3 }
    );
}

#[test]
fn boolean_operand_rejects_arithmetic() {
    // program p; var b: boolean; x: integer; begin x := b + 1 end.
    let toks = vec![
        sym(Token::Program, 1),
        id("p", 1),
        sym(Token::Semicolon, 1),
        sym(Token::Var, 1),
        id("b", 1),
        sym(Token::Colon, 1),
        sym(Token::Boolean, 1),
        sym(Token::Semicolon, 1),
        id("x", 1),
        sym(Token::Colon, 1),
        sym(Token::Integer, 1),
        sym(Token::Semicolon, 1),
        sym(Token::Begin, 2),
        id("x", 2),
        sym(Token::Assign, 2),
        id("b", 2),
        sym(Token::Add, 2),
        sym(Token::LitInt(1), 2),
        sym(Token::End, 2),
        sym(Token::Period, 2),
    ];
    let mut p = Parser::new();
    let err = p.build_ast(toks).unwrap_err();
    assert_eq!(
        err.message(),
        "Type Boolean doesn't support arithmetic operator '+' => line 2"
    );
}

#[test]
fn boolean_operand_rejects_multiplication() {
    // program p; var b: boolean; x: integer; begin x := 2 * b end.
    let toks = vec![
        sym(Token::Program, 1),
        id("p", 1),
        sym(Token::Semicolon, 1),
        sym(Token::Var, 1),
        id("b", 1),
        sym(Token::Colon, 1),
        sym(Token::Boolean, 1),
        sym(Token::Semicolon, 1),
        id("x", 1),
        sym(Token::Colon, 1),
        sym(Token::Integer, 1),
        sym(Token::Semicolon, 1),
        sym(Token::Begin, 2),
        id("x", 2),
        sym(Token::Assign, 2),
        sym(Token::LitInt(2), 2),
        sym(Token::Mult, 2),
        id("b", 2),
        sym(Token::End, 2),
        sym(Token::Period, 2),
    ];
    let mut p = Parser::new();
    let err = p.build_ast(toks).unwrap_err();
    assert_eq!(
        err.message(),
        "Type Boolean doesn't support arithmetic operator '*' => line 2"
    );
}

#[test]
fn integer_operands_reject_logical_and() {
    // program p; var b: boolean; begin b := 1 and 2 end.
    let toks = vec![
        sym(Token::Program, 1),
        id("p", 1),
        sym(Token::Semicolon, 1),
        sym(Token::Var, 1),
        id("b", 1),
        sym(Token::Colon, 1),
        sym(Token::Boolean, 1),
        sym(Token::Semicolon, 1),
        sym(Token::Begin, 2),
        id("b", 2),
        sym(Token::Assign, 2),
        sym(Token::LitInt(1), 2),
        sym(Token::And, 2),
        sym(Token::LitInt(2), 2),
        sym(Token::End, 2),
        sym(Token::Period, 2),
    ];
    let mut p = Parser::new();
    let err = p.build_ast(toks).unwrap_err();
    assert_eq!(
        err.message(),
        "Logic operator 'and' only supports Boolean operands => line 2"
    );
}

#[test]
fn integer_operand_rejects_logical_or() {
    // program p; var b: boolean; begin b := b or 1 end.
    let toks = vec![
        sym(Token::Program, 1),
        id("p", 1),
        sym(Token::Semicolon, 1),
        sym(Token::Var, 1),
        id("b", 1),
        sym(Token::Colon, 1),
        sym(Token::Boolean, 1),
        sym(Token::Semicolon, 1),
        sym(Token::Begin, 2),
        id("b", 2),
        sym(Token::Assign, 2),
        id("b", 2),
        sym(Token::Or, 2),
        sym(Token::LitInt(1), 2),
        sym(Token::End, 2),
        sym(Token::Period, 2),
    ];
    let mut p = Parser::new();
    let err = p.build_ast(toks).unwrap_err();
    assert_eq!(
        err.message(),
        "Logic operator 'or' only supports Boolean operands => line 2"
    );
}

#[test]
fn reparse_of_same_stream_is_accepted_twice() {
    // Fresh driver state each time: the same valid stream is accepted
    // twice, and a reused driver resets itself on the next analysis.
    let mut first = Parser::new();
    let mut second = Parser::new();
    assert!(first.build_ast(program6_tokens()).is_ok());
    assert!(second.build_ast(program6_tokens()).is_ok());
    assert!(first.build_ast(program6_tokens()).is_ok());
}

#[test]
fn equality_operands_must_match() {
    // program p; var b: boolean; begin b := 1 = b end.
    let toks = vec![
        sym(Token::Program, 1),
        id("p", 1),
        sym(Token::Semicolon, 1),
        sym(Token::Var, 1),
        id("b", 1),
        sym(Token::Colon, 1),
        sym(Token::Boolean, 1),
        sym(Token::Semicolon, 1),
        sym(Token::Begin, 2),
        id("b", 2),
        sym(Token::Assign, 2),
        sym(Token::LitInt(1), 2),
        sym(Token::Equal, 2),
        id("b", 2),
        sym(Token::End, 2),
        sym(Token::Period, 2),
    ];
    let mut p = Parser::new();
    let err = p.build_ast(toks).unwrap_err();
    assert_eq!(
        err.message(),
        "Mismatched types Boolean is different from Integer for '=' => line 2"
    );
}

#[test]
fn relational_operand_must_be_numeric() {
    // program p; var b: boolean; begin b := b < 1 end.
    let toks = vec![
        sym(Token::Program, 1),
        id("p", 1),
        sym(Token::Semicolon, 1),
        sym(Token::Var, 1),
        id("b", 1),
        sym(Token::Colon, 1),
        sym(Token::Boolean, 1),
        sym(Token::Semicolon, 1),
        sym(Token::Begin, 2),
        id("b", 2),
        sym(Token::Assign, 2),
        id("b", 2),
        sym(Token::LessThan, 2),
        sym(Token::LitInt(1), 2),
        sym(Token::End, 2),
        sym(Token::Period, 2),
    ];
    let mut p = Parser::new();
    let err = p.build_ast(toks).unwrap_err();
    assert_eq!(
        err.message(),
        "Type Boolean doesn't support relational operator '<' => line 2"
    );
}

#[test]
fn relational_result_is_boolean() {
    // program p; var b: boolean; x: integer; begin b := x < 1 end.
    let toks = vec![
        sym(Token::Program, 1),
        id("p", 1),
        sym(Token::Semicolon, 1),
        sym(Token::Var, 1),
        id("b", 1),
        sym(Token::Colon, 1),
        sym(Token::Boolean, 1),
        sym(Token::Semicolon, 1),
        id("x", 1),
        sym(Token::Colon, 1),
        sym(Token::Integer, 1),
        sym(Token::Semicolon, 1),
        sym(Token::Begin, 2),
        id("b", 2),
        sym(Token::Assign, 2),
        id("x", 2),
        sym(Token::LessThan, 2),
        sym(Token::LitInt(1), 2),
        sym(Token::End, 2),
        sym(Token::Period, 2),
    ];
    let mut p = Parser::new();
    assert!(p.build_ast(toks).is_ok());
}

#[test]
fn not_passes_operand_category_through() {
    // program p; var x: integer; begin x := not 1 end.
    // `not` neither checks nor transforms its operand's category, so the
    // Integer of the literal reaches the Integer target unchanged.
    let toks = vec![
        sym(Token::Program, 1),
        id("p", 1),
        sym(Token::Semicolon, 1),
        sym(Token::Var, 1),
        id("x", 1),
        sym(Token::Colon, 1),
        sym(Token::Integer, 1),
        sym(Token::Semicolon, 1),
        sym(Token::Begin, 2),
        id("x", 2),
        sym(Token::Assign, 2),
        sym(Token::Not, 2),
        sym(Token::LitInt(1), 2),
        sym(Token::End, 2),
        sym(Token::Period, 2),
    ];
    let mut p = Parser::new();
    assert!(p.build_ast(toks).is_ok());
}

#[test]
fn condition_category_is_not_checked() {
    // program p; var x: integer; begin if 1 then x := 2 end.
    // The condition's category is synthesized but never compared, as in
    // the grammar this recognizer implements.
    let toks = vec![
        sym(Token::Program, 1),
        id("p", 1),
        sym(Token::Semicolon, 1),
        sym(Token::Var, 1),
        id("x", 1),
        sym(Token::Colon, 1),
        sym(Token::Integer, 1),
        sym(Token::Semicolon, 1),
        sym(Token::Begin, 2),
        sym(Token::If, 2),
        sym(Token::LitInt(1), 2),
        sym(Token::Then, 2),
        id("x", 2),
        sym(Token::Assign, 2),
        sym(Token::LitInt(2), 2),
        sym(Token::End, 2),
        sym(Token::Period, 2),
    ];
    let mut p = Parser::new();
    assert!(p.build_ast(toks).is_ok());
}

#[test]
fn procedure_call_with_arguments_accepted() {
    // program p; var x: integer; procedure q(a: integer; c: real);
    // begin end; begin q(x, 2) end.
    let toks = vec![
        sym(Token::Program, 1),
        id("p", 1),
        sym(Token::Semicolon, 1),
        sym(Token::Var, 1),
        id("x", 1),
        sym(Token::Colon, 1),
        sym(Token::Integer, 1),
        sym(Token::Semicolon, 1),
        sym(Token::Procedure, 2),
        id("q", 2),
        sym(Token::LParentheses, 2),
        id("a", 2),
        sym(Token::Colon, 2),
        sym(Token::Integer, 2),
        sym(Token::Semicolon, 2),
        id("c", 2),
        sym(Token::Colon, 2),
        sym(Token::Real, 2),
        sym(Token::RParentheses, 2),
        sym(Token::Semicolon, 2),
        sym(Token::Begin, 3),
        sym(Token::End, 3),
        sym(Token::Semicolon, 3),
        sym(Token::Begin, 4),
        id("q", 4),
        sym(Token::LParentheses, 4),
        id("x", 4),
        sym(Token::Comma, 4),
        sym(Token::LitInt(2), 4),
        sym(Token::RParentheses, 4),
        sym(Token::End, 4),
        sym(Token::Period, 4),
    ];
    let mut p = Parser::new();
    assert!(p.build_ast(toks).is_ok());
}

#[test]
fn empty_stream_expects_program_keyword() {
    let mut p = Parser::new();
    let err = p.build_ast(Vec::new()).unwrap_err();
    assert_eq!(err.message(), "Expected keyword 'program' found 'EOF' => line 0");
}

#[test]
fn missing_final_period_reported_at_end() {
    // program p; begin end   (no final period; last token on line 2)
    let toks = vec![
        sym(Token::Program, 1),
        id("p", 1),
        sym(Token::Semicolon, 1),
        sym(Token::Begin, 2),
        sym(Token::End, 2),
    ];
    let mut p = Parser::new();
    let err = p.build_ast(toks).unwrap_err();
    assert_eq!(err.message(), "Expected delimiter '.' found 'EOF' => line 2");
}

#[test]
fn nested_compound_closes_no_frame() {
    // program p; var x: integer; begin begin x := 1 end; x := 2 end.
    // Only a program or procedure body closes a frame, so the nested
    // begin-end leaves x declared for the rest of the body.
    let toks = vec![
        sym(Token::Program, 1),
        id("p", 1),
        sym(Token::Semicolon, 1),
        sym(Token::Var, 1),
        id("x", 1),
        sym(Token::Colon, 1),
        sym(Token::Integer, 1),
        sym(Token::Semicolon, 1),
        sym(Token::Begin, 2),
        sym(Token::Begin, 2),
        id("x", 2),
        sym(Token::Assign, 2),
        sym(Token::LitInt(1), 2),
        sym(Token::End, 2),
        sym(Token::Semicolon, 2),
        id("x", 3),
        sym(Token::Assign, 3),
        sym(Token::LitInt(2), 3),
        sym(Token::End, 3),
        sym(Token::Period, 3),
    ];
    let mut p = Parser::new();
    assert!(p.build_ast(toks).is_ok());
}

#[test]
fn missing_factor_reported() {
    // program p; var x: integer; begin x := ; end.
    let toks = vec![
        sym(Token::Program, 1),
        id("p", 1),
        sym(Token::Semicolon, 1),
        sym(Token::Var, 1),
        id("x", 1),
        sym(Token::Colon, 1),
        sym(Token::Integer, 1),
        sym(Token::Semicolon, 1),
        sym(Token::Begin, 2),
        id("x", 2),
        sym(Token::Assign, 2),
        sym(Token::Semicolon, 2),
        sym(Token::End, 2),
        sym(Token::Period, 2),
    ];
    let mut p = Parser::new();
    let err = p.build_ast(toks).unwrap_err();
    assert_eq!(err.message(), "Expected factor found ';' => line 2");
}

#[test]
fn missing_then_reported() {
    // program p; var x: integer; begin if x = 1 x := 2 end.
    let toks = vec![
        sym(Token::Program, 1),
        id("p", 1),
        sym(Token::Semicolon, 1),
        sym(Token::Var, 1),
        id("x", 1),
        sym(Token::Colon, 1),
        sym(Token::Integer, 1),
        sym(Token::Semicolon, 1),
        sym(Token::Begin, 2),
        sym(Token::If, 2),
        id("x", 2),
        sym(Token::Equal, 2),
        sym(Token::LitInt(1), 2),
        id("x", 2),
        sym(Token::Assign, 2),
        sym(Token::LitInt(2), 2),
        sym(Token::End, 2),
        sym(Token::Period, 2),
    ];
    let mut p = Parser::new();
    let err = p.build_ast(toks).unwrap_err();
    assert_eq!(err.message(), "Expected keyword 'then' found 'x' => line 2");
}

#[test]
fn missing_type_keyword_reported() {
    // program p; var x : x; begin end.
    let toks = vec![
        sym(Token::Program, 1),
        id("p", 1),
        sym(Token::Semicolon, 1),
        sym(Token::Var, 2),
        id("x", 2),
        sym(Token::Colon, 2),
        id("x", 2),
        sym(Token::Semicolon, 2),
        sym(Token::Begin, 3),
        sym(Token::End, 3),
        sym(Token::Period, 3),
    ];
    let mut p = Parser::new();
    let err = p.build_ast(toks).unwrap_err();
    assert_eq!(
        err.message(),
        "Expected type 'boolean' or 'integer' or 'real' found 'x' => line 2"
    );
}

#[test]
fn missing_semicolon_after_declaration_unit() {
    // program p; var x: integer begin x := 1 end.
    let toks = vec![
        sym(Token::Program, 1),
        id("p", 1),
        sym(Token::Semicolon, 1),
        sym(Token::Var, 2),
        id("x", 2),
        sym(Token::Colon, 2),
        sym(Token::Integer, 2),
        sym(Token::Begin, 3),
        id("x", 3),
        sym(Token::Assign, 3),
        sym(Token::LitInt(1), 3),
        sym(Token::End, 3),
        sym(Token::Period, 3),
    ];
    let mut p = Parser::new();
    let err = p.build_ast(toks).unwrap_err();
    assert_eq!(err.message(), "Expected delimiter ';' found 'begin' => line 3");
}

#[test]
fn missing_semicolon_after_procedure_header() {
    // program p; procedure q begin end; begin end.
    let toks = vec![
        sym(Token::Program, 1),
        id("p", 1),
        sym(Token::Semicolon, 1),
        sym(Token::Procedure, 2),
        id("q", 2),
        sym(Token::Begin, 2),
        sym(Token::End, 2),
        sym(Token::Semicolon, 2),
        sym(Token::Begin, 3),
        sym(Token::End, 3),
        sym(Token::Period, 3),
    ];
    let mut p = Parser::new();
    let err = p.build_ast(toks).unwrap_err();
    assert_eq!(err.message(), "Expected delimiter ';' found 'begin' => line 2");
}

#[test]
fn missing_semicolon_after_procedure_body() {
    // program p; procedure q; begin end begin end.
    let toks = vec![
        sym(Token::Program, 1),
        id("p", 1),
        sym(Token::Semicolon, 1),
        sym(Token::Procedure, 2),
        id("q", 2),
        sym(Token::Semicolon, 2),
        sym(Token::Begin, 2),
        sym(Token::End, 2),
        sym(Token::Begin, 3),
        sym(Token::End, 3),
        sym(Token::Period, 3),
    ];
    let mut p = Parser::new();
    let err = p.build_ast(toks).unwrap_err();
    assert_eq!(err.message(), "Expected delimiter ';' found 'begin' => line 3");
}

#[test]
fn unclosed_parenthesized_expression() {
    // program p; var x: integer; begin x := (1 + 2 end.
    let toks = vec![
        sym(Token::Program, 1),
        id("p", 1),
        sym(Token::Semicolon, 1),
        sym(Token::Var, 1),
        id("x", 1),
        sym(Token::Colon, 1),
        sym(Token::Integer, 1),
        sym(Token::Semicolon, 1),
        sym(Token::Begin, 2),
        id("x", 2),
        sym(Token::Assign, 2),
        sym(Token::LParentheses, 2),
        sym(Token::LitInt(1), 2),
        sym(Token::Add, 2),
        sym(Token::LitInt(2), 2),
        sym(Token::End, 2),
        sym(Token::Period, 2),
    ];
    let mut p = Parser::new();
    let err = p.build_ast(toks).unwrap_err();
    assert_eq!(err.message(), "Expected delimiter ')' found 'end' => line 2");
}

#[test]
fn call_factor_contributes_the_callee_category() {
    // program p; var x: integer; procedure q(a: integer); begin end;
    // begin x := q(1) end.
    // A factor `q(1)` synthesizes lookup(q) = Procedure; the argument's
    // category is consumed by the argument list, so the assignment sees
    // Procedure and rejects it.
    let toks = vec![
        sym(Token::Program, 1),
        id("p", 1),
        sym(Token::Semicolon, 1),
        sym(Token::Var, 1),
        id("x", 1),
        sym(Token::Colon, 1),
        sym(Token::Integer, 1),
        sym(Token::Semicolon, 1),
        sym(Token::Procedure, 2),
        id("q", 2),
        sym(Token::LParentheses, 2),
        id("a", 2),
        sym(Token::Colon, 2),
        sym(Token::Integer, 2),
        sym(Token::RParentheses, 2),
        sym(Token::Semicolon, 2),
        sym(Token::Begin, 2),
        sym(Token::End, 2),
        sym(Token::Semicolon, 2),
        sym(Token::Begin, 3),
        id("x", 3),
        sym(Token::Assign, 3),
        id("q", 3),
        sym(Token::LParentheses, 3),
        sym(Token::LitInt(1), 3),
        sym(Token::RParentheses, 3),
        sym(Token::End, 3),
        sym(Token::Period, 3),
    ];
    let mut p = Parser::new();
    let err = p.build_ast(toks).unwrap_err();
    assert_eq!(
        err.message(),
        "Mismatched types expected Integer found Procedure => line 3"
    );
}

#[test]
fn sample_programs_are_accepted() {
    assert!(pascalzim::samples::test_parser_program10());
    assert!(pascalzim::samples::test_parser_program12());
    assert!(pascalzim::samples::test_parser_program13());
}
