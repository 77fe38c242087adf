use pascalzim::category::{acceptable_types, accepts, primary_acceptable, Category};
use pascalzim::error::{category_name, Expectation, ParseError};
use pascalzim::table::{DeclareError, SymbolTable};
use pascalzim::text::{decimal_string, signed_decimal_string};
use pascalzim::token::Token;

#[test]
fn widening_acceptance_rule() {
    assert!(accepts(Category::Real, Category::Integer));
    assert!(accepts(Category::Real, Category::Real));
    assert!(!accepts(Category::Integer, Category::Real));
    assert!(accepts(Category::Integer, Category::Integer));
    assert!(accepts(Category::Boolean, Category::Boolean));
    assert!(!accepts(Category::Boolean, Category::Integer));
    assert!(!accepts(Category::Procedure, Category::Integer));
}

#[test]
fn acceptable_sets_quote_target_first() {
    assert_eq!(acceptable_types(Category::Integer), vec![Category::Integer]);
    assert_eq!(
        acceptable_types(Category::Real),
        vec![Category::Real, Category::Integer]
    );
    assert_eq!(acceptable_types(Category::Boolean), vec![Category::Boolean]);
    assert_eq!(acceptable_types(Category::Procedure), vec![Category::Undefined]);
    assert_eq!(primary_acceptable(Category::Real), Category::Real);
    assert_eq!(primary_acceptable(Category::Program), Category::Undefined);
}

#[test]
fn table_lookup_prefers_innermost_and_unwinds() {
    let mut t = SymbolTable::new();
    t.open_frame();
    assert!(t.declare("x".to_string()).is_ok());
    t.bind_type_and_erase(Category::Integer);
    t.open_frame();
    assert!(t.declare("x".to_string()).is_ok());
    t.bind_type_and_erase(Category::Boolean);
    assert_eq!(t.search_stack(&"x".to_string()), Category::Boolean);
    t.clear_scope();
    assert_eq!(t.search_stack(&"x".to_string()), Category::Integer);
    t.clear_scope();
    assert_eq!(t.search_stack(&"x".to_string()), Category::Undefined);
}

#[test]
fn table_rejects_duplicate_in_same_frame_only() {
    let mut t = SymbolTable::new();
    t.open_frame();
    assert!(t.declare("x".to_string()).is_ok());
    assert_eq!(
        t.declare("x".to_string()),
        Err(DeclareError::AlreadyDeclared)
    );
    t.bind_type_and_erase(Category::Integer);
    assert_eq!(
        t.declare("x".to_string()),
        Err(DeclareError::AlreadyDeclared)
    );
    t.open_frame();
    assert!(t.declare("x".to_string()).is_ok());
}

#[test]
fn table_protects_routine_names_at_any_depth() {
    let mut t = SymbolTable::new();
    t.open_frame();
    t.push_declaration("main".to_string(), Category::Program);
    t.push_declaration("q".to_string(), Category::Procedure);
    t.open_frame();
    t.open_frame();
    assert_eq!(
        t.declare("main".to_string()),
        Err(DeclareError::ReservedName)
    );
    assert_eq!(t.declare("q".to_string()), Err(DeclareError::ReservedName));
    assert!(t.declare("other".to_string()).is_ok());
}

#[test]
fn lookup_crosses_frame_boundaries() {
    let mut t = SymbolTable::new();
    t.open_frame();
    assert!(t.declare("outer".to_string()).is_ok());
    t.bind_type_and_erase(Category::Real);
    t.open_frame();
    assert_eq!(t.search_stack(&"outer".to_string()), Category::Real);
    assert!(!t.search_scope(&"outer".to_string()));
}

#[test]
fn binding_flushes_buffer_in_reverse_order() {
    let mut t = SymbolTable::new();
    t.open_frame();
    assert!(t.declare("a".to_string()).is_ok());
    assert!(t.declare("b".to_string()).is_ok());
    t.bind_type_and_erase(Category::Real);
    assert_eq!(t.stack.len(), 3);
    assert_eq!(t.stack[0].category, Category::Sentinel);
    assert_eq!(t.stack[1].name, "b");
    assert_eq!(t.stack[1].category, Category::Real);
    assert_eq!(t.stack[2].name, "a");
    assert_eq!(t.stack[2].category, Category::Real);
    assert!(t.buffer.is_empty());
}

#[test]
fn token_spellings_are_canonical() {
    assert_eq!(Token::Program.spelling(), "program");
    assert_eq!(Token::Semicolon.spelling(), ";");
    assert_eq!(Token::Assign.spelling(), ":=");
    assert_eq!(Token::NotEqual.spelling(), "<>");
    assert_eq!(Token::GreaterThanOrEqual.spelling(), ">=");
    assert_eq!(Token::And.spelling(), "and");
    assert_eq!(Token::LitInt(932).spelling(), "932");
    assert_eq!(Token::LitInt(-47).spelling(), "-47");
    assert_eq!(Token::LitStr("valor1".to_string()).spelling(), "valor1");
    assert_eq!(Token::Empty.spelling(), "EOF");
}

#[test]
fn decimal_rendering() {
    assert_eq!(decimal_string(0), "0");
    assert_eq!(decimal_string(7), "7");
    assert_eq!(decimal_string(10), "10");
    assert_eq!(decimal_string(932), "932");
    assert_eq!(decimal_string(4294967295), "4294967295");
    assert_eq!(signed_decimal_string(-2147483648), "-2147483648");
    assert_eq!(signed_decimal_string(2147483647), "2147483647");
}

#[test]
fn category_names_match_diagnostics() {
    assert_eq!(category_name(Category::Integer), "Integer");
    assert_eq!(category_name(Category::Undefined), "Undefined");
}

#[test]
fn syntax_error_message_shape() {
    let e = ParseError::Syntax {
        expected: Expectation::Keyword(Token::End),
        found: Token::LitStr("oops".to_string()),
        line: 12,
    };
    assert_eq!(e.message(), "Expected keyword 'end' found 'oops' => line 12");
    let e = ParseError::Syntax {
        expected: Expectation::TypeKeyword,
        found: Token::Semicolon,
        line: 3,
    };
    assert_eq!(
        e.message(),
        "Expected type 'boolean' or 'integer' or 'real' found ';' => line 3"
    );
}
