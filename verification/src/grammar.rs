//! The grammar and its static rules as a mathematical recognizer: one
//! total specification function per production, over the token stream and
//! an abstract analyzer state.  `analysis` is the meaning of a whole
//! stream — `Ok` with the final state exactly when the stream derives the
//! grammar and passes every scope and type rule, and otherwise the first
//! violation's diagnostic.  The grammar driver is verified to return
//! exactly what these functions compute.
//!
//! Each recognizer function recurses along the same measure as the driver:
//! the tokens left, then a fixed rank per production.  Where a recursive
//! step stands on the state a sub-derivation produced, a `moved` guard
//! records that the sub-derivation stayed inside the stream and did not
//! move backwards; the guards' refusal branches are unreachable, since the
//! verified driver proves every production's result state `moved`.

use vstd::prelude::*;
use crate::category::{
    arith_ok, arith_result, assign_accepts, equality_ok, logic_ok, ordering_operand_ok,
    spec_acceptable, Category,
};
use crate::error::{Expectation, ParseError};
use crate::table::{bound, cleared, in_buffer, in_frame, lookup_in, protected_in, Identifier};
use crate::token::{category_of_type_token, Symbol, Token};

verus! {

/// One declared name as the recognizer models it: a spelling and its
/// semantic category.
pub ghost struct Entry {
    pub name: Seq<char>,
    pub category: Category,
}

/// The abstract analyzer state: the lookahead position, the scope stack,
/// the pending-identifier buffer, and the type evaluation stack.
pub ghost struct State {
    pub pos: int,
    pub stack: Seq<Entry>,
    pub buffer: Seq<Entry>,
    pub types: Seq<Category>,
}

/// The abstract view of one declaration record.
pub open spec fn entry_of(id: Identifier) -> Entry {
    Entry { name: id.name@, category: id.category }
}

/// The abstract view of a whole record sequence.
pub open spec fn entries_of(s: Seq<Identifier>) -> Seq<Entry> {
    s.map_values(|id: Identifier| entry_of(id))
}

/// The state a fresh analysis starts from.
pub open spec fn initial() -> State {
    State {
        pos: 0,
        stack: Seq::<Entry>::empty(),
        buffer: Seq::<Entry>::empty(),
        types: Seq::<Category>::empty(),
    }
}

/// The line the end-of-input marker reports: the last symbol's, or 0 for
/// an empty stream.
pub open spec fn eof_line(toks: Seq<Symbol>) -> u32 {
    if toks.len() > 0 {
        toks.last().line
    } else {
        0u32
    }
}

/// The symbol at a position: the stream's own, or the end-of-input marker
/// once the stream is exhausted.
pub open spec fn symbol_at(toks: Seq<Symbol>, pos: int) -> Symbol {
    if 0 <= pos < toks.len() {
        toks[pos]
    } else {
        Symbol { token: Token::Empty, category: crate::token::Type::Eof, line: eof_line(toks) }
    }
}

/// The syntax diagnostic quoting the symbol the state looks at.
pub open spec fn syntax_error(toks: Seq<Symbol>, st: State, expected: Expectation) -> ParseError {
    ParseError::Syntax {
        expected,
        found: symbol_at(toks, st.pos).token,
        line: symbol_at(toks, st.pos).line,
    }
}

/// Whether a sub-derivation's result state moved no earlier than `lower`
/// and stayed inside the stream.  Every production's verified
/// implementation proves its result `moved`, so the recognizer branches
/// that refuse an un-`moved` state are unreachable; they only make the
/// recursion's measure evident.
pub open spec fn moved(toks: Seq<Symbol>, lower: int, st: State) -> bool {
    lower <= st.pos && st.pos <= toks.len()
}

/// The refusal returned on a state the `moved` guards exclude
/// (unreachable; see `moved`).
pub open spec fn stuck(toks: Seq<Symbol>, st: State) -> Result<State, ParseError> {
    Err(syntax_error(toks, st, Expectation::Identifier))
}

/// The state after consuming one symbol.
pub open spec fn step(st: State) -> State {
    State { pos: st.pos + 1, stack: st.stack, buffer: st.buffer, types: st.types }
}

/// The state with the topmost synthesized category discarded (unchanged
/// when the type stack is empty, as the driver's pop is).
pub open spec fn drop_type(st: State) -> State {
    if st.types.len() > 0 {
        State {
            pos: st.pos,
            stack: st.stack,
            buffer: st.buffer,
            types: st.types.subrange(0, st.types.len() - 1),
        }
    } else {
        st
    }
}

/// Top-to-bottom lookup across all frames (sentinels are transparent).
pub open spec fn lookup_entries(s: Seq<Entry>, n: Seq<char>) -> Category
    decreases s.len(),
{
    if s.len() == 0 {
        Category::Undefined
    } else if s.last().category != Category::Sentinel && s.last().name == n {
        s.last().category
    } else {
        lookup_entries(s.drop_last(), n)
    }
}

/// Whether the open frame (above the nearest sentinel) declares the name.
pub open spec fn in_frame_entries(s: Seq<Entry>, n: Seq<char>) -> bool
    decreases s.len(),
{
    if s.len() == 0 {
        false
    } else if s.last().category == Category::Sentinel {
        false
    } else if s.last().name == n {
        true
    } else {
        in_frame_entries(s.drop_last(), n)
    }
}

/// Whether the pending buffer holds the name.
pub open spec fn in_buffer_entries(b: Seq<Entry>, n: Seq<char>) -> bool {
    exists|i: int| 0 <= i < b.len() && b[i].name == n
}

/// Whether some entry binds the name to a program or procedure.
pub open spec fn protected_entries(s: Seq<Entry>, n: Seq<char>) -> bool {
    exists|i: int|
        0 <= i < s.len() && s[i].name == n && (s[i].category == Category::Program || s[i].category
            == Category::Procedure)
}

/// The stack after closing one frame.
pub open spec fn cleared_entries(s: Seq<Entry>) -> Seq<Entry>
    decreases s.len(),
{
    if s.len() == 0 {
        s
    } else if s.last().category == Category::Sentinel {
        s.drop_last()
    } else {
        cleared_entries(s.drop_last())
    }
}

/// The stack after flushing the buffer onto it, every pending entry
/// retagged to `c`.
pub open spec fn bound_entries(stack: Seq<Entry>, buffer: Seq<Entry>, c: Category) -> Seq<Entry>
    decreases buffer.len(),
{
    if buffer.len() == 0 {
        stack
    } else {
        bound_entries(
            stack.push(Entry { name: buffer.last().name, category: c }),
            buffer.drop_last(),
            c,
        )
    }
}

/// The fixed category a literal factor synthesizes.
pub open spec fn literal_category(t: Token) -> Category {
    match t {
        Token::True => Category::Boolean,
        Token::False => Category::Boolean,
        Token::LitReal => Category::Real,
        Token::LitInt(i) => Category::Integer,
        _ => Category::Undefined,
    }
}

/// Declaring the identifier the state looks at: refused when protected or
/// already in the open frame or buffer, otherwise buffered untyped and the
/// identifier consumed.
pub open spec fn declare_step(toks: Seq<Symbol>, st: State) -> Result<State, ParseError> {
    let s = symbol_at(toks, st.pos);
    let name = s.token->LitStr_0;
    if protected_entries(st.stack, name@) || protected_entries(st.buffer, name@) {
        Err(ParseError::ReservedName { name, line: s.line })
    } else if in_buffer_entries(st.buffer, name@) || in_frame_entries(st.stack, name@) {
        Err(ParseError::AlreadyDeclared { name, line: s.line })
    } else {
        Ok(
            State {
                pos: st.pos + 1,
                stack: st.stack,
                buffer: st.buffer.push(Entry { name: name@, category: Category::Undefined }),
                types: st.types,
            },
        )
    }
}

/// `tipo -> integer | real | boolean`: on a type keyword the buffer is
/// flushed with that type bound.
pub open spec fn rec_types(toks: Seq<Symbol>, st: State) -> Result<State, ParseError> {
    let t = symbol_at(toks, st.pos).token;
    if t is Integer || t is Real || t is Boolean {
        Ok(
            State {
                pos: st.pos + 1,
                stack: bound_entries(st.stack, st.buffer, category_of_type_token(t)),
                buffer: Seq::<Entry>::empty(),
                types: st.types,
            },
        )
    } else {
        Err(syntax_error(toks, st, Expectation::TypeKeyword))
    }
}

/// A relational operator applied to the two topmost categories: `=` and
/// `<>` demand identical operands, the ordering operators numeric ones;
/// Boolean is synthesized.
pub open spec fn relational_step(op: Token, line: u32, st: State) -> Result<State, ParseError> {
    if st.types.len() < 2 {
        Err(ParseError::EqualityMismatch { right: Category::Undefined, left: Category::Undefined, op, line })
    } else {
        let a = st.types.last();
        let b = st.types[st.types.len() - 2];
        let rest = st.types.subrange(0, st.types.len() - 2);
        if op is Equal || op is NotEqual {
            if !equality_ok(a, b) {
                Err(ParseError::EqualityMismatch { right: a, left: b, op, line })
            } else {
                Ok(State { pos: st.pos, stack: st.stack, buffer: st.buffer, types: rest.push(Category::Boolean) })
            }
        } else {
            if !ordering_operand_ok(a) {
                Err(ParseError::RelationalMismatch { found: a, op, line })
            } else if !ordering_operand_ok(b) {
                Err(ParseError::RelationalMismatch { found: b, op, line })
            } else {
                Ok(State { pos: st.pos, stack: st.stack, buffer: st.buffer, types: rest.push(Category::Boolean) })
            }
        }
    }
}

/// `+`, `-` or `or` applied to the two topmost categories.
pub open spec fn additive_step(op: Token, line: u32, st: State) -> Result<State, ParseError> {
    if st.types.len() < 2 {
        Err(ParseError::ArithmeticMismatch { op, line })
    } else {
        let a = st.types.last();
        let b = st.types[st.types.len() - 2];
        let rest = st.types.subrange(0, st.types.len() - 2);
        if op is Add || op is Sub {
            if !arith_ok(a, b) {
                Err(ParseError::ArithmeticMismatch { op, line })
            } else {
                Ok(State { pos: st.pos, stack: st.stack, buffer: st.buffer, types: rest.push(arith_result(a, b)) })
            }
        } else {
            if !logic_ok(a, b) {
                Err(ParseError::LogicMismatch { op, line })
            } else {
                Ok(State { pos: st.pos, stack: st.stack, buffer: st.buffer, types: rest.push(Category::Boolean) })
            }
        }
    }
}

/// `*`, `/` or `and` applied to the two topmost categories.
pub open spec fn multiplicative_step(op: Token, line: u32, st: State) -> Result<State, ParseError> {
    if st.types.len() < 2 {
        Err(ParseError::ArithmeticMismatch { op, line })
    } else {
        let a = st.types.last();
        let b = st.types[st.types.len() - 2];
        let rest = st.types.subrange(0, st.types.len() - 2);
        if op is Mult || op is Div {
            if !arith_ok(a, b) {
                Err(ParseError::ArithmeticMismatch { op, line })
            } else {
                Ok(State { pos: st.pos, stack: st.stack, buffer: st.buffer, types: rest.push(arith_result(a, b)) })
            }
        } else {
            if !logic_ok(a, b) {
                Err(ParseError::LogicMismatch { op, line })
            } else {
                Ok(State { pos: st.pos, stack: st.stack, buffer: st.buffer, types: rest.push(Category::Boolean) })
            }
        }
    }
}

/// `fator -> id ativacao_de_procedimento? | ( expressao ) | num_int |
/// num_real | true | false | not fator`.
pub open spec fn rec_factor(toks: Seq<Symbol>, st: State) -> Result<State, ParseError>
    decreases toks.len() - st.pos, 1int,
{
    let sym = symbol_at(toks, st.pos);
    if st.pos < toks.len() && sym.category is Identifier {
        let name = sym.token->LitStr_0;
        let c = lookup_entries(st.stack, name@);
        if c == Category::Undefined {
            Err(ParseError::NotDeclared { name, line: sym.line })
        } else {
            rec_active_procedure(
                toks,
                State { pos: st.pos + 1, stack: st.stack, buffer: st.buffer, types: st.types.push(c) },
            )
        }
    } else if st.pos < toks.len() && sym.token is LParentheses {
        match rec_expr(toks, step(st)) {
            Err(e) => Err(e),
            Ok(st1) => {
                let sym1 = symbol_at(toks, st1.pos);
                if st1.pos < toks.len() && sym1.token is RParentheses {
                    Ok(step(st1))
                } else {
                    Err(syntax_error(toks, st1, Expectation::Delimiter(Token::RParentheses)))
                }
            },
        }
    } else if st.pos < toks.len() && (sym.category is IntLiteral || sym.category is RealLiteral
        || sym.token is True || sym.token is False) {
        Ok(
            State {
                pos: st.pos + 1,
                stack: st.stack,
                buffer: st.buffer,
                types: st.types.push(literal_category(sym.token)),
            },
        )
    } else if st.pos < toks.len() && sym.token is Not {
        rec_factor(toks, step(st))
    } else {
        Err(syntax_error(toks, st, Expectation::Factor))
    }
}

/// `ativacao_de_procedimento -> ( lista_de_expressoes ) | e`.
pub open spec fn rec_active_procedure(toks: Seq<Symbol>, st: State) -> Result<State, ParseError>
    decreases toks.len() - st.pos, 2int,
{
    let sym = symbol_at(toks, st.pos);
    if st.pos < toks.len() && sym.token is LParentheses {
        match rec_list_expr(toks, step(st)) {
            Err(e) => Err(e),
            Ok(st1) => {
                let sym1 = symbol_at(toks, st1.pos);
                if st1.pos < toks.len() && sym1.token is RParentheses {
                    Ok(step(st1))
                } else {
                    Err(syntax_error(toks, st1, Expectation::Delimiter(Token::RParentheses)))
                }
            },
        }
    } else {
        Ok(st)
    }
}

/// `lista_de_expressoes -> expressao lista_de_expressoes'`; each argument
/// expression's synthesized category is consumed.
pub open spec fn rec_list_expr(toks: Seq<Symbol>, st: State) -> Result<State, ParseError>
    decreases toks.len() - st.pos, 5int,
{
    match rec_expr(toks, st) {
        Err(e) => Err(e),
        Ok(st1) => {
            if moved(toks, st.pos + 1, st1) {
                rec_list_expr_tail(toks, drop_type(st1))
            } else {
                stuck(toks, st1)
            }
        },
    }
}

/// `lista_de_expressoes' -> , expressao lista_de_expressoes' | e`.
pub open spec fn rec_list_expr_tail(toks: Seq<Symbol>, st: State) -> Result<State, ParseError>
    decreases toks.len() - st.pos, 6int,
{
    let sym = symbol_at(toks, st.pos);
    if st.pos < toks.len() && sym.token is Comma {
        match rec_expr(toks, step(st)) {
            Err(e) => Err(e),
            Ok(st1) => {
                if moved(toks, st.pos + 1, st1) {
                    rec_list_expr_tail(toks, drop_type(st1))
                } else {
                    stuck(toks, st1)
                }
            },
        }
    } else {
        Ok(st)
    }
}

/// `expressao -> expressao_simples (op_relacional expressao_simples)?`.
pub open spec fn rec_expr(toks: Seq<Symbol>, st: State) -> Result<State, ParseError>
    decreases toks.len() - st.pos, 4int,
{
    match rec_simple_expr(toks, st) {
        Err(e) => Err(e),
        Ok(st1) => {
            let sym1 = symbol_at(toks, st1.pos);
            if st1.pos < toks.len() && sym1.category is RelOperator {
                if moved(toks, st.pos + 1, st1) {
                    match rec_simple_expr(toks, step(st1)) {
                        Err(e) => Err(e),
                        Ok(st2) => relational_step(sym1.token, sym1.line, st2),
                    }
                } else {
                    stuck(toks, st1)
                }
            } else {
                Ok(st1)
            }
        },
    }
}

/// `expressao_simples -> (+|-)? termo expressao_simples'`.
pub open spec fn rec_simple_expr(toks: Seq<Symbol>, st: State) -> Result<State, ParseError>
    decreases toks.len() - st.pos, 3int,
{
    let sym = symbol_at(toks, st.pos);
    let st0 = if st.pos < toks.len() && (sym.token is Add || sym.token is Sub) {
        step(st)
    } else {
        st
    };
    match rec_term(toks, st0) {
        Err(e) => Err(e),
        Ok(st1) => {
            if moved(toks, st.pos + 1, st1) {
                rec_simple_expr_tail(toks, st1)
            } else {
                stuck(toks, st1)
            }
        },
    }
}

/// `expressao_simples' -> op_aditivo termo expressao_simples' | e`.
pub open spec fn rec_simple_expr_tail(toks: Seq<Symbol>, st: State) -> Result<State, ParseError>
    decreases toks.len() - st.pos, 3int,
{
    let sym = symbol_at(toks, st.pos);
    if st.pos < toks.len() && sym.category is AddOperator {
        match rec_term(toks, step(st)) {
            Err(e) => Err(e),
            Ok(st1) => match additive_step(sym.token, sym.line, st1) {
                Err(e) => Err(e),
                Ok(st2) => {
                    if moved(toks, st.pos + 1, st2) {
                        rec_simple_expr_tail(toks, st2)
                    } else {
                        stuck(toks, st2)
                    }
                },
            },
        }
    } else {
        Ok(st)
    }
}

/// `termo -> fator termo'`.
pub open spec fn rec_term(toks: Seq<Symbol>, st: State) -> Result<State, ParseError>
    decreases toks.len() - st.pos, 2int,
{
    match rec_factor(toks, st) {
        Err(e) => Err(e),
        Ok(st1) => {
            if moved(toks, st.pos + 1, st1) {
                rec_term_tail(toks, st1)
            } else {
                stuck(toks, st1)
            }
        },
    }
}

/// `termo' -> op_multiplicativo fator termo' | e`.
pub open spec fn rec_term_tail(toks: Seq<Symbol>, st: State) -> Result<State, ParseError>
    decreases toks.len() - st.pos, 2int,
{
    let sym = symbol_at(toks, st.pos);
    if st.pos < toks.len() && sym.category is MulOperator {
        match rec_factor(toks, step(st)) {
            Err(e) => Err(e),
            Ok(st1) => match multiplicative_step(sym.token, sym.line, st1) {
                Err(e) => Err(e),
                Ok(st2) => {
                    if moved(toks, st.pos + 1, st2) {
                        rec_term_tail(toks, st2)
                    } else {
                        stuck(toks, st2)
                    }
                },
            },
        }
    } else {
        Ok(st)
    }
}

/// `lista_de_identificadores -> id lista_de_identificadores'`.
pub open spec fn rec_list_identifiers(toks: Seq<Symbol>, st: State, ep_closure: bool) -> Result<
    State,
    ParseError,
>
    decreases toks.len() - st.pos, 1int,
{
    let sym = symbol_at(toks, st.pos);
    if st.pos < toks.len() && sym.category is Identifier {
        match declare_step(toks, st) {
            Err(e) => Err(e),
            Ok(st1) => {
                if moved(toks, st.pos + 1, st1) {
                    rec_list_identifiers_tail(toks, st1)
                } else {
                    stuck(toks, st1)
                }
            },
        }
    } else if !ep_closure {
        Err(syntax_error(toks, st, Expectation::Identifier))
    } else {
        Ok(st)
    }
}

/// `lista_de_identificadores' -> , id lista_de_identificadores' | e`.
pub open spec fn rec_list_identifiers_tail(toks: Seq<Symbol>, st: State) -> Result<
    State,
    ParseError,
>
    decreases toks.len() - st.pos, 1int,
{
    let sym = symbol_at(toks, st.pos);
    if st.pos < toks.len() && sym.token is Comma {
        let st1 = step(st);
        let sym1 = symbol_at(toks, st1.pos);
        if st1.pos < toks.len() && sym1.category is Identifier {
            match declare_step(toks, st1) {
                Err(e) => Err(e),
                Ok(st2) => {
                    if moved(toks, st.pos + 2, st2) {
                        rec_list_identifiers_tail(toks, st2)
                    } else {
                        stuck(toks, st2)
                    }
                },
            }
        } else {
            Err(syntax_error(toks, st1, Expectation::Identifier))
        }
    } else {
        Ok(st)
    }
}

/// `lista_declaracoes_variaveis -> lista_de_identificadores : tipo ;
/// lista_declaracoes_variaveis' | e`.
pub open spec fn rec_list_declare_var(toks: Seq<Symbol>, st: State, ep_closure: bool) -> Result<
    State,
    ParseError,
>
    decreases toks.len() - st.pos, 2int,
{
    let had_ids = st.pos < toks.len() && symbol_at(toks, st.pos).category is Identifier;
    match rec_list_identifiers(toks, st, ep_closure) {
        Err(e) => Err(e),
        Ok(st1) => {
            let sym1 = symbol_at(toks, st1.pos);
            if st1.pos < toks.len() && sym1.token is Colon {
                if moved(toks, st.pos, st1) {
                    match rec_types(toks, step(st1)) {
                        Err(e) => Err(e),
                        Ok(st2) => {
                            let sym2 = symbol_at(toks, st2.pos);
                            if st2.pos < toks.len() && sym2.token is Semicolon {
                                if moved(toks, st.pos + 1, st2) {
                                    rec_list_declare_var(toks, step(st2), true)
                                } else {
                                    stuck(toks, st2)
                                }
                            } else {
                                Err(syntax_error(toks, st2, Expectation::Delimiter(Token::Semicolon)))
                            }
                        },
                    }
                } else {
                    stuck(toks, st1)
                }
            } else if !ep_closure || had_ids {
                Err(syntax_error(toks, st1, Expectation::Delimiter(Token::Colon)))
            } else {
                Ok(st1)
            }
        },
    }
}

/// `declaracoes_variaveis -> var lista_declaracoes_variaveis | e`.
pub open spec fn rec_declare_var(toks: Seq<Symbol>, st: State) -> Result<State, ParseError>
    decreases toks.len() - st.pos, 3int,
{
    let sym = symbol_at(toks, st.pos);
    if st.pos < toks.len() && sym.token is Var {
        rec_list_declare_var(toks, step(st), false)
    } else {
        Ok(st)
    }
}

/// `argumentos -> ( lista_de_parametros ) | e`.
pub open spec fn rec_args(toks: Seq<Symbol>, st: State) -> Result<State, ParseError>
    decreases toks.len() - st.pos, 3int,
{
    let sym = symbol_at(toks, st.pos);
    if st.pos < toks.len() && sym.token is LParentheses {
        match rec_list_params(toks, step(st)) {
            Err(e) => Err(e),
            Ok(st1) => {
                let sym1 = symbol_at(toks, st1.pos);
                if st1.pos < toks.len() && sym1.token is RParentheses {
                    Ok(step(st1))
                } else {
                    Err(syntax_error(toks, st1, Expectation::Delimiter(Token::RParentheses)))
                }
            },
        }
    } else {
        Ok(st)
    }
}

/// `lista_de_parametros -> lista_de_identificadores : tipo
/// lista_de_parametros'`.
pub open spec fn rec_list_params(toks: Seq<Symbol>, st: State) -> Result<State, ParseError>
    decreases toks.len() - st.pos, 2int,
{
    match rec_list_identifiers(toks, st, false) {
        Err(e) => Err(e),
        Ok(st1) => {
            let sym1 = symbol_at(toks, st1.pos);
            if st1.pos < toks.len() && sym1.token is Colon {
                if moved(toks, st.pos, st1) {
                    match rec_types(toks, step(st1)) {
                        Err(e) => Err(e),
                        Ok(st2) => {
                            if moved(toks, st.pos + 1, st2) {
                                rec_list_params_tail(toks, st2)
                            } else {
                                stuck(toks, st2)
                            }
                        },
                    }
                } else {
                    stuck(toks, st1)
                }
            } else {
                Err(syntax_error(toks, st1, Expectation::Delimiter(Token::Colon)))
            }
        },
    }
}

/// `lista_de_parametros' -> ; lista_de_identificadores : tipo
/// lista_de_parametros' | e`.
pub open spec fn rec_list_params_tail(toks: Seq<Symbol>, st: State) -> Result<State, ParseError>
    decreases toks.len() - st.pos, 3int,
{
    let sym = symbol_at(toks, st.pos);
    if st.pos < toks.len() && sym.token is Semicolon {
        match rec_list_identifiers(toks, step(st), false) {
            Err(e) => Err(e),
            Ok(st1) => {
                let sym1 = symbol_at(toks, st1.pos);
                if st1.pos < toks.len() && sym1.token is Colon {
                    if moved(toks, st.pos + 1, st1) {
                        match rec_types(toks, step(st1)) {
                            Err(e) => Err(e),
                            Ok(st2) => {
                                if moved(toks, st.pos + 2, st2) {
                                    rec_list_params_tail(toks, st2)
                                } else {
                                    stuck(toks, st2)
                                }
                            },
                        }
                    } else {
                        stuck(toks, st1)
                    }
                } else {
                    Err(syntax_error(toks, st1, Expectation::Delimiter(Token::Colon)))
                }
            },
        }
    } else {
        Ok(st)
    }
}

/// `comando_composto -> begin lista_de_comandos end`; as the body of a
/// routine (`close_frame`) the `end` closes that routine's frame.
pub open spec fn rec_compound(toks: Seq<Symbol>, st: State, close_frame: bool) -> Result<
    State,
    ParseError,
>
    decreases toks.len() - st.pos, 1int,
{
    let sym = symbol_at(toks, st.pos);
    if st.pos < toks.len() && sym.token is Begin {
        match rec_list_command(toks, step(st), true) {
            Err(e) => Err(e),
            Ok(st1) => {
                let sym1 = symbol_at(toks, st1.pos);
                if st1.pos < toks.len() && sym1.token is End {
                    Ok(
                        State {
                            pos: st1.pos + 1,
                            stack: if close_frame {
                                cleared_entries(st1.stack)
                            } else {
                                st1.stack
                            },
                            buffer: st1.buffer,
                            types: st1.types,
                        },
                    )
                } else {
                    Err(syntax_error(toks, st1, Expectation::Keyword(Token::End)))
                }
            },
        }
    } else {
        Err(syntax_error(toks, st, Expectation::Keyword(Token::Begin)))
    }
}

/// `lista_de_comandos -> comando lista_de_comandos'`.
pub open spec fn rec_list_command(toks: Seq<Symbol>, st: State, ep_closure: bool) -> Result<
    State,
    ParseError,
>
    decreases toks.len() - st.pos, 3int,
{
    match rec_command(toks, st, ep_closure) {
        Err(e) => Err(e),
        Ok(st1) => {
            if moved(toks, st.pos, st1) {
                rec_list_command_tail(toks, st1)
            } else {
                stuck(toks, st1)
            }
        },
    }
}

/// `lista_de_comandos' -> ; comando lista_de_comandos' | e`.
pub open spec fn rec_list_command_tail(toks: Seq<Symbol>, st: State) -> Result<State, ParseError>
    decreases toks.len() - st.pos, 2int,
{
    let sym = symbol_at(toks, st.pos);
    if st.pos < toks.len() && sym.token is Semicolon {
        match rec_command(toks, step(st), true) {
            Err(e) => Err(e),
            Ok(st1) => {
                if moved(toks, st.pos + 1, st1) {
                    rec_list_command_tail(toks, st1)
                } else {
                    stuck(toks, st1)
                }
            },
        }
    } else {
        Ok(st)
    }
}

/// `comando -> id (:= expressao | ativacao_de_procedimento?) |
/// comando_composto | if expressao then comando senao_parte | while
/// expressao do comando | e`.  An assignment's right-hand category must be
/// acceptable to the resolved target; `if`/`while` conditions are
/// synthesized and discarded, never compared.
pub open spec fn rec_command(toks: Seq<Symbol>, st: State, ep_closure: bool) -> Result<
    State,
    ParseError,
>
    decreases toks.len() - st.pos, 2int,
{
    let sym = symbol_at(toks, st.pos);
    if st.pos < toks.len() && sym.category is Identifier {
        let name = sym.token->LitStr_0;
        let category = lookup_entries(st.stack, name@);
        if category != Category::Undefined {
            let st1 = step(st);
            let sym1 = symbol_at(toks, st1.pos);
            if st1.pos < toks.len() && sym1.token is Assign {
                match rec_expr(toks, step(st1)) {
                    Err(e) => Err(e),
                    Ok(st2) => {
                        if st2.types.len() >= 1 {
                            let found = st2.types.last();
                            if assign_accepts(category, found) {
                                Ok(drop_type(st2))
                            } else {
                                Err(
                                    ParseError::AssignMismatch {
                                        expected: spec_acceptable(category)[0],
                                        found,
                                        line: sym1.line,
                                    },
                                )
                            }
                        } else {
                            stuck(toks, st2)
                        }
                    },
                }
            } else {
                rec_active_procedure(toks, st1)
            }
        } else {
            Err(ParseError::NotDeclared { name, line: sym.line })
        }
    } else if st.pos < toks.len() && sym.token is Begin {
        rec_compound(toks, st, false)
    } else if st.pos < toks.len() && sym.token is If {
        match rec_expr(toks, step(st)) {
            Err(e) => Err(e),
            Ok(st1) => {
                if moved(toks, st.pos + 1, st1) {
                    let st2 = drop_type(st1);
                    let sym2 = symbol_at(toks, st2.pos);
                    if st2.pos < toks.len() && sym2.token is Then {
                        match rec_command(toks, step(st2), false) {
                            Err(e) => Err(e),
                            Ok(st3) => {
                                if moved(toks, st.pos + 2, st3) {
                                    rec_else(toks, st3)
                                } else {
                                    stuck(toks, st3)
                                }
                            },
                        }
                    } else {
                        Err(syntax_error(toks, st2, Expectation::Keyword(Token::Then)))
                    }
                } else {
                    stuck(toks, st1)
                }
            },
        }
    } else if st.pos < toks.len() && sym.token is While {
        match rec_expr(toks, step(st)) {
            Err(e) => Err(e),
            Ok(st1) => {
                if moved(toks, st.pos + 1, st1) {
                    let st2 = drop_type(st1);
                    let sym2 = symbol_at(toks, st2.pos);
                    if st2.pos < toks.len() && sym2.token is Do {
                        rec_command(toks, step(st2), false)
                    } else {
                        Err(syntax_error(toks, st2, Expectation::Keyword(Token::Do)))
                    }
                } else {
                    stuck(toks, st1)
                }
            },
        }
    } else if !ep_closure {
        Err(syntax_error(toks, st, Expectation::Identifier))
    } else {
        Ok(st)
    }
}

/// `senao_parte -> else comando | e`.
pub open spec fn rec_else(toks: Seq<Symbol>, st: State) -> Result<State, ParseError>
    decreases toks.len() - st.pos, 2int,
{
    let sym = symbol_at(toks, st.pos);
    if st.pos < toks.len() && sym.token is Else {
        rec_command(toks, step(st), false)
    } else {
        Ok(st)
    }
}

/// `declaracao_de_subprograma -> procedure id argumentos ;
/// declaracoes_variaveis declaracoes_de_subprogramas comando_composto`.
pub open spec fn rec_subprogram(toks: Seq<Symbol>, st: State, ep_closure: bool) -> Result<
    State,
    ParseError,
>
    decreases toks.len() - st.pos, 4int,
{
    let sym = symbol_at(toks, st.pos);
    if st.pos < toks.len() && sym.token is Procedure {
        let st1 = step(st);
        let sym1 = symbol_at(toks, st1.pos);
        if st1.pos < toks.len() && sym1.category is Identifier {
            let name = sym1.token->LitStr_0;
            let st2 = State {
                pos: st1.pos + 1,
                stack: st.stack.push(Entry { name: name@, category: Category::Procedure }).push(
                    Entry { name: "$"@, category: Category::Sentinel },
                ),
                buffer: st.buffer,
                types: st.types,
            };
            match rec_args(toks, st2) {
                Err(e) => Err(e),
                Ok(st3) => {
                    let sym3 = symbol_at(toks, st3.pos);
                    if st3.pos < toks.len() && sym3.token is Semicolon {
                        if moved(toks, st.pos + 2, st3) {
                            match rec_declare_var(toks, step(st3)) {
                                Err(e) => Err(e),
                                Ok(st4) => {
                                    if moved(toks, st.pos + 3, st4) {
                                        match rec_subprograms(toks, st4) {
                                            Err(e) => Err(e),
                                            Ok(st5) => {
                                                if moved(toks, st.pos + 3, st5) {
                                                    rec_compound(toks, st5, true)
                                                } else {
                                                    stuck(toks, st5)
                                                }
                                            },
                                        }
                                    } else {
                                        stuck(toks, st4)
                                    }
                                },
                            }
                        } else {
                            stuck(toks, st3)
                        }
                    } else {
                        Err(syntax_error(toks, st3, Expectation::Delimiter(Token::Semicolon)))
                    }
                },
            }
        } else {
            Err(syntax_error(toks, st1, Expectation::Identifier))
        }
    } else if !ep_closure {
        Err(syntax_error(toks, st, Expectation::Keyword(Token::Procedure)))
    } else {
        Ok(st)
    }
}

/// `declaracoes_de_subprogramas -> (declaracao_de_subprograma ;)*`.
pub open spec fn rec_subprograms(toks: Seq<Symbol>, st: State) -> Result<State, ParseError>
    decreases toks.len() - st.pos, 5int,
{
    let sym = symbol_at(toks, st.pos);
    if st.pos < toks.len() && sym.token is Procedure {
        match rec_subprogram(toks, st, true) {
            Err(e) => Err(e),
            Ok(st1) => {
                let sym1 = symbol_at(toks, st1.pos);
                if st1.pos < toks.len() && sym1.token is Semicolon {
                    if moved(toks, st.pos, st1) {
                        rec_subprograms(toks, step(st1))
                    } else {
                        stuck(toks, st1)
                    }
                } else {
                    Err(syntax_error(toks, st1, Expectation::Delimiter(Token::Semicolon)))
                }
            },
        }
    } else {
        Ok(st)
    }
}

/// `programa -> program id ; declaracoes_variaveis
/// declaracoes_de_subprogramas comando_composto .`.
pub open spec fn rec_program(toks: Seq<Symbol>, st: State) -> Result<State, ParseError>
    decreases toks.len() - st.pos, 6int,
{
    let sym = symbol_at(toks, st.pos);
    if st.pos < toks.len() && sym.token is Program {
        let st1 = State {
            pos: st.pos + 1,
            stack: st.stack.push(Entry { name: "$"@, category: Category::Sentinel }),
            buffer: st.buffer,
            types: st.types,
        };
        let sym1 = symbol_at(toks, st1.pos);
        if st1.pos < toks.len() && sym1.category is Identifier {
            let name = sym1.token->LitStr_0;
            let st2 = State {
                pos: st1.pos + 1,
                stack: st1.stack.push(Entry { name: name@, category: Category::Program }),
                buffer: st1.buffer,
                types: st1.types,
            };
            let sym2 = symbol_at(toks, st2.pos);
            if st2.pos < toks.len() && sym2.token is Semicolon {
                match rec_declare_var(toks, step(st2)) {
                    Err(e) => Err(e),
                    Ok(st3) => {
                        if moved(toks, st.pos + 3, st3) {
                            match rec_subprograms(toks, st3) {
                                Err(e) => Err(e),
                                Ok(st4) => {
                                    if moved(toks, st.pos + 3, st4) {
                                        match rec_compound(toks, st4, true) {
                                            Err(e) => Err(e),
                                            Ok(st5) => {
                                                let sym5 = symbol_at(toks, st5.pos);
                                                if sym5.token is Period {
                                                    Ok(st5)
                                                } else {
                                                    Err(
                                                        syntax_error(
                                                            toks,
                                                            st5,
                                                            Expectation::Delimiter(Token::Period),
                                                        ),
                                                    )
                                                }
                                            },
                                        }
                                    } else {
                                        stuck(toks, st4)
                                    }
                                },
                            }
                        } else {
                            stuck(toks, st3)
                        }
                    },
                }
            } else {
                Err(syntax_error(toks, st2, Expectation::Delimiter(Token::Semicolon)))
            }
        } else {
            Err(syntax_error(toks, st1, Expectation::Identifier))
        }
    } else {
        Err(syntax_error(toks, st, Expectation::Keyword(Token::Program)))
    }
}

/// The meaning of one complete token stream: `Ok` with the final analyzer
/// state exactly when the stream derives the grammar and passes every
/// scope and type rule, and otherwise the first violation's diagnostic.
pub open spec fn analysis(toks: Seq<Symbol>) -> Result<State, ParseError> {
    rec_program(toks, initial())
}

/// Whether a stream is a valid program.
pub open spec fn accepted(toks: Seq<Symbol>) -> bool {
    analysis(toks) is Ok
}

/// Idempotent re-parse: the verdict is a pure function of the token
/// stream, so two analyses of equal streams agree — no state survives
/// from one run to the next.
pub proof fn lemma_reparse_deterministic(t1: Seq<Symbol>, t2: Seq<Symbol>)
    requires
        t1 == t2,
    ensures
        analysis(t1) == analysis(t2),
{
}

/// The abstract view of a record sequence indexes pointwise.
pub proof fn lemma_entries_index(s: Seq<Identifier>)
    ensures
        entries_of(s).len() == s.len(),
        forall|i: int| 0 <= i < s.len() ==> entries_of(s)[i] == entry_of(#[trigger] s[i]),
{
}

/// Lookup agrees between a record sequence and its abstract view.
pub proof fn lemma_lookup_entries(s: Seq<Identifier>, n: Seq<char>)
    ensures
        lookup_entries(entries_of(s), n) == lookup_in(s, n),
    decreases s.len(),
{
    if s.len() > 0 {
        assert(entries_of(s).last() == entry_of(s.last()));
        assert(entries_of(s).drop_last() =~= entries_of(s.drop_last()));
        lemma_lookup_entries(s.drop_last(), n);
    }
}

/// The same-frame search agrees between a record sequence and its view.
pub proof fn lemma_in_frame_entries(s: Seq<Identifier>, n: Seq<char>)
    ensures
        in_frame_entries(entries_of(s), n) == in_frame(s, n),
    decreases s.len(),
{
    if s.len() > 0 {
        assert(entries_of(s).last() == entry_of(s.last()));
        assert(entries_of(s).drop_last() =~= entries_of(s.drop_last()));
        lemma_in_frame_entries(s.drop_last(), n);
    }
}

/// The buffer search agrees between a record sequence and its view.
pub proof fn lemma_in_buffer_entries(b: Seq<Identifier>, n: Seq<char>)
    ensures
        in_buffer_entries(entries_of(b), n) == in_buffer(b, n),
{
    if in_buffer(b, n) {
        let i = choose|i: int| 0 <= i < b.len() && b[i].name@ == n;
        assert(entries_of(b)[i].name == n);
    }
    if in_buffer_entries(entries_of(b), n) {
        let i = choose|i: int| 0 <= i < entries_of(b).len() && entries_of(b)[i].name == n;
        assert(b[i].name@ == n);
    }
}

/// The protected-name search agrees between a record sequence and its
/// view.
pub proof fn lemma_protected_entries(s: Seq<Identifier>, n: Seq<char>)
    ensures
        protected_entries(entries_of(s), n) == protected_in(s, n),
{
    if protected_in(s, n) {
        let i = choose|i: int|
            0 <= i < s.len() && s[i].name@ == n && (s[i].category == Category::Program
                || s[i].category == Category::Procedure);
        assert(entries_of(s)[i].name == n && (entries_of(s)[i].category == Category::Program
            || entries_of(s)[i].category == Category::Procedure));
    }
    if protected_entries(entries_of(s), n) {
        let i = choose|i: int|
            0 <= i < entries_of(s).len() && entries_of(s)[i].name == n && (entries_of(
                s,
            )[i].category == Category::Program || entries_of(s)[i].category
                == Category::Procedure);
        assert(s[i].name@ == n && (s[i].category == Category::Program || s[i].category
            == Category::Procedure));
    }
}

/// Frame closing agrees between a record sequence and its view.
pub proof fn lemma_cleared_entries(s: Seq<Identifier>)
    ensures
        cleared_entries(entries_of(s)) == entries_of(cleared(s)),
    decreases s.len(),
{
    if s.len() > 0 {
        assert(entries_of(s).last() == entry_of(s.last()));
        assert(entries_of(s).drop_last() =~= entries_of(s.drop_last()));
        lemma_cleared_entries(s.drop_last());
    }
}

/// Binding the buffer agrees between record sequences and their views.
pub proof fn lemma_bound_entries(stack: Seq<Identifier>, buffer: Seq<Identifier>, c: Category)
    ensures
        bound_entries(entries_of(stack), entries_of(buffer), c) == entries_of(
            bound(stack, buffer, c),
        ),
    decreases buffer.len(),
{
    if buffer.len() > 0 {
        let pushed = stack.push(Identifier { name: buffer.last().name, category: c });
        assert(entries_of(buffer).last() == entry_of(buffer.last()));
        assert(entries_of(buffer).drop_last() =~= entries_of(buffer.drop_last()));
        assert(entries_of(pushed) =~= entries_of(stack).push(
            Entry { name: buffer.last().name@, category: c },
        ));
        lemma_bound_entries(pushed, buffer.drop_last(), c);
    }
}

} // verus!
