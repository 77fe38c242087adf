//! The grammar driver: a predictive recursive-descent recognizer with one
//! procedure per nonterminal.  While recognizing the grammar it maintains
//! the scope-aware symbol table and the type evaluation stack, so syntax
//! and static semantics are checked in one left-to-right pass.
//!
//! Every production consumes the tokens it recognizes and leaves the next
//! unconsumed symbol as the lookahead for its caller.  Epsilon productions
//! are guarded by an explicit `ep_closure` flag passed by the caller:
//! `true` means the production may be empty, `false` that its absence is a
//! syntax error.  The first violated rule aborts the whole analysis with
//! its diagnostic.
//!
//! Every production is verified to return exactly what the corresponding
//! recognizer function of [`crate::grammar`] computes on the stream and
//! the abstract analyzer state, so [`Parser::build_ast`]'s verdict is
//! pinned, input by input, to [`analysis`].

use vstd::prelude::*;
use crate::category::{
    accepts, arith_ok, arith_result, assign_accepts, equality_ok, lemma_primary_mismatch, logic_ok,
    ordering_operand_ok, primary_acceptable, Category,
};
use crate::error::{Expectation, ParseError};
use crate::grammar::{
    accepted, analysis, entries_of, eof_line, lemma_bound_entries, lemma_cleared_entries,
    lemma_in_buffer_entries, lemma_in_frame_entries, lemma_lookup_entries,
    lemma_protected_entries, rec_active_procedure, rec_args, rec_command, rec_compound,
    rec_declare_var, rec_else, rec_expr, rec_factor, rec_list_command, rec_list_command_tail,
    rec_list_declare_var, rec_list_expr, rec_list_expr_tail, rec_list_identifiers,
    rec_list_identifiers_tail, rec_list_params, rec_list_params_tail, rec_program,
    rec_simple_expr, rec_simple_expr_tail, rec_subprogram, rec_subprograms, rec_term,
    rec_term_tail, rec_types, symbol_at, Entry, State,
};
use crate::table::{
    bound, cleared, in_buffer, in_frame, lemma_cleared_past_frame, lookup_in, protected_in,
    DeclareError, Identifier, SymbolTable,
};
use crate::token::{category_of_type_token, wf_symbols, Symbol, Token, Type};

verus! {

/// The category a factor symbol pushes onto the type stack: literals push
/// their fixed category, an identifier pushes whatever the stack lookup
/// resolves it to.
pub open spec fn spec_token_category(stack: Seq<Identifier>, t: Token) -> Category {
    match t {
        Token::LitStr(s) => lookup_in(stack, s@),
        Token::True => Category::Boolean,
        Token::False => Category::Boolean,
        Token::LitReal => Category::Real,
        Token::LitInt(i) => Category::Integer,
        _ => Category::Undefined,
    }
}

/// The grammar driver.  One instance owns the whole mutable state of an
/// analysis: the token stream with the lookahead position, the scope-aware
/// symbol table, and the type evaluation stack.
pub struct Parser {
    /// The token stream under analysis.
    pub toks: Vec<Symbol>,
    /// Index of the current lookahead symbol.
    pub pos: usize,
    /// The end-of-input symbol handed out once the stream is exhausted.
    pub eof: Symbol,
    /// The scope-aware symbol table (scope stack plus pending buffer).
    pub table: SymbolTable,
    /// The type evaluation stack of synthesized categories.
    pub types_stack: Vec<Category>,
}

/// What every production preserves: the stream itself, the end marker,
/// and forward-only movement of the lookahead.
pub open spec fn advances(pre: Parser, post: Parser) -> bool {
    &&& post.toks@ == pre.toks@
    &&& post.eof == pre.eof
    &&& pre.pos <= post.pos
    &&& post.pos <= post.toks@.len()
}

/// `post` keeps every entry of `pre` in place and only appends after it.
pub open spec fn extends<A>(pre: Seq<A>, post: Seq<A>) -> bool {
    &&& pre.len() <= post.len()
    &&& forall|k: int| 0 <= k < pre.len() ==> post[k] == pre[k]
}

/// Whenever the analyzer reports an assignment mismatch, the quoted pair
/// really violates the acceptance rule: the expected category does not
/// accept the found one.
pub open spec fn assign_errors_sound(r: Result<(), ParseError>) -> bool {
    r matches Err(e) ==> (e matches ParseError::AssignMismatch { expected, found, .. }
        ==> !assign_accepts(expected, found))
}

/// A production's result as the recognizer states it: the final abstract
/// state on success, the diagnostic on failure.
pub open spec fn outcome_of(r: Result<(), ParseError>, post: Parser) -> Result<State, ParseError> {
    match r {
        Ok(()) => Ok(post.abs()),
        Err(e) => Err(e),
    }
}

/// What a declaration production does to the scope stack: it only appends,
/// and what it appends are declaration records, never frame markers.
pub open spec fn appends_declarations(pre: Seq<Identifier>, post: Seq<Identifier>) -> bool {
    &&& extends(pre, post)
    &&& forall|k: int| pre.len() <= k < post.len() ==> post[k].category != Category::Sentinel
}

impl Parser {
    /// The driver's basic well-formedness: the lookahead position is in
    /// range, the end marker is an end marker, and the stream is made of
    /// well-formed symbols.
    pub open spec fn wf(self) -> bool {
        &&& self.pos <= self.toks@.len()
        &&& self.eof.token is Empty
        &&& self.eof.category is Eof
        &&& self.eof.line == eof_line(self.toks@)
        &&& wf_symbols(self.toks@)
    }

    /// The current lookahead symbol: the one at the current position, or
    /// the end marker once the stream is exhausted.
    pub open spec fn cur(self) -> Symbol {
        symbol_at(self.toks@, self.pos as int)
    }

    /// The symbol `k` places after the current lookahead.
    pub open spec fn at(self, k: int) -> Symbol {
        symbol_at(self.toks@, self.pos + k)
    }

    /// The abstract analyzer state the recognizer speaks of.
    pub open spec fn abs(self) -> State {
        State {
            pos: self.pos as int,
            stack: entries_of(self.table.stack@),
            buffer: entries_of(self.table.buffer@),
            types: self.types_stack@,
        }
    }

    /// A fresh driver: empty stream, empty table, empty type stack.
    pub fn new() -> (p: Parser)
        ensures
            p.wf(),
            p.pos == 0,
            p.toks@ == Seq::<Symbol>::empty(),
            p.table.stack@ == Seq::<Identifier>::empty(),
            p.table.buffer@ == Seq::<Identifier>::empty(),
            p.types_stack@ == Seq::<Category>::empty(),
    {
        Parser {
            toks: Vec::new(),
            pos: 0,
            eof: Symbol { token: Token::Empty, category: Type::Eof, line: 0 },
            table: SymbolTable::new(),
            types_stack: Vec::new(),
        }
    }

    /// Advances the lookahead by one symbol.
    fn set_next_symbol(&mut self)
        requires
            old(self).wf(),
            old(self).pos < old(self).toks@.len(),
        ensures
            final(self).wf(),
            final(self).pos == old(self).pos + 1,
            final(self).toks@ == old(self).toks@,
            final(self).eof == old(self).eof,
            final(self).table == old(self).table,
            final(self).types_stack@ == old(self).types_stack@,
    {
        let n = self.toks.len();
        assert(self.pos < n);
        self.pos = self.pos + 1;
    }

    /// The current lookahead token.
    fn cur_token(&self) -> (t: &Token)
        requires
            self.wf(),
        ensures
            *t == self.cur().token,
    {
        if self.pos < self.toks.len() {
            &self.toks[self.pos].token
        } else {
            &self.eof.token
        }
    }

    /// The current lookahead's lexical category.
    fn cur_category(&self) -> (c: Type)
        requires
            self.wf(),
        ensures
            c == self.cur().category,
    {
        if self.pos < self.toks.len() {
            self.toks[self.pos].category
        } else {
            self.eof.category
        }
    }

    /// The current lookahead's source line.
    fn cur_line(&self) -> (l: u32)
        requires
            self.wf(),
        ensures
            l == self.cur().line,
    {
        if self.pos < self.toks.len() {
            self.toks[self.pos].line
        } else {
            self.eof.line
        }
    }

    /// The spelling of the current identifier token.
    fn cur_name(&self) -> (n: String)
        requires
            self.wf(),
            self.cur().token is LitStr,
        ensures
            n == self.cur().token->LitStr_0,
    {
        match self.cur_token() {
            Token::LitStr(s) => s.clone(),
            _ => unreached(),
        }
    }

    /// A syntax error quoting the current lookahead.
    fn syntax_err(&self, expected: Expectation) -> (e: ParseError)
        requires
            self.wf(),
        ensures
            e == (ParseError::Syntax {
                expected: expected,
                found: self.cur().token,
                line: self.cur().line,
            }),
    {
        let found = self.cur_token().duplicate();
        let line = self.cur_line();
        ParseError::Syntax { expected, found, line }
    }

    /// The category a factor symbol contributes to the type stack
    /// (`true`/`false` Boolean, literals their kind, an identifier what
    /// lookup resolves).
    fn match_token_category(&self, t: &Token) -> (c: Category)
        ensures
            c == spec_token_category(self.table.stack@, *t),
    {
        match t {
            Token::LitStr(s) => self.table.search_stack(s),
            Token::True => Category::Boolean,
            Token::False => Category::Boolean,
            Token::LitReal => Category::Real,
            Token::LitInt(_) => Category::Integer,
            _ => Category::Undefined,
        }
    }

    /// `tipo -> integer | real | boolean`.  Succeeds exactly on a type
    /// keyword; on success it consumes the keyword and flushes the pending
    /// buffer onto the scope stack with every pending identifier bound to
    /// the recognized type.
    fn parse_types(&mut self) -> (r: Result<(), ParseError>)
        requires
            old(self).wf(),
        ensures
            final(self).wf(),
            advances(*old(self), *final(self)),
            assign_errors_sound(r),
            final(self).types_stack@ == old(self).types_stack@,
            rec_types(old(self).toks@, old(self).abs()) == outcome_of(r, *final(self)),
            r is Ok <==> (old(self).cur().token is Integer || old(self).cur().token is Real || old(self).cur().token is Boolean),
            r is Ok ==> {
                &&& final(self).pos == old(self).pos + 1
                &&& final(self).table.stack@ == bound(
                    old(self).table.stack@,
                    old(self).table.buffer@,
                    category_of_type_token(old(self).cur().token),
                )
                &&& final(self).table.buffer@.len() == 0
            },
            r is Err ==> {
                &&& final(self).pos == old(self).pos
                &&& final(self).table == old(self).table
                &&& r == Err::<(), ParseError>(
                    ParseError::Syntax {
                        expected: Expectation::TypeKeyword,
                        found: old(self).cur().token,
                        line: old(self).cur().line,
                    },
                )
            },
    {
        let is_type = matches!(
            self.cur_token(),
            Token::Integer | Token::Real | Token::Boolean
        );
        if is_type {
            let cat = match self.cur_token() {
                Token::Integer => Category::Integer,
                Token::Real => Category::Real,
                _ => Category::Boolean,
            };
            assert(cat == category_of_type_token(self.cur().token));
            proof {
                lemma_bound_entries(self.table.stack@, self.table.buffer@, cat);
            }
            self.table.bind_type_and_erase(cat);
            proof {
                assert(entries_of(self.table.buffer@) =~= Seq::<Entry>::empty());
            }
            assert(self.pos < self.toks@.len());
            self.set_next_symbol();
            Ok(())
        } else {
            Err(self.syntax_err(Expectation::TypeKeyword))
        }
    }

    /// `lista_de_identificadores -> id lista_de_identificadores'`.  Each
    /// identifier is declared into the pending buffer; a missing leading
    /// identifier is an error unless the caller allowed the empty
    /// production.
    fn parse_list_identifiers(&mut self, ep_closure: bool) -> (r: Result<(), ParseError>)
        requires
            old(self).wf(),
        ensures
            final(self).wf(),
            advances(*old(self), *final(self)),
            assign_errors_sound(r),
            final(self).types_stack@ == old(self).types_stack@,
            final(self).table.stack@ == old(self).table.stack@,
            extends(old(self).table.buffer@, final(self).table.buffer@),
            rec_list_identifiers(old(self).toks@, old(self).abs(), ep_closure) == outcome_of(
                r,
                *final(self),
            ),
            (!(old(self).cur().category is Identifier) && ep_closure) ==> {
                &&& r is Ok
                &&& final(self).pos == old(self).pos
                &&& final(self).table == old(self).table
            },
            (!(old(self).cur().category is Identifier) && !ep_closure) ==> r == Err::<
                (),
                ParseError,
            >(
                ParseError::Syntax {
                    expected: Expectation::Identifier,
                    found: old(self).cur().token,
                    line: old(self).cur().line,
                },
            ),
            old(self).cur().category is Identifier ==> {
                let n = old(self).cur().token->LitStr_0@;
                let l = old(self).cur().line;
                &&& ((protected_in(old(self).table.stack@, n) || protected_in(
                    old(self).table.buffer@,
                    n,
                )) ==> (r matches Err(e) && e matches ParseError::ReservedName {
                    name,
                    line,
                } && name@ == n && line == l))
                &&& ((!protected_in(old(self).table.stack@, n) && !protected_in(
                    old(self).table.buffer@,
                    n,
                ) && (in_buffer(old(self).table.buffer@, n) || in_frame(
                    old(self).table.stack@,
                    n,
                ))) ==> (r matches Err(e) && e matches ParseError::AlreadyDeclared {
                    name,
                    line,
                } && name@ == n && line == l))
                &&& (r is Ok ==> {
                    &&& final(self).table.buffer@.len() > old(self).table.buffer@.len()
                    &&& final(self).table.buffer@[old(self).table.buffer@.len() as int].name@ == n
                    &&& final(self).table.buffer@[old(self).table.buffer@.len() as int].category
                        == Category::Undefined
                    &&& final(self).pos > old(self).pos
                })
            },
        decreases old(self).toks@.len() - old(self).pos, 1int,
    {
        let is_ident = matches!(self.cur_category(), Type::Identifier);
        if is_ident {
            assert(self.cur().token is LitStr);
            let name = self.cur_name();
            let line = self.cur_line();
            proof {
                let n = self.cur().token->LitStr_0@;
                lemma_protected_entries(self.table.stack@, n);
                lemma_protected_entries(self.table.buffer@, n);
                lemma_in_buffer_entries(self.table.buffer@, n);
                lemma_in_frame_entries(self.table.stack@, n);
            }
            match self.table.declare(name.clone()) {
                Err(DeclareError::ReservedName) => {
                    return Err(ParseError::ReservedName { name, line });
                },
                Err(DeclareError::AlreadyDeclared) => {
                    return Err(ParseError::AlreadyDeclared { name, line });
                },
                Ok(()) => {},
            }
            proof {
                assert(entries_of(self.table.buffer@) =~= entries_of(old(self).table.buffer@).push(
                    Entry { name: old(self).cur().token->LitStr_0@, category: Category::Undefined },
                ));
            }
            assert(self.pos < self.toks@.len());
            self.set_next_symbol();
            self.parse_list_identifiers_recursive()
        } else if !ep_closure {
            Err(self.syntax_err(Expectation::Identifier))
        } else {
            Ok(())
        }
    }

    /// `lista_de_identificadores' -> , id lista_de_identificadores' | e`.
    fn parse_list_identifiers_recursive(&mut self) -> (r: Result<(), ParseError>)
        requires
            old(self).wf(),
        ensures
            final(self).wf(),
            advances(*old(self), *final(self)),
            assign_errors_sound(r),
            final(self).types_stack@ == old(self).types_stack@,
            final(self).table.stack@ == old(self).table.stack@,
            extends(old(self).table.buffer@, final(self).table.buffer@),
            rec_list_identifiers_tail(old(self).toks@, old(self).abs()) == outcome_of(
                r,
                *final(self),
            ),
            !(old(self).cur().token is Comma) ==> {
                &&& r is Ok
                &&& final(self).pos == old(self).pos
                &&& final(self).table == old(self).table
            },
            r is Ok ==> !(final(self).cur().token is Comma),
            (old(self).cur().token is Comma && !(old(self).at(1).category is Identifier)) ==> r
                == Err::<(), ParseError>(
                ParseError::Syntax {
                    expected: Expectation::Identifier,
                    found: old(self).at(1).token,
                    line: old(self).at(1).line,
                },
            ),
            (old(self).cur().token is Comma && old(self).at(1).category is Identifier) ==> {
                let n = old(self).at(1).token->LitStr_0@;
                let l = old(self).at(1).line;
                &&& ((protected_in(old(self).table.stack@, n) || protected_in(
                    old(self).table.buffer@,
                    n,
                )) ==> (r matches Err(e) && e matches ParseError::ReservedName {
                    name,
                    line,
                } && name@ == n && line == l))
                &&& ((!protected_in(old(self).table.stack@, n) && !protected_in(
                    old(self).table.buffer@,
                    n,
                ) && (in_buffer(old(self).table.buffer@, n) || in_frame(
                    old(self).table.stack@,
                    n,
                ))) ==> (r matches Err(e) && e matches ParseError::AlreadyDeclared {
                    name,
                    line,
                } && name@ == n && line == l))
                &&& (r is Ok ==> {
                    &&& final(self).table.buffer@.len() > old(self).table.buffer@.len()
                    &&& final(self).table.buffer@[old(self).table.buffer@.len() as int].name@ == n
                    &&& final(self).table.buffer@[old(self).table.buffer@.len() as int].category
                        == Category::Undefined
                    &&& final(self).pos > old(self).pos
                })
            },
        decreases old(self).toks@.len() - old(self).pos, 1int,
    {
        let is_comma = matches!(self.cur_token(), Token::Comma);
        if is_comma {
            self.set_next_symbol();
            let is_ident = matches!(self.cur_category(), Type::Identifier);
            if is_ident {
                assert(self.cur().token is LitStr);
                let name = self.cur_name();
                let line = self.cur_line();
                proof {
                    let n = self.cur().token->LitStr_0@;
                    lemma_protected_entries(self.table.stack@, n);
                    lemma_protected_entries(self.table.buffer@, n);
                    lemma_in_buffer_entries(self.table.buffer@, n);
                    lemma_in_frame_entries(self.table.stack@, n);
                }
                match self.table.declare(name.clone()) {
                    Err(DeclareError::ReservedName) => {
                        return Err(ParseError::ReservedName { name, line });
                    },
                    Err(DeclareError::AlreadyDeclared) => {
                        return Err(ParseError::AlreadyDeclared { name, line });
                    },
                    Ok(()) => {},
                }
                proof {
                    assert(entries_of(self.table.buffer@) =~= entries_of(
                        old(self).table.buffer@,
                    ).push(Entry { name: old(self).at(1).token->LitStr_0@, category: Category::Undefined }));
                }
                assert(self.pos < self.toks@.len());
                self.set_next_symbol();
                self.parse_list_identifiers_recursive()
            } else {
                Err(self.syntax_err(Expectation::Identifier))
            }
        } else {
            Ok(())
        }
    }

    /// `lista_declaracoes_variaveis -> lista_de_identificadores : tipo ;
    /// lista_declaracoes_variaveis' | e`.  Declarations only append to the
    /// scope stack.
    fn parse_list_declare_var(&mut self, ep_closure: bool) -> (r: Result<(), ParseError>)
        requires
            old(self).wf(),
            old(self).table.buffer@.len() == 0,
        ensures
            final(self).wf(),
            advances(*old(self), *final(self)),
            assign_errors_sound(r),
            rec_list_declare_var(old(self).toks@, old(self).abs(), ep_closure) == outcome_of(r, *final(self)),
            r is Ok ==> final(self).table.buffer@.len() == 0,
            final(self).types_stack@ == old(self).types_stack@,
            appends_declarations(old(self).table.stack@, final(self).table.stack@),
            (!(old(self).cur().category is Identifier) && !(old(self).cur().token is Colon)
                && ep_closure) ==> {
                &&& r is Ok
                &&& final(self).pos == old(self).pos
                &&& final(self).table == old(self).table
            },
            (!(old(self).cur().category is Identifier) && !ep_closure) ==> r == Err::<
                (),
                ParseError,
            >(
                ParseError::Syntax {
                    expected: Expectation::Identifier,
                    found: old(self).cur().token,
                    line: old(self).cur().line,
                },
            ),
        decreases old(self).toks@.len() - old(self).pos, 2int,
    {
        let had_ids = matches!(self.cur_category(), Type::Identifier);
        let res = self.parse_list_identifiers(ep_closure);
        if let Err(e) = res {
            return Err(e);
        }
        let is_colon = matches!(self.cur_token(), Token::Colon);
        if is_colon {
            assert(self.pos < self.toks@.len());
            self.set_next_symbol();
            let ghost mid = *self;
            let res = self.parse_types();
            if let Err(e) = res {
                return Err(e);
            }
            proof {
                lemma_bound_appends(
                    mid.table.stack@,
                    mid.table.buffer@,
                    category_of_type_token(mid.cur().token),
                );
            }
            let is_semicolon = matches!(self.cur_token(), Token::Semicolon);
            if is_semicolon {
                self.set_next_symbol();
                let res = self.parse_list_declare_var(true);
                if let Err(e) = res {
                    return Err(e);
                }
                Ok(())
            } else {
                Err(self.syntax_err(Expectation::Delimiter(Token::Semicolon)))
            }
        } else if !ep_closure || had_ids {
            Err(self.syntax_err(Expectation::Delimiter(Token::Colon)))
        } else {
            Ok(())
        }
    }

    /// `declaracoes_variaveis -> var lista_declaracoes_variaveis | e`.
    fn parse_declare_var(&mut self) -> (r: Result<(), ParseError>)
        requires
            old(self).wf(),
            old(self).table.buffer@.len() == 0,
        ensures
            final(self).wf(),
            advances(*old(self), *final(self)),
            assign_errors_sound(r),
            rec_declare_var(old(self).toks@, old(self).abs()) == outcome_of(r, *final(self)),
            r is Ok ==> final(self).table.buffer@.len() == 0,
            final(self).types_stack@ == old(self).types_stack@,
            appends_declarations(old(self).table.stack@, final(self).table.stack@),
            !(old(self).cur().token is Var) ==> {
                &&& r is Ok
                &&& final(self).pos == old(self).pos
                &&& final(self).table == old(self).table
            },
        decreases old(self).toks@.len() - old(self).pos, 3int,
    {
        let is_var = matches!(self.cur_token(), Token::Var);
        if is_var {
            assert(self.pos < self.toks@.len());
            self.set_next_symbol();
            self.parse_list_declare_var(false)
        } else {
            Ok(())
        }
    }

    /// `fator -> id ativacao_de_procedimento? | ( expressao ) | num_int |
    /// num_real | true | false | not fator`.  A factor leaves at least one
    /// synthesized category on the type stack: literals their fixed
    /// category, an identifier whatever lookup resolves (an unresolved
    /// identifier is fatal); `not` passes its operand's category through
    /// unchanged.
    fn parse_factor(&mut self) -> (r: Result<(), ParseError>)
        requires
            old(self).wf(),
        ensures
            final(self).wf(),
            advances(*old(self), *final(self)),
            assign_errors_sound(r),
            rec_factor(old(self).toks@, old(self).abs()) == outcome_of(r, *final(self)),
            final(self).table == old(self).table,
            extends(old(self).types_stack@, final(self).types_stack@),
            r is Ok ==> final(self).types_stack@.len() == old(self).types_stack@.len() + 1
                && final(self).types_stack@.drop_last() == old(self).types_stack@ && final(self).pos > old(self).pos,
            old(self).cur().category is IntLiteral ==> r is Ok && final(self).types_stack@ == old(self).types_stack@.push(Category::Integer) && final(self).pos == old(self).pos + 1,
            old(self).cur().category is RealLiteral ==> r is Ok && final(self).types_stack@ == old(self).types_stack@.push(Category::Real) && final(self).pos == old(self).pos + 1,
            (old(self).cur().token is True || old(self).cur().token is False) ==> r is Ok && final(self).types_stack@ == old(self).types_stack@.push(Category::Boolean) && final(self).pos
                == old(self).pos + 1,
            old(self).cur().category is Identifier ==> {
                let n = old(self).cur().token->LitStr_0@;
                &&& (lookup_in(old(self).table.stack@, n) == Category::Undefined ==> (r matches Err(
                    e,
                ) && e matches ParseError::NotDeclared {
                    name,
                    line,
                } && name@ == n && line == old(self).cur().line && *final(self) == *old(self)))
                &&& (r is Ok ==> final(self).types_stack@ == old(self).types_stack@.push(
                    lookup_in(old(self).table.stack@, n),
                ))
            },
            (!(old(self).cur().category is Identifier) && !(old(self).cur().category is IntLiteral)
                && !(old(self).cur().category is RealLiteral) && !(old(self).cur().token is True)
                && !(old(self).cur().token is False) && !(old(self).cur().token is LParentheses)
                && !(old(self).cur().token is Not)) ==> r == Err::<(), ParseError>(
                ParseError::Syntax {
                    expected: Expectation::Factor,
                    found: old(self).cur().token,
                    line: old(self).cur().line,
                },
            ) && *final(self) == *old(self),
        decreases old(self).toks@.len() - old(self).pos, 1int,
    {
        let cat = self.cur_category();
        if matches!(cat, Type::Identifier) {
            assert(self.cur().token is LitStr);
            let name = self.cur_name();
            let c = self.table.search_stack(&name);
            proof {
                lemma_lookup_entries(self.table.stack@, name@);
            }
            if c != Category::Undefined {
                self.types_stack.push(c);
                assert(self.pos < self.toks@.len());
                self.set_next_symbol();
                self.parse_active_procedure()
            } else {
                let line = self.cur_line();
                Err(ParseError::NotDeclared { name, line })
            }
        } else if matches!(self.cur_token(), Token::LParentheses) {
            assert(self.pos < self.toks@.len());
            self.set_next_symbol();
            let res = self.parse_expr();
            if let Err(e) = res {
                return Err(e);
            }
            let is_close = matches!(self.cur_token(), Token::RParentheses);
            if is_close {
                self.set_next_symbol();
                Ok(())
            } else {
                Err(self.syntax_err(Expectation::Delimiter(Token::RParentheses)))
            }
        } else if matches!(cat, Type::IntLiteral | Type::RealLiteral) || matches!(
            self.cur_token(),
            Token::True | Token::False,
        ) {
            let c = self.match_token_category(self.cur_token());
            self.types_stack.push(c);
            assert(self.pos < self.toks@.len());
            self.set_next_symbol();
            Ok(())
        } else if matches!(self.cur_token(), Token::Not) {
            assert(self.pos < self.toks@.len());
            self.set_next_symbol();
            self.parse_factor()
        } else {
            Err(self.syntax_err(Expectation::Factor))
        }
    }

    /// `ativacao_de_procedimento -> ( lista_de_expressoes ) | e`.  The
    /// argument expressions are type-evaluated but never compared against
    /// a parameter signature; their synthesized categories stay on the
    /// type stack.
    fn parse_active_procedure(&mut self) -> (r: Result<(), ParseError>)
        requires
            old(self).wf(),
        ensures
            final(self).wf(),
            advances(*old(self), *final(self)),
            assign_errors_sound(r),
            rec_active_procedure(old(self).toks@, old(self).abs()) == outcome_of(r, *final(self)),
            final(self).table == old(self).table,
            extends(old(self).types_stack@, final(self).types_stack@),
            r is Ok ==> final(self).types_stack@ == old(self).types_stack@,
            !(old(self).cur().token is LParentheses) ==> r is Ok && *final(self) == *old(self),
        decreases old(self).toks@.len() - old(self).pos, 2int,
    {
        let is_open = matches!(self.cur_token(), Token::LParentheses);
        if is_open {
            assert(self.pos < self.toks@.len());
            self.set_next_symbol();
            let res = self.parse_list_expr();
            if let Err(e) = res {
                return Err(e);
            }
            let is_close = matches!(self.cur_token(), Token::RParentheses);
            if is_close {
                self.set_next_symbol();
                Ok(())
            } else {
                Err(self.syntax_err(Expectation::Delimiter(Token::RParentheses)))
            }
        } else {
            Ok(())
        }
    }

    /// `lista_de_expressoes -> expressao lista_de_expressoes'`.
    fn parse_list_expr(&mut self) -> (r: Result<(), ParseError>)
        requires
            old(self).wf(),
        ensures
            final(self).wf(),
            advances(*old(self), *final(self)),
            assign_errors_sound(r),
            rec_list_expr(old(self).toks@, old(self).abs()) == outcome_of(r, *final(self)),
            final(self).table == old(self).table,
            extends(old(self).types_stack@, final(self).types_stack@),
            r is Ok ==> final(self).types_stack@ == old(self).types_stack@ && final(self).pos
                > old(self).pos,
        decreases old(self).toks@.len() - old(self).pos, 5int,
    {
        let res = self.parse_expr();
        if let Err(e) = res {
            return Err(e);
        }
        let _argument = self.types_stack.pop();
        self.parse_list_expr_recursive()
    }

    /// `lista_de_expressoes' -> , expressao lista_de_expressoes' | e`.
    fn parse_list_expr_recursive(&mut self) -> (r: Result<(), ParseError>)
        requires
            old(self).wf(),
        ensures
            final(self).wf(),
            advances(*old(self), *final(self)),
            assign_errors_sound(r),
            rec_list_expr_tail(old(self).toks@, old(self).abs()) == outcome_of(r, *final(self)),
            final(self).table == old(self).table,
            extends(old(self).types_stack@, final(self).types_stack@),
            r is Ok ==> final(self).types_stack@ == old(self).types_stack@,
            !(old(self).cur().token is Comma) ==> r is Ok && *final(self) == *old(self),
            r is Ok ==> !(final(self).cur().token is Comma),
        decreases old(self).toks@.len() - old(self).pos, 5int,
    {
        let is_comma = matches!(self.cur_token(), Token::Comma);
        if is_comma {
            assert(self.pos < self.toks@.len());
            self.set_next_symbol();
            let res = self.parse_expr();
            if let Err(e) = res {
                return Err(e);
            }
            let _argument = self.types_stack.pop();
            self.parse_list_expr_recursive()
        } else {
            Ok(())
        }
    }

    /// `expressao -> expressao_simples (op_relacional expressao_simples)?`.
    /// A relational operator pops its two operand categories — `=` and
    /// `<>` demand identical operands, the ordering operators demand
    /// numeric ones — and pushes Boolean.  One synthesized category more
    /// than the caller had is left on the type stack.
    fn parse_expr(&mut self) -> (r: Result<(), ParseError>)
        requires
            old(self).wf(),
        ensures
            final(self).wf(),
            advances(*old(self), *final(self)),
            assign_errors_sound(r),
            rec_expr(old(self).toks@, old(self).abs()) == outcome_of(r, *final(self)),
            final(self).table == old(self).table,
            extends(old(self).types_stack@, final(self).types_stack@),
            r is Ok ==> final(self).types_stack@.len() == old(self).types_stack@.len() + 1
                && final(self).types_stack@.drop_last() == old(self).types_stack@ && final(self).pos > old(self).pos,
        decreases old(self).toks@.len() - old(self).pos, 4int,
    {
        let res = self.parse_simple_expr();
        if let Err(e) = res {
            return Err(e);
        }
        let is_rel = matches!(self.cur_category(), Type::RelOperator);
        if is_rel {
            let op = self.cur_token().duplicate();
            let line = self.cur_line();
            assert(self.pos < self.toks@.len());
            self.set_next_symbol();
            let res = self.parse_simple_expr();
            if let Err(e) = res {
                return Err(e);
            }
            assert(self.types_stack@.len() >= 2);
            self.combine_relational(op, line)
        } else {
            Ok(())
        }
    }

    /// Applies a relational operator to the two topmost categories of the
    /// type stack: `=` and `<>` demand identical operands, the ordering
    /// operators demand numeric ones, and the synthesized result is
    /// Boolean.  The right operand sits on top and is examined first.
    fn combine_relational(&mut self, op: Token, line: u32) -> (r: Result<(), ParseError>)
        requires
            old(self).wf(),
            old(self).types_stack@.len() >= 2,
            op is Equal || op is NotEqual || op is GreaterThan || op is LessThan
                || op is GreaterThanOrEqual || op is LessThanOrEqual,
        ensures
            final(self).wf(),
            assign_errors_sound(r),
            final(self).pos == old(self).pos,
            final(self).toks@ == old(self).toks@,
            final(self).eof == old(self).eof,
            final(self).table == old(self).table,
            ({
                let a = old(self).types_stack@.last();
                let b = old(self).types_stack@[old(self).types_stack@.len() - 2];
                let rest = old(self).types_stack@.subrange(
                    0,
                    old(self).types_stack@.len() - 2,
                );
                &&& (r is Ok ==> final(self).types_stack@ == rest.push(Category::Boolean))
                &&& (r is Err ==> final(self).types_stack@ == rest)
                &&& ((op is Equal || op is NotEqual) ==> {
                    &&& (r is Ok <==> equality_ok(a, b))
                    &&& (!equality_ok(a, b) ==> r == Err::<(), ParseError>(
                        ParseError::EqualityMismatch { right: a, left: b, op: op, line: line },
                    ))
                })
                &&& (!(op is Equal) && !(op is NotEqual) ==> {
                    &&& (r is Ok <==> ordering_operand_ok(a) && ordering_operand_ok(b))
                    &&& (!ordering_operand_ok(a) ==> r == Err::<(), ParseError>(
                        ParseError::RelationalMismatch { found: a, op: op, line: line },
                    ))
                    &&& (ordering_operand_ok(a) && !ordering_operand_ok(b) ==> r == Err::<
                        (),
                        ParseError,
                    >(ParseError::RelationalMismatch { found: b, op: op, line: line }))
                })
            }),
    {
        let op1 = self.types_stack.pop().unwrap();
        let op2 = self.types_stack.pop().unwrap();
        if matches!(op, Token::Equal | Token::NotEqual) {
            if op1 != op2 {
                return Err(ParseError::EqualityMismatch { right: op1, left: op2, op, line });
            }
        } else {
            if !(op1 == Category::Real || op1 == Category::Integer) {
                return Err(ParseError::RelationalMismatch { found: op1, op, line });
            }
            if !(op2 == Category::Real || op2 == Category::Integer) {
                return Err(ParseError::RelationalMismatch { found: op2, op, line });
            }
        }
        self.types_stack.push(Category::Boolean);
        Ok(())
    }

    /// Applies `+`, `-` or `or` to the two topmost categories of the type
    /// stack: the arithmetic operators demand non-Boolean operands and
    /// synthesize Integer exactly from two Integers (Real otherwise);
    /// `or` demands Boolean operands and synthesizes Boolean.
    fn combine_additive(&mut self, op: Token, line: u32) -> (r: Result<(), ParseError>)
        requires
            old(self).wf(),
            old(self).types_stack@.len() >= 2,
            op is Add || op is Sub || op is Or,
        ensures
            final(self).wf(),
            assign_errors_sound(r),
            final(self).pos == old(self).pos,
            final(self).toks@ == old(self).toks@,
            final(self).eof == old(self).eof,
            final(self).table == old(self).table,
            ({
                let a = old(self).types_stack@.last();
                let b = old(self).types_stack@[old(self).types_stack@.len() - 2];
                let rest = old(self).types_stack@.subrange(
                    0,
                    old(self).types_stack@.len() - 2,
                );
                &&& (r is Err ==> final(self).types_stack@ == rest)
                &&& ((op is Add || op is Sub) ==> {
                    &&& (r is Ok <==> arith_ok(a, b))
                    &&& (r is Ok ==> final(self).types_stack@ == rest.push(arith_result(a, b)))
                    &&& (!arith_ok(a, b) ==> r == Err::<(), ParseError>(
                        ParseError::ArithmeticMismatch { op: op, line: line },
                    ))
                })
                &&& (op is Or ==> {
                    &&& (r is Ok <==> logic_ok(a, b))
                    &&& (r is Ok ==> final(self).types_stack@ == rest.push(Category::Boolean))
                    &&& (!logic_ok(a, b) ==> r == Err::<(), ParseError>(
                        ParseError::LogicMismatch { op: op, line: line },
                    ))
                })
            }),
    {
        let op1 = self.types_stack.pop().unwrap();
        let op2 = self.types_stack.pop().unwrap();
        if matches!(op, Token::Add | Token::Sub) {
            if op1 == Category::Integer && op2 == Category::Integer {
                self.types_stack.push(Category::Integer);
            } else if op1 == Category::Boolean || op2 == Category::Boolean {
                return Err(ParseError::ArithmeticMismatch { op, line });
            } else {
                self.types_stack.push(Category::Real);
            }
            Ok(())
        } else {
            if op1 != Category::Boolean || op2 != Category::Boolean {
                return Err(ParseError::LogicMismatch { op, line });
            }
            self.types_stack.push(Category::Boolean);
            Ok(())
        }
    }

    /// Applies `*`, `/` or `and` to the two topmost categories of the
    /// type stack, under the same rules as the additive operators.
    fn combine_multiplicative(&mut self, op: Token, line: u32) -> (r: Result<(), ParseError>)
        requires
            old(self).wf(),
            old(self).types_stack@.len() >= 2,
            op is Mult || op is Div || op is And,
        ensures
            final(self).wf(),
            assign_errors_sound(r),
            final(self).pos == old(self).pos,
            final(self).toks@ == old(self).toks@,
            final(self).eof == old(self).eof,
            final(self).table == old(self).table,
            ({
                let a = old(self).types_stack@.last();
                let b = old(self).types_stack@[old(self).types_stack@.len() - 2];
                let rest = old(self).types_stack@.subrange(
                    0,
                    old(self).types_stack@.len() - 2,
                );
                &&& (r is Err ==> final(self).types_stack@ == rest)
                &&& ((op is Mult || op is Div) ==> {
                    &&& (r is Ok <==> arith_ok(a, b))
                    &&& (r is Ok ==> final(self).types_stack@ == rest.push(arith_result(a, b)))
                    &&& (!arith_ok(a, b) ==> r == Err::<(), ParseError>(
                        ParseError::ArithmeticMismatch { op: op, line: line },
                    ))
                })
                &&& (op is And ==> {
                    &&& (r is Ok <==> logic_ok(a, b))
                    &&& (r is Ok ==> final(self).types_stack@ == rest.push(Category::Boolean))
                    &&& (!logic_ok(a, b) ==> r == Err::<(), ParseError>(
                        ParseError::LogicMismatch { op: op, line: line },
                    ))
                })
            }),
    {
        let op1 = self.types_stack.pop().unwrap();
        let op2 = self.types_stack.pop().unwrap();
        if matches!(op, Token::Mult | Token::Div) {
            if op1 == Category::Integer && op2 == Category::Integer {
                self.types_stack.push(Category::Integer);
            } else if op1 == Category::Boolean || op2 == Category::Boolean {
                return Err(ParseError::ArithmeticMismatch { op, line });
            } else {
                self.types_stack.push(Category::Real);
            }
            Ok(())
        } else {
            if op1 != Category::Boolean || op2 != Category::Boolean {
                return Err(ParseError::LogicMismatch { op, line });
            }
            self.types_stack.push(Category::Boolean);
            Ok(())
        }
    }

    /// `expressao_simples -> (+|-)? termo expressao_simples'`.  A leading
    /// sign is consumed without affecting the synthesized category.
    fn parse_simple_expr(&mut self) -> (r: Result<(), ParseError>)
        requires
            old(self).wf(),
        ensures
            final(self).wf(),
            advances(*old(self), *final(self)),
            assign_errors_sound(r),
            rec_simple_expr(old(self).toks@, old(self).abs()) == outcome_of(r, *final(self)),
            final(self).table == old(self).table,
            extends(old(self).types_stack@, final(self).types_stack@),
            r is Ok ==> final(self).types_stack@.len() == old(self).types_stack@.len() + 1
                && final(self).types_stack@.drop_last() == old(self).types_stack@ && final(self).pos > old(self).pos,
        decreases old(self).toks@.len() - old(self).pos, 3int,
    {
        let is_sign = matches!(self.cur_token(), Token::Add | Token::Sub);
        if is_sign {
            assert(self.pos < self.toks@.len());
            self.set_next_symbol();
        }
        let res = self.parse_term();
        if let Err(e) = res {
            return Err(e);
        }
        self.parse_simple_expr_recursive()
    }

    /// `expressao_simples' -> op_aditivo termo expressao_simples' | e`.
    /// `+` and `-` demand non-Boolean operands and synthesize Integer only
    /// from two Integers, Real otherwise; `or` demands Boolean operands
    /// and synthesizes Boolean.
    fn parse_simple_expr_recursive(&mut self) -> (r: Result<(), ParseError>)
        requires
            old(self).wf(),
            old(self).types_stack@.len() >= 1,
        ensures
            final(self).wf(),
            advances(*old(self), *final(self)),
            assign_errors_sound(r),
            rec_simple_expr_tail(old(self).toks@, old(self).abs()) == outcome_of(r, *final(self)),
            final(self).table == old(self).table,
            extends(old(self).types_stack@.drop_last(), final(self).types_stack@),
            r is Ok ==> final(self).types_stack@.len() == old(self).types_stack@.len()
                && final(self).types_stack@.drop_last() == old(self).types_stack@.drop_last(),
            !(old(self).cur().category is AddOperator) ==> r is Ok && *final(self) == *old(self),
            r is Ok ==> !(final(self).cur().category is AddOperator),
        decreases old(self).toks@.len() - old(self).pos, 3int,
    {
        let is_add = matches!(self.cur_category(), Type::AddOperator);
        if is_add {
            let op = self.cur_token().duplicate();
            let line = self.cur_line();
            assert(self.pos < self.toks@.len());
            self.set_next_symbol();
            let res = self.parse_term();
            if let Err(e) = res {
                return Err(e);
            }
            assert(self.types_stack@.len() >= 2);
            let res = self.combine_additive(op, line);
            if let Err(e) = res {
                return Err(e);
            }
            self.parse_simple_expr_recursive()
        } else {
            Ok(())
        }
    }

    /// `termo -> fator termo'`.
    fn parse_term(&mut self) -> (r: Result<(), ParseError>)
        requires
            old(self).wf(),
        ensures
            final(self).wf(),
            advances(*old(self), *final(self)),
            assign_errors_sound(r),
            rec_term(old(self).toks@, old(self).abs()) == outcome_of(r, *final(self)),
            final(self).table == old(self).table,
            extends(old(self).types_stack@, final(self).types_stack@),
            r is Ok ==> final(self).types_stack@.len() == old(self).types_stack@.len() + 1
                && final(self).types_stack@.drop_last() == old(self).types_stack@ && final(self).pos > old(self).pos,
        decreases old(self).toks@.len() - old(self).pos, 2int,
    {
        let res = self.parse_factor();
        if let Err(e) = res {
            return Err(e);
        }
        self.parse_term_recursive()
    }

    /// `termo' -> op_multiplicativo fator termo' | e`.  `*` and `/` demand
    /// non-Boolean operands and synthesize Integer only from two Integers,
    /// Real otherwise; `and` demands Boolean operands and synthesizes
    /// Boolean.
    fn parse_term_recursive(&mut self) -> (r: Result<(), ParseError>)
        requires
            old(self).wf(),
            old(self).types_stack@.len() >= 1,
        ensures
            final(self).wf(),
            advances(*old(self), *final(self)),
            assign_errors_sound(r),
            rec_term_tail(old(self).toks@, old(self).abs()) == outcome_of(r, *final(self)),
            final(self).table == old(self).table,
            extends(old(self).types_stack@.drop_last(), final(self).types_stack@),
            r is Ok ==> final(self).types_stack@.len() == old(self).types_stack@.len()
                && final(self).types_stack@.drop_last() == old(self).types_stack@.drop_last(),
            !(old(self).cur().category is MulOperator) ==> r is Ok && *final(self) == *old(self),
            r is Ok ==> !(final(self).cur().category is MulOperator),
        decreases old(self).toks@.len() - old(self).pos, 2int,
    {
        let is_mul = matches!(self.cur_category(), Type::MulOperator);
        if is_mul {
            let op = self.cur_token().duplicate();
            let line = self.cur_line();
            assert(self.pos < self.toks@.len());
            self.set_next_symbol();
            let res = self.parse_factor();
            if let Err(e) = res {
                return Err(e);
            }
            assert(self.types_stack@.len() >= 2);
            let res = self.combine_multiplicative(op, line);
            if let Err(e) = res {
                return Err(e);
            }
            self.parse_term_recursive()
        } else {
            Ok(())
        }
    }

    /// `comando_composto -> begin lista_de_comandos end`.  When the
    /// compound is the body of a program or procedure (`close_frame`),
    /// reaching `end` closes that routine's frame; a compound nested
    /// inside a command list opens no frame, so it closes none either, and
    /// the sentinel count stays equal to the nesting depth of open
    /// routine bodies.
    fn parse_compound_command(&mut self, close_frame: bool) -> (r: Result<(), ParseError>)
        requires
            old(self).wf(),
            close_frame ==> exists|i: int|
                0 <= i < old(self).table.stack@.len() && old(self).table.stack@[i].category
                    == Category::Sentinel,
        ensures
            final(self).wf(),
            advances(*old(self), *final(self)),
            assign_errors_sound(r),
            rec_compound(old(self).toks@, old(self).abs(), close_frame) == outcome_of(r, *final(self)),
            final(self).table.buffer@ == old(self).table.buffer@,
            !close_frame ==> final(self).table == old(self).table,
            close_frame && r is Ok ==> final(self).table.stack@ == cleared(old(self).table.stack@),
            close_frame && r is Err ==> final(self).table == old(self).table,
            extends(old(self).types_stack@, final(self).types_stack@),
            r is Ok ==> final(self).types_stack@ == old(self).types_stack@,
            !(old(self).cur().token is Begin) ==> r == Err::<(), ParseError>(
                ParseError::Syntax {
                    expected: Expectation::Keyword(Token::Begin),
                    found: old(self).cur().token,
                    line: old(self).cur().line,
                },
            ) && *final(self) == *old(self),
            r is Ok ==> final(self).pos > old(self).pos,
        decreases old(self).toks@.len() - old(self).pos, 1int,
    {
        let is_begin = matches!(self.cur_token(), Token::Begin);
        if is_begin {
            assert(self.pos < self.toks@.len());
            self.set_next_symbol();
            let res = self.parse_list_command(true);
            if let Err(e) = res {
                return Err(e);
            }
            let is_end = matches!(self.cur_token(), Token::End);
            if is_end {
                if close_frame {
                    proof {
                        lemma_cleared_entries(self.table.stack@);
                    }
                    self.table.clear_scope();
                }
                assert(self.pos < self.toks@.len());
                self.set_next_symbol();
                Ok(())
            } else {
                Err(self.syntax_err(Expectation::Keyword(Token::End)))
            }
        } else {
            Err(self.syntax_err(Expectation::Keyword(Token::Begin)))
        }
    }

    /// `lista_de_comandos -> comando lista_de_comandos'`.
    fn parse_list_command(&mut self, ep_closure: bool) -> (r: Result<(), ParseError>)
        requires
            old(self).wf(),
        ensures
            final(self).wf(),
            advances(*old(self), *final(self)),
            assign_errors_sound(r),
            rec_list_command(old(self).toks@, old(self).abs(), ep_closure) == outcome_of(r, *final(self)),
            final(self).table == old(self).table,
            extends(old(self).types_stack@, final(self).types_stack@),
            r is Ok ==> final(self).types_stack@ == old(self).types_stack@,
        decreases old(self).toks@.len() - old(self).pos, 3int,
    {
        let res = self.parse_command(ep_closure);
        if let Err(e) = res {
            return Err(e);
        }
        self.parse_list_command_recursive()
    }

    /// `lista_de_comandos' -> ; comando lista_de_comandos' | e`.
    fn parse_list_command_recursive(&mut self) -> (r: Result<(), ParseError>)
        requires
            old(self).wf(),
        ensures
            final(self).wf(),
            advances(*old(self), *final(self)),
            assign_errors_sound(r),
            rec_list_command_tail(old(self).toks@, old(self).abs()) == outcome_of(r, *final(self)),
            final(self).table == old(self).table,
            extends(old(self).types_stack@, final(self).types_stack@),
            r is Ok ==> final(self).types_stack@ == old(self).types_stack@,
            !(old(self).cur().token is Semicolon) ==> r is Ok && *final(self) == *old(self),
            r is Ok ==> !(final(self).cur().token is Semicolon),
        decreases old(self).toks@.len() - old(self).pos, 2int,
    {
        let is_semicolon = matches!(self.cur_token(), Token::Semicolon);
        if is_semicolon {
            assert(self.pos < self.toks@.len());
            self.set_next_symbol();
            let res = self.parse_command(true);
            if let Err(e) = res {
                return Err(e);
            }
            self.parse_list_command_recursive()
        } else {
            Ok(())
        }
    }

    /// `comando -> id (:= expressao | ativacao_de_procedimento?) |
    /// comando_composto | if expressao then comando senao_parte | while
    /// expressao do comando | e`.  A command that begins with an
    /// identifier must resolve it; an assignment type-checks its
    /// right-hand side against the target's acceptable set.  The `if` and
    /// `while` conditions are parsed and type-evaluated, and their
    /// synthesized category is consumed, but never compared: conditions
    /// are not type-checked, as in the grammar this recognizer
    /// implements.
    fn parse_command(&mut self, ep_closure: bool) -> (r: Result<(), ParseError>)
        requires
            old(self).wf(),
        ensures
            final(self).wf(),
            advances(*old(self), *final(self)),
            assign_errors_sound(r),
            rec_command(old(self).toks@, old(self).abs(), ep_closure) == outcome_of(r, *final(self)),
            final(self).table == old(self).table,
            extends(old(self).types_stack@, final(self).types_stack@),
            r is Ok ==> final(self).types_stack@ == old(self).types_stack@,
            old(self).cur().category is Identifier ==> {
                let n = old(self).cur().token->LitStr_0@;
                lookup_in(old(self).table.stack@, n) == Category::Undefined ==> (r matches Err(e)
                    && e matches ParseError::NotDeclared {
                    name,
                    line,
                } && name@ == n && line == old(self).cur().line && *final(self) == *old(self))
            },
            (!(old(self).cur().category is Identifier) && !(old(self).cur().token is Begin) && !(
            old(self).cur().token is If) && !(old(self).cur().token is While)) ==> if ep_closure {
                r is Ok && *final(self) == *old(self)
            } else {
                r == Err::<(), ParseError>(
                    ParseError::Syntax {
                        expected: Expectation::Identifier,
                        found: old(self).cur().token,
                        line: old(self).cur().line,
                    },
                ) && *final(self) == *old(self)
            },
        decreases old(self).toks@.len() - old(self).pos, 2int,
    {
        let cat = self.cur_category();
        if matches!(cat, Type::Identifier) {
            assert(self.cur().token is LitStr);
            let name = self.cur_name();
            let line = self.cur_line();
            let category = self.table.search_stack(&name);
            proof {
                lemma_lookup_entries(self.table.stack@, name@);
            }
            if category != Category::Undefined {
                assert(self.pos < self.toks@.len());
                self.set_next_symbol();
                let is_assign = matches!(self.cur_token(), Token::Assign);
                if is_assign {
                    let saved_line = self.cur_line();
                    assert(self.pos < self.toks@.len());
                    self.set_next_symbol();
                    let res = self.parse_expr();
                    if let Err(e) = res {
                        return Err(e);
                    }
                    assert(self.types_stack@.len() >= 1);
                    let exp_result = self.types_stack.pop().unwrap();
                    if !accepts(category, exp_result) {
                        let expected = primary_acceptable(category);
                        proof {
                            lemma_primary_mismatch(category, exp_result);
                        }
                        return Err(
                            ParseError::AssignMismatch {
                                expected,
                                found: exp_result,
                                line: saved_line,
                            },
                        );
                    }
                    Ok(())
                } else {
                    self.parse_active_procedure()
                }
            } else {
                Err(ParseError::NotDeclared { name, line })
            }
        } else if matches!(self.cur_token(), Token::Begin) {
            self.parse_compound_command(false)
        } else if matches!(self.cur_token(), Token::If) {
            assert(self.pos < self.toks@.len());
            self.set_next_symbol();
            let res = self.parse_expr();
            if let Err(e) = res {
                return Err(e);
            }
            let _condition = self.types_stack.pop();
            let is_then = matches!(self.cur_token(), Token::Then);
            if is_then {
                assert(self.pos < self.toks@.len());
                self.set_next_symbol();
                let res = self.parse_command(false);
                if let Err(e) = res {
                    return Err(e);
                }
                self.parse_else()
            } else {
                Err(self.syntax_err(Expectation::Keyword(Token::Then)))
            }
        } else if matches!(self.cur_token(), Token::While) {
            assert(self.pos < self.toks@.len());
            self.set_next_symbol();
            let res = self.parse_expr();
            if let Err(e) = res {
                return Err(e);
            }
            let _condition = self.types_stack.pop();
            let is_do = matches!(self.cur_token(), Token::Do);
            if is_do {
                assert(self.pos < self.toks@.len());
                self.set_next_symbol();
                self.parse_command(false)
            } else {
                Err(self.syntax_err(Expectation::Keyword(Token::Do)))
            }
        } else if !ep_closure {
            Err(self.syntax_err(Expectation::Identifier))
        } else {
            Ok(())
        }
    }

    /// `senao_parte -> else comando | e`.
    fn parse_else(&mut self) -> (r: Result<(), ParseError>)
        requires
            old(self).wf(),
        ensures
            final(self).wf(),
            advances(*old(self), *final(self)),
            assign_errors_sound(r),
            rec_else(old(self).toks@, old(self).abs()) == outcome_of(r, *final(self)),
            final(self).table == old(self).table,
            extends(old(self).types_stack@, final(self).types_stack@),
            r is Ok ==> final(self).types_stack@ == old(self).types_stack@,
            !(old(self).cur().token is Else) ==> r is Ok && *final(self) == *old(self),
        decreases old(self).toks@.len() - old(self).pos, 2int,
    {
        let is_else = matches!(self.cur_token(), Token::Else);
        if is_else {
            assert(self.pos < self.toks@.len());
            self.set_next_symbol();
            self.parse_command(false)
        } else {
            Ok(())
        }
    }

    /// `argumentos -> ( lista_de_parametros ) | e`.
    fn parse_args(&mut self) -> (r: Result<(), ParseError>)
        requires
            old(self).wf(),
            old(self).table.buffer@.len() == 0,
        ensures
            final(self).wf(),
            advances(*old(self), *final(self)),
            assign_errors_sound(r),
            rec_args(old(self).toks@, old(self).abs()) == outcome_of(r, *final(self)),
            r is Ok ==> final(self).table.buffer@.len() == 0,
            final(self).types_stack@ == old(self).types_stack@,
            appends_declarations(old(self).table.stack@, final(self).table.stack@),
            !(old(self).cur().token is LParentheses) ==> r is Ok && *final(self) == *old(self),
        decreases old(self).toks@.len() - old(self).pos, 3int,
    {
        let is_open = matches!(self.cur_token(), Token::LParentheses);
        if is_open {
            assert(self.pos < self.toks@.len());
            self.set_next_symbol();
            let res = self.parse_list_params();
            if let Err(e) = res {
                return Err(e);
            }
            let is_close = matches!(self.cur_token(), Token::RParentheses);
            if is_close {
                self.set_next_symbol();
                Ok(())
            } else {
                Err(self.syntax_err(Expectation::Delimiter(Token::RParentheses)))
            }
        } else {
            Ok(())
        }
    }

    /// `lista_de_parametros -> lista_de_identificadores : tipo
    /// lista_de_parametros'`.
    fn parse_list_params(&mut self) -> (r: Result<(), ParseError>)
        requires
            old(self).wf(),
            old(self).table.buffer@.len() == 0,
        ensures
            final(self).wf(),
            advances(*old(self), *final(self)),
            assign_errors_sound(r),
            rec_list_params(old(self).toks@, old(self).abs()) == outcome_of(r, *final(self)),
            r is Ok ==> final(self).table.buffer@.len() == 0,
            final(self).types_stack@ == old(self).types_stack@,
            appends_declarations(old(self).table.stack@, final(self).table.stack@),
        decreases old(self).toks@.len() - old(self).pos, 2int,
    {
        let res = self.parse_list_identifiers(false);
        if let Err(e) = res {
            return Err(e);
        }
        let is_colon = matches!(self.cur_token(), Token::Colon);
        if is_colon {
            assert(self.pos < self.toks@.len());
            self.set_next_symbol();
            let ghost mid = *self;
            let res = self.parse_types();
            if let Err(e) = res {
                return Err(e);
            }
            proof {
                lemma_bound_appends(
                    mid.table.stack@,
                    mid.table.buffer@,
                    category_of_type_token(mid.cur().token),
                );
            }
            self.parse_list_params_recursive()
        } else {
            Err(self.syntax_err(Expectation::Delimiter(Token::Colon)))
        }
    }

    /// `lista_de_parametros' -> ; lista_de_identificadores : tipo
    /// lista_de_parametros' | e`.
    fn parse_list_params_recursive(&mut self) -> (r: Result<(), ParseError>)
        requires
            old(self).wf(),
            old(self).table.buffer@.len() == 0,
        ensures
            final(self).wf(),
            advances(*old(self), *final(self)),
            assign_errors_sound(r),
            rec_list_params_tail(old(self).toks@, old(self).abs()) == outcome_of(r, *final(self)),
            r is Ok ==> final(self).table.buffer@.len() == 0,
            final(self).types_stack@ == old(self).types_stack@,
            appends_declarations(old(self).table.stack@, final(self).table.stack@),
            !(old(self).cur().token is Semicolon) ==> r is Ok && *final(self) == *old(self),
            r is Ok ==> !(final(self).cur().token is Semicolon),
        decreases old(self).toks@.len() - old(self).pos, 3int,
    {
        let is_semicolon = matches!(self.cur_token(), Token::Semicolon);
        if is_semicolon {
            assert(self.pos < self.toks@.len());
            self.set_next_symbol();
            let res = self.parse_list_identifiers(false);
            if let Err(e) = res {
                return Err(e);
            }
            let is_colon = matches!(self.cur_token(), Token::Colon);
            if is_colon {
                assert(self.pos < self.toks@.len());
                self.set_next_symbol();
                let ghost mid = *self;
                let res = self.parse_types();
                if let Err(e) = res {
                    return Err(e);
                }
                proof {
                    lemma_bound_appends(
                        mid.table.stack@,
                        mid.table.buffer@,
                        category_of_type_token(mid.cur().token),
                    );
                }
                self.parse_list_params_recursive()
            } else {
                Err(self.syntax_err(Expectation::Delimiter(Token::Colon)))
            }
        } else {
            Ok(())
        }
    }

    /// `declaracao_de_subprograma -> procedure id argumentos ;
    /// declaracoes_variaveis declaracoes_de_subprogramas
    /// comando_composto`.  The procedure's name is declared into the
    /// enclosing frame, then a new frame opens for its parameters and
    /// body.
    fn parse_declare_subprogram(&mut self, ep_closure: bool) -> (r: Result<(), ParseError>)
        requires
            old(self).wf(),
            old(self).table.buffer@.len() == 0,
        ensures
            final(self).wf(),
            advances(*old(self), *final(self)),
            assign_errors_sound(r),
            rec_subprogram(old(self).toks@, old(self).abs(), ep_closure) == outcome_of(r, *final(self)),
            r is Ok ==> final(self).table.buffer@.len() == 0,
            extends(old(self).types_stack@, final(self).types_stack@),
            r is Ok ==> final(self).types_stack@ == old(self).types_stack@,
            r is Ok ==> appends_declarations(old(self).table.stack@, final(self).table.stack@),
            (r is Ok && old(self).cur().token is Procedure) ==> {
                &&& old(self).at(1).category is Identifier
                &&& final(self).table.stack@.len() == old(self).table.stack@.len() + 1
                &&& final(self).table.stack@.drop_last() == old(self).table.stack@
                &&& final(self).table.stack@.last().category == Category::Procedure
                &&& final(self).table.stack@.last().name@ == old(self).at(1).token->LitStr_0@
            },
            (!(old(self).cur().token is Procedure) && ep_closure) ==> r is Ok && *final(self)
                == *old(self),
            (!(old(self).cur().token is Procedure) && !ep_closure) ==> r == Err::<(), ParseError>(
                ParseError::Syntax {
                    expected: Expectation::Keyword(Token::Procedure),
                    found: old(self).cur().token,
                    line: old(self).cur().line,
                },
            ) && *final(self) == *old(self),
        decreases old(self).toks@.len() - old(self).pos, 4int,
    {
        let is_procedure = matches!(self.cur_token(), Token::Procedure);
        if is_procedure {
            assert(self.pos < self.toks@.len());
            self.set_next_symbol();
            let is_ident = matches!(self.cur_category(), Type::Identifier);
            if is_ident {
                assert(self.cur().token is LitStr);
                let name = self.cur_name();
                let ghost n = self.cur().token->LitStr_0@;
                self.table.push_declaration(name, Category::Procedure);
                let ghost named = *self;
                self.table.open_frame();
                let ghost opened = *self;
                proof {
                    assert(entries_of(named.table.stack@) =~= entries_of(
                        old(self).table.stack@,
                    ).push(Entry { name: n, category: Category::Procedure }));
                    assert(entries_of(opened.table.stack@) =~= entries_of(
                        named.table.stack@,
                    ).push(Entry { name: "$"@, category: Category::Sentinel }));
                }
                assert(self.pos < self.toks@.len());
                self.set_next_symbol();
                let res = self.parse_args();
                if let Err(e) = res {
                    return Err(e);
                }
                let is_semicolon = matches!(self.cur_token(), Token::Semicolon);
                if is_semicolon {
                    self.set_next_symbol();
                    let res = self.parse_declare_var();
                    if let Err(e) = res {
                        return Err(e);
                    }
                    let res = self.parse_declare_subprograms();
                    if let Err(e) = res {
                        return Err(e);
                    }
                    let ghost at_body = *self;
                    let res = self.parse_compound_command(true);
                    if let Err(e) = res {
                        return Err(e);
                    }
                    proof {
                        let sent = opened.table.stack@.last();
                        let above = at_body.table.stack@.subrange(
                            opened.table.stack@.len() as int,
                            at_body.table.stack@.len() as int,
                        );
                        assert(at_body.table.stack@ =~= named.table.stack@.push(sent) + above);
                        assert forall|i: int| 0 <= i < above.len() implies above[i].category
                            != Category::Sentinel by {
                            assert(above[i] == at_body.table.stack@[opened.table.stack@.len()
                                + i]);
                        }
                        lemma_cleared_past_frame(named.table.stack@, sent, above);
                    }
                    Ok(())
                } else {
                    Err(self.syntax_err(Expectation::Delimiter(Token::Semicolon)))
                }
            } else {
                Err(self.syntax_err(Expectation::Identifier))
            }
        } else if !ep_closure {
            Err(self.syntax_err(Expectation::Keyword(Token::Procedure)))
        } else {
            Ok(())
        }
    }

    /// `declaracoes_de_subprogramas -> (declaracao_de_subprograma ;)*`.
    fn parse_declare_subprograms(&mut self) -> (r: Result<(), ParseError>)
        requires
            old(self).wf(),
            old(self).table.buffer@.len() == 0,
        ensures
            final(self).wf(),
            advances(*old(self), *final(self)),
            assign_errors_sound(r),
            rec_subprograms(old(self).toks@, old(self).abs()) == outcome_of(r, *final(self)),
            r is Ok ==> final(self).table.buffer@.len() == 0,
            extends(old(self).types_stack@, final(self).types_stack@),
            r is Ok ==> final(self).types_stack@ == old(self).types_stack@,
            r is Ok ==> appends_declarations(old(self).table.stack@, final(self).table.stack@),
            !(old(self).cur().token is Procedure) ==> r is Ok && *final(self) == *old(self),
        decreases old(self).toks@.len() - old(self).pos, 5int,
    {
        let is_procedure = matches!(self.cur_token(), Token::Procedure);
        if is_procedure {
            let res = self.parse_declare_subprogram(true);
            if let Err(e) = res {
                return Err(e);
            }
            let is_semicolon = matches!(self.cur_token(), Token::Semicolon);
            if is_semicolon {
                assert(self.pos < self.toks@.len());
                self.set_next_symbol();
                self.parse_declare_subprograms()
            } else {
                Err(self.syntax_err(Expectation::Delimiter(Token::Semicolon)))
            }
        } else {
            Ok(())
        }
    }

    /// `programa -> program id ; declaracoes_variaveis
    /// declaracoes_de_subprogramas comando_composto .`.  Entering the
    /// program opens the global frame and declares the program name into
    /// it; on success the final `.` is the lookahead left for the caller.
    fn parse_program(&mut self) -> (r: Result<(), ParseError>)
        requires
            old(self).wf(),
            old(self).table.buffer@.len() == 0,
        ensures
            final(self).wf(),
            advances(*old(self), *final(self)),
            assign_errors_sound(r),
            rec_program(old(self).toks@, old(self).abs()) == outcome_of(r, *final(self)),
            r is Ok ==> final(self).table.buffer@.len() == 0,
            !(old(self).cur().token is Program) ==> r == Err::<(), ParseError>(
                ParseError::Syntax {
                    expected: Expectation::Keyword(Token::Program),
                    found: old(self).cur().token,
                    line: old(self).cur().line,
                },
            ) && *final(self) == *old(self),
            r is Ok ==> final(self).cur().token is Period,
            r is Ok ==> final(self).table.stack@ == old(self).table.stack@,
            r is Ok ==> final(self).types_stack@ == old(self).types_stack@,
        decreases old(self).toks@.len() - old(self).pos, 6int,
    {
        let is_program = matches!(self.cur_token(), Token::Program);
        if is_program {
            let ghost entry = *self;
            self.table.open_frame();
            let ghost opened = *self;
            proof {
                assert(entries_of(opened.table.stack@) =~= entries_of(entry.table.stack@).push(
                    Entry { name: "$"@, category: Category::Sentinel },
                ));
            }
            assert(self.pos < self.toks@.len());
            self.set_next_symbol();
            let is_ident = matches!(self.cur_category(), Type::Identifier);
            if is_ident {
                assert(self.cur().token is LitStr);
                let name = self.cur_name();
                let ghost n = self.cur().token->LitStr_0@;
                let ghost before_name = *self;
                self.table.push_declaration(name, Category::Program);
                proof {
                    assert(entries_of(self.table.stack@) =~= entries_of(
                        before_name.table.stack@,
                    ).push(Entry { name: n, category: Category::Program }));
                }
                self.set_next_symbol();
                let is_semicolon = matches!(self.cur_token(), Token::Semicolon);
                if is_semicolon {
                    self.set_next_symbol();
                    let res = self.parse_declare_var();
                    if let Err(e) = res {
                        return Err(e);
                    }
                    let res = self.parse_declare_subprograms();
                    if let Err(e) = res {
                        return Err(e);
                    }
                    let ghost at_body = *self;
                    let res = self.parse_compound_command(true);
                    if let Err(e) = res {
                        return Err(e);
                    }
                    proof {
                        let sent = opened.table.stack@.last();
                        let above = at_body.table.stack@.subrange(
                            opened.table.stack@.len() as int,
                            at_body.table.stack@.len() as int,
                        );
                        assert(at_body.table.stack@ =~= entry.table.stack@.push(sent) + above);
                        assert forall|i: int| 0 <= i < above.len() implies above[i].category
                            != Category::Sentinel by {
                            assert(above[i] == at_body.table.stack@[opened.table.stack@.len()
                                + i]);
                        }
                        lemma_cleared_past_frame(entry.table.stack@, sent, above);
                    }
                    let is_period = matches!(self.cur_token(), Token::Period);
                    if is_period {
                        Ok(())
                    } else {
                        Err(self.syntax_err(Expectation::Delimiter(Token::Period)))
                    }
                } else {
                    Err(self.syntax_err(Expectation::Delimiter(Token::Semicolon)))
                }
            } else {
                Err(self.syntax_err(Expectation::Identifier))
            }
        } else {
            Err(self.syntax_err(Expectation::Keyword(Token::Program)))
        }
    }

    /// Analyzes one complete token stream as a program: the whole driver
    /// state is reset, so repeated analyses are independent of one
    /// another.  Returns `Ok(())` exactly when the stream is a valid
    /// program — [`accepted`] — and otherwise the first violated rule's
    /// diagnostic, exactly as [`analysis`] computes it.
    pub fn build_ast(&mut self, tokens: Vec<Symbol>) -> (r: Result<(), ParseError>)
        requires
            wf_symbols(tokens@),
        ensures
            final(self).wf(),
            final(self).toks@ == tokens@,
            assign_errors_sound(r),
            outcome_of(r, *final(self)) == analysis(tokens@),
            r is Ok <==> accepted(tokens@),
            final(self).eof.line == (if tokens@.len() > 0 {
                tokens@.last().line
            } else {
                0u32
            }),
            (tokens@.len() > 0 && !(tokens@[0].token is Program)) ==> r == Err::<(), ParseError>(
                ParseError::Syntax {
                    expected: Expectation::Keyword(Token::Program),
                    found: tokens@[0].token,
                    line: tokens@[0].line,
                },
            ),
            r is Ok ==> final(self).table.stack@.len() == 0 && final(self).table.buffer@.len()
                == 0 && final(self).types_stack@.len() == 0,
            tokens@.len() == 0 ==> r == Err::<(), ParseError>(
                ParseError::Syntax {
                    expected: Expectation::Keyword(Token::Program),
                    found: Token::Empty,
                    line: 0,
                },
            ),
            r is Ok ==> final(self).cur().token is Period,
    {
        let eof_line: u32 = if tokens.len() > 0 {
            tokens[tokens.len() - 1].line
        } else {
            0
        };
        self.toks = tokens;
        self.pos = 0;
        self.eof = Symbol { token: Token::Empty, category: Type::Eof, line: eof_line };
        self.table = SymbolTable::new();
        self.types_stack = Vec::new();
        proof {
            assert(entries_of(self.table.stack@) =~= Seq::<Entry>::empty());
            assert(entries_of(self.table.buffer@) =~= Seq::<Entry>::empty());
            assert(self.abs() == crate::grammar::initial());
        }
        self.parse_program()
    }
}

/// Flushing the buffer onto a stack appends declaration records and
/// nothing else: every new entry carries the bound type, never a frame
/// marker.
pub proof fn lemma_bound_appends(stack: Seq<Identifier>, buffer: Seq<Identifier>, c: Category)
    requires
        c != Category::Sentinel,
    ensures
        appends_declarations(stack, bound(stack, buffer, c)),
    decreases buffer.len(),
{
    if buffer.len() > 0 {
        let pushed = stack.push(Identifier { name: buffer.last().name, category: c });
        lemma_bound_appends(pushed, buffer.drop_last(), c);
    }
}

} // verus!
