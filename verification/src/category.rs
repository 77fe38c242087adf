//! Semantic type categories and the static typing rules: which categories
//! an assignment target accepts, and which operand categories each operator
//! class admits.

use vstd::prelude::*;

verus! {

/// The semantic category of a declared name or of an expression.
///
/// `Sentinel` is not a type: it tags the scope-boundary markers of the
/// symbol stack.  `Undefined` denotes "not found" or "not yet resolved".
#[derive(Debug, Clone, Copy, PartialEq, Eq, Structural)]
pub enum Category {
    Integer,
    Real,
    Boolean,
    Procedure,
    Program,
    Sentinel,
    Undefined,
}

/// The categories that an assignment to a target of category `c` accepts:
/// Integer accepts Integer alone, Real accepts Real and Integer (widening),
/// Boolean accepts Boolean alone.  No other category is assignable, which
/// the impossible acceptable set `[Undefined]` expresses: an expression
/// never evaluates to Undefined.
pub open spec fn spec_acceptable(c: Category) -> Seq<Category> {
    match c {
        Category::Integer => seq![Category::Integer],
        Category::Real => seq![Category::Real, Category::Integer],
        Category::Boolean => seq![Category::Boolean],
        _ => seq![Category::Undefined],
    }
}

/// Whether an expression of category `found` may be assigned to a target
/// of category `target`.
pub open spec fn assign_accepts(target: Category, found: Category) -> bool {
    spec_acceptable(target).contains(found)
}

/// The set of acceptable right-hand categories for an assignment target,
/// in the order diagnostics quote them: the target's own category first.
pub fn acceptable_types(category: Category) -> (r: Vec<Category>)
    ensures
        r@ == spec_acceptable(category),
{
    let mut r: Vec<Category> = Vec::new();
    match category {
        Category::Integer => {
            r.push(Category::Integer);
        },
        Category::Real => {
            r.push(Category::Real);
            r.push(Category::Integer);
        },
        Category::Boolean => {
            r.push(Category::Boolean);
        },
        _ => {
            r.push(Category::Undefined);
        },
    }
    proof {
        assert(r@ =~= spec_acceptable(category));
    }
    r
}

/// Decides `assign_accepts` directly.
pub fn accepts(target: Category, found: Category) -> (r: bool)
    ensures
        r == assign_accepts(target, found),
{
    let r = match target {
        Category::Integer => found == Category::Integer,
        Category::Real => found == Category::Real || found == Category::Integer,
        Category::Boolean => found == Category::Boolean,
        _ => found == Category::Undefined,
    };
    proof {
        lemma_assign_accepts_unfolded(target, found);
    }
    r
}

/// Membership in the acceptable set, written out per target category.
pub proof fn lemma_assign_accepts_unfolded(target: Category, found: Category)
    ensures
        assign_accepts(target, found) <==> match target {
            Category::Integer => found == Category::Integer,
            Category::Real => found == Category::Real || found == Category::Integer,
            Category::Boolean => found == Category::Boolean,
            _ => found == Category::Undefined,
        },
{
    let s = spec_acceptable(target);
    if s.contains(found) {
        let i = choose|i: int| 0 <= i < s.len() && s[i] == found;
        assert(s[i] == found);
    }
    match target {
        Category::Real => {
            assert(s[0] == Category::Real && s[1] == Category::Integer);
        },
        _ => {
            assert(s[0] == spec_acceptable(target)[0]);
        },
    }
}

/// The category an assignment diagnostic quotes as "expected": the first
/// entry of the target's acceptable set, which is the target's own
/// category for the assignable targets.
pub fn primary_acceptable(c: Category) -> (r: Category)
    ensures
        r == spec_acceptable(c)[0],
{
    match c {
        Category::Integer => Category::Integer,
        Category::Real => Category::Real,
        Category::Boolean => Category::Boolean,
        _ => Category::Undefined,
    }
}

/// Whether the arithmetic operators `+ - * /` admit this operand pair:
/// neither operand may be Boolean.
pub open spec fn arith_ok(a: Category, b: Category) -> bool {
    a != Category::Boolean && b != Category::Boolean
}

/// The category an arithmetic operator synthesizes: Integer when both
/// operands are Integer, Real otherwise.
pub open spec fn arith_result(a: Category, b: Category) -> Category {
    if a == Category::Integer && b == Category::Integer {
        Category::Integer
    } else {
        Category::Real
    }
}

/// Whether the logical operators `and` and `or` admit this operand pair:
/// both operands must be Boolean.  Their result is Boolean.
pub open spec fn logic_ok(a: Category, b: Category) -> bool {
    a == Category::Boolean && b == Category::Boolean
}

/// Whether `=` and `<>` admit this operand pair: the operand categories
/// must be identical.  Their result is Boolean.
pub open spec fn equality_ok(a: Category, b: Category) -> bool {
    a == b
}

/// Whether one operand suits the ordering operators `> < >= <=`: it must
/// be numeric.  Their result is Boolean.
pub open spec fn ordering_operand_ok(c: Category) -> bool {
    c == Category::Integer || c == Category::Real
}

/// Widening law: a Real target accepts an Integer expression, and exactly
/// the numeric categories; an Integer target never accepts a Real
/// expression.
pub proof fn lemma_widening()
    ensures
        assign_accepts(Category::Real, Category::Integer),
        !assign_accepts(Category::Integer, Category::Real),
        forall|found: Category|
            assign_accepts(Category::Real, found) <==> (found == Category::Real || found
                == Category::Integer),
        forall|found: Category| assign_accepts(Category::Integer, found) <==> found
            == Category::Integer,
{
    assert forall|found: Category|
        assign_accepts(Category::Real, found) <==> (found == Category::Real || found
            == Category::Integer) by {
        lemma_assign_accepts_unfolded(Category::Real, found);
    }
    assert forall|found: Category| assign_accepts(Category::Integer, found) <==> found
        == Category::Integer by {
        lemma_assign_accepts_unfolded(Category::Integer, found);
    }
}

/// Quoting the primary acceptable category in a mismatch diagnostic loses
/// no precision: a category the target rejects is also rejected by the
/// quoted primary.
pub proof fn lemma_primary_mismatch(target: Category, found: Category)
    requires
        !assign_accepts(target, found),
    ensures
        !assign_accepts(spec_acceptable(target)[0], found),
{
    lemma_assign_accepts_unfolded(target, found);
    lemma_assign_accepts_unfolded(spec_acceptable(target)[0], found);
}

/// Operator domain law: a Boolean operand rules out the arithmetic
/// operators `+ - * /`, and a non-Boolean operand rules out the logical
/// operators `and` and `or`.
pub proof fn lemma_operator_domains()
    ensures
        forall|c: Category| !arith_ok(Category::Boolean, c) && !arith_ok(c, Category::Boolean),
        forall|a: Category, b: Category|
            (a != Category::Boolean || b != Category::Boolean) ==> !logic_ok(a, b),
{
}

} // verus!
