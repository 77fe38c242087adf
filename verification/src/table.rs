//! The scope-aware symbol table: an ordered stack of declaration records
//! with sentinel entries marking frame boundaries, plus the transient
//! buffer that holds identifiers declared before their type is known.
//!
//! Lookup deliberately crosses frame boundaries (inner code sees every
//! enclosing declaration); the same-frame search that guards declarations
//! stops at the nearest sentinel; and program or procedure names are
//! protected against shadowing at any depth.

use vstd::prelude::*;
use crate::category::Category;

verus! {

/// One declaration record: a spelling bound to a semantic category.
#[derive(Debug, PartialEq)]
pub struct Identifier {
    pub name: String,
    pub category: Category,
}

/// Why a declaration was refused.
#[derive(Debug, Clone, Copy, PartialEq, Eq, Structural)]
pub enum DeclareError {
    /// The name is already declared in the open frame (or pending in the
    /// buffer of the current declaration list).
    AlreadyDeclared,
    /// The name belongs to the program or to a procedure, which variables
    /// may not shadow at any depth.
    ReservedName,
}

/// Top-to-bottom lookup across all frames: the most recent non-sentinel
/// entry with this name decides, and a name found nowhere is `Undefined`.
pub open spec fn lookup_in(s: Seq<Identifier>, n: Seq<char>) -> Category
    decreases s.len(),
{
    if s.len() == 0 {
        Category::Undefined
    } else if s.last().category != Category::Sentinel && s.last().name@ == n {
        s.last().category
    } else {
        lookup_in(s.drop_last(), n)
    }
}

/// Whether the open frame (the entries above the nearest sentinel)
/// declares this name.
pub open spec fn in_frame(s: Seq<Identifier>, n: Seq<char>) -> bool
    decreases s.len(),
{
    if s.len() == 0 {
        false
    } else if s.last().category == Category::Sentinel {
        false
    } else if s.last().name@ == n {
        true
    } else {
        in_frame(s.drop_last(), n)
    }
}

/// Whether the pending-identifier buffer holds this name.
pub open spec fn in_buffer(b: Seq<Identifier>, n: Seq<char>) -> bool {
    exists|i: int| 0 <= i < b.len() && b[i].name@ == n
}

/// Whether some entry binds this name to a program or procedure.
pub open spec fn protected_in(s: Seq<Identifier>, n: Seq<char>) -> bool {
    exists|i: int|
        0 <= i < s.len() && s[i].name@ == n && (s[i].category == Category::Program || s[i].category
            == Category::Procedure)
}

/// The stack after closing one frame: entries are popped down to and
/// including the nearest sentinel.
pub open spec fn cleared(s: Seq<Identifier>) -> Seq<Identifier>
    decreases s.len(),
{
    if s.len() == 0 {
        s
    } else if s.last().category == Category::Sentinel {
        s.drop_last()
    } else {
        cleared(s.drop_last())
    }
}

/// The stack after flushing the buffer onto it with every pending entry
/// retagged to `c`: entries move one at a time from the buffer's top, so
/// they land in reverse buffer order.
pub open spec fn bound(stack: Seq<Identifier>, buffer: Seq<Identifier>, c: Category) -> Seq<
    Identifier,
>
    decreases buffer.len(),
{
    if buffer.len() == 0 {
        stack
    } else {
        bound(
            stack.push(Identifier { name: buffer.last().name, category: c }),
            buffer.drop_last(),
            c,
        )
    }
}

/// Whether a sequence of entries contains no sentinel.
pub open spec fn frame_only(f: Seq<Identifier>) -> bool {
    forall|i: int| 0 <= i < f.len() ==> f[i].category != Category::Sentinel
}

/// The scope-aware symbol table.
pub struct SymbolTable {
    /// The scope stack: declaration records and sentinel frame markers,
    /// most recent last.
    pub stack: Vec<Identifier>,
    /// The pending-identifier buffer of the declaration list currently
    /// being parsed.
    pub buffer: Vec<Identifier>,
}

impl SymbolTable {
    /// An empty table: no frames open, nothing pending.
    pub fn new() -> (t: SymbolTable)
        ensures
            t.stack@ == Seq::<Identifier>::empty(),
            t.buffer@ == Seq::<Identifier>::empty(),
    {
        SymbolTable { stack: Vec::new(), buffer: Vec::new() }
    }

    /// Opens a frame by pushing a sentinel marker.
    pub fn open_frame(&mut self)
        ensures
            final(self).stack@.len() == old(self).stack@.len() + 1,
            final(self).stack@.drop_last() == old(self).stack@,
            final(self).stack@.last().category == Category::Sentinel,
            final(self).stack@.last().name@ == "$"@,
            final(self).buffer@ == old(self).buffer@,
    {
        self.stack.push(Identifier { name: String::from_str("$"), category: Category::Sentinel });
        proof {
            assert(final(self).stack@.drop_last() =~= old(self).stack@);
        }
    }

    /// Appends a declaration record directly to the stack, bypassing the
    /// buffer and every check; the grammar driver uses it for the program
    /// name and for procedure names.
    pub fn push_declaration(&mut self, name: String, category: Category)
        ensures
            final(self).stack@.len() == old(self).stack@.len() + 1,
            final(self).stack@.drop_last() == old(self).stack@,
            final(self).stack@.last().name@ == name@,
            final(self).stack@.last().category == category,
            final(self).buffer@ == old(self).buffer@,
    {
        self.stack.push(Identifier { name, category });
        proof {
            assert(final(self).stack@.drop_last() =~= old(self).stack@);
        }
    }

    /// Top-to-bottom lookup across all frames.
    pub fn search_stack(&self, id: &String) -> (c: Category)
        ensures
            c == lookup_in(self.stack@, id@),
    {
        let mut x: usize = self.stack.len();
        proof {
            assert(self.stack@.take(x as int) =~= self.stack@);
        }
        while x > 0
            invariant
                x <= self.stack@.len(),
                lookup_in(self.stack@, id@) == lookup_in(self.stack@.take(x as int), id@),
            decreases x,
        {
            x = x - 1;
            let entry = &self.stack[x];
            proof {
                assert(self.stack@.take(x as int + 1).last() == self.stack@[x as int]);
                assert(self.stack@.take(x as int + 1).drop_last() =~= self.stack@.take(x as int));
            }
            if entry.category != Category::Sentinel && entry.name.eq(id) {
                return entry.category;
            }
        }
        proof {
            assert(self.stack@.take(0) =~= Seq::<Identifier>::empty());
        }
        Category::Undefined
    }

    /// Whether the open frame or the pending buffer already has this name:
    /// the search that guards a new declaration.
    pub fn search_scope(&self, id: &String) -> (r: bool)
        ensures
            r == (in_buffer(self.buffer@, id@) || in_frame(self.stack@, id@)),
    {
        let mut i: usize = 0;
        while i < self.buffer.len()
            invariant
                i <= self.buffer@.len(),
                forall|k: int| 0 <= k < i ==> self.buffer@[k].name@ != id@,
            decreases self.buffer@.len() - i,
        {
            if self.buffer[i].name.eq(id) {
                return true;
            }
            i = i + 1;
        }
        let mut x: usize = self.stack.len();
        proof {
            assert(self.stack@.take(x as int) =~= self.stack@);
        }
        while x > 0
            invariant
                x <= self.stack@.len(),
                in_frame(self.stack@, id@) == in_frame(self.stack@.take(x as int), id@),
                forall|k: int| 0 <= k < self.buffer@.len() ==> self.buffer@[k].name@ != id@,
            decreases x,
        {
            x = x - 1;
            let entry = &self.stack[x];
            proof {
                assert(self.stack@.take(x as int + 1).last() == self.stack@[x as int]);
                assert(self.stack@.take(x as int + 1).drop_last() =~= self.stack@.take(x as int));
            }
            if entry.category == Category::Sentinel {
                return false;
            }
            if entry.name.eq(id) {
                return true;
            }
        }
        proof {
            assert(self.stack@.take(0) =~= Seq::<Identifier>::empty());
        }
        false
    }

    /// Whether this name is bound to the program or to a procedure
    /// anywhere in the stack or buffer.
    pub fn is_program_or_procedure(&self, id: &String) -> (r: bool)
        ensures
            r == (protected_in(self.buffer@, id@) || protected_in(self.stack@, id@)),
    {
        let mut i: usize = 0;
        while i < self.buffer.len()
            invariant
                i <= self.buffer@.len(),
                forall|k: int|
                    0 <= k < i ==> !(self.buffer@[k].name@ == id@ && (self.buffer@[k].category
                        == Category::Program || self.buffer@[k].category == Category::Procedure)),
            decreases self.buffer@.len() - i,
        {
            let entry = &self.buffer[i];
            if (entry.category == Category::Program || entry.category == Category::Procedure)
                && entry.name.eq(id) {
                return true;
            }
            i = i + 1;
        }
        let mut j: usize = 0;
        while j < self.stack.len()
            invariant
                j <= self.stack@.len(),
                !protected_in(self.buffer@, id@),
                forall|k: int|
                    0 <= k < j ==> !(self.stack@[k].name@ == id@ && (self.stack@[k].category
                        == Category::Program || self.stack@[k].category == Category::Procedure)),
            decreases self.stack@.len() - j,
        {
            let entry = &self.stack[j];
            if (entry.category == Category::Program || entry.category == Category::Procedure)
                && entry.name.eq(id) {
                return true;
            }
            j = j + 1;
        }
        false
    }

    /// Declares a new name in the open frame: refused with `ReservedName`
    /// when the name belongs to the program or a procedure (at any depth),
    /// and with `AlreadyDeclared` when the open frame or the pending
    /// buffer already has it; otherwise the name joins the buffer, still
    /// untyped, to await its type.
    pub fn declare(&mut self, name: String) -> (r: Result<(), DeclareError>)
        ensures
            final(self).stack@ == old(self).stack@,
            r is Ok <==> {
                &&& !protected_in(old(self).stack@, name@)
                &&& !protected_in(old(self).buffer@, name@)
                &&& !in_buffer(old(self).buffer@, name@)
                &&& !in_frame(old(self).stack@, name@)
            },
            r is Ok ==> {
                &&& final(self).buffer@.len() == old(self).buffer@.len() + 1
                &&& final(self).buffer@.drop_last() == old(self).buffer@
                &&& final(self).buffer@.last().name@ == name@
                &&& final(self).buffer@.last().category == Category::Undefined
            },
            r is Err ==> final(self).buffer@ == old(self).buffer@,
            (protected_in(old(self).stack@, name@) || protected_in(old(self).buffer@, name@))
                ==> r == Err::<(), DeclareError>(DeclareError::ReservedName),
            (!protected_in(old(self).stack@, name@) && !protected_in(old(self).buffer@, name@) && (
            in_buffer(old(self).buffer@, name@) || in_frame(old(self).stack@, name@))) ==> r
                == Err::<(), DeclareError>(DeclareError::AlreadyDeclared),
    {
        if self.is_program_or_procedure(&name) {
            return Err(DeclareError::ReservedName);
        }
        if self.search_scope(&name) {
            return Err(DeclareError::AlreadyDeclared);
        }
        self.buffer.push(Identifier { name, category: Category::Undefined });
        proof {
            assert(final(self).buffer@.drop_last() =~= old(self).buffer@);
        }
        Ok(())
    }

    /// Flushes the pending buffer onto the stack, binding every pending
    /// identifier to the type that was just recognized.
    pub fn bind_type_and_erase(&mut self, category: Category)
        ensures
            final(self).stack@ == bound(old(self).stack@, old(self).buffer@, category),
            final(self).buffer@.len() == 0,
    {
        while self.buffer.len() > 0
            invariant
                bound(self.stack@, self.buffer@, category) == bound(
                    old(self).stack@,
                    old(self).buffer@,
                    category,
                ),
            decreases self.buffer@.len(),
        {
            let tmp = self.buffer.pop().unwrap();
            self.stack.push(Identifier { name: tmp.name, category });
        }
    }

    /// Closes the open frame: pops entries down to and including the
    /// nearest sentinel.  Closing when no frame is open would be an
    /// internal error, so a sentinel is demanded up front; correct
    /// nesting makes the demand trivially dischargeable.
    pub fn clear_scope(&mut self)
        requires
            exists|i: int|
                0 <= i < old(self).stack@.len() && old(self).stack@[i].category
                    == Category::Sentinel,
        ensures
            final(self).stack@ == cleared(old(self).stack@),
            final(self).buffer@ == old(self).buffer@,
    {
        let mut stop = false;
        while !stop && self.stack.len() > 0
            invariant
                self.buffer@ == old(self).buffer@,
                stop ==> self.stack@ == cleared(old(self).stack@),
                !stop ==> cleared(self.stack@) == cleared(old(self).stack@),
            decreases self.stack@.len() + (if stop { 0int } else { 1 }),
        {
            let tmp = self.stack.pop().unwrap();
            if tmp.category == Category::Sentinel {
                stop = true;
            }
        }
    }
}

/// Closing a frame removes exactly that frame: whatever sentinel-free
/// entries were stacked above the frame's sentinel, one close restores the
/// stack below it.
pub proof fn lemma_cleared_past_frame(
    outer: Seq<Identifier>,
    sent: Identifier,
    frame: Seq<Identifier>,
)
    requires
        sent.category == Category::Sentinel,
        frame_only(frame),
    ensures
        cleared(outer.push(sent) + frame) == outer,
    decreases frame.len(),
{
    if frame.len() == 0 {
        assert(outer.push(sent) + frame =~= outer.push(sent));
        assert(outer.push(sent).drop_last() =~= outer);
    } else {
        let whole = outer.push(sent) + frame;
        assert(whole.last() == frame.last());
        assert(whole.drop_last() =~= outer.push(sent) + frame.drop_last());
        assert(frame_only(frame.drop_last()));
        lemma_cleared_past_frame(outer, sent, frame.drop_last());
    }
}

/// Scope shadowing: while an inner frame declaring `n` is open, lookup
/// resolves `n` to the top entry of that frame; after the frame closes,
/// lookup of `n` resolves exactly as it did in the enclosing stack.
pub proof fn lemma_scope_shadowing(
    outer: Seq<Identifier>,
    sent: Identifier,
    frame: Seq<Identifier>,
    n: Seq<char>,
)
    requires
        sent.category == Category::Sentinel,
        frame_only(frame),
        frame.len() > 0,
        frame.last().name@ == n,
    ensures
        lookup_in(outer.push(sent) + frame, n) == frame.last().category,
        cleared(outer.push(sent) + frame) == outer,
        lookup_in(cleared(outer.push(sent) + frame), n) == lookup_in(outer, n),
{
    let whole = outer.push(sent) + frame;
    assert(whole.last() == frame.last());
    assert(frame.last().category != Category::Sentinel);
    lemma_cleared_past_frame(outer, sent, frame);
}

/// Lookup crosses frame boundaries: a sentinel is transparent to it, so
/// inner code sees every enclosing declaration.
pub proof fn lemma_lookup_crosses_frames(s: Seq<Identifier>, sent: Identifier, n: Seq<char>)
    requires
        sent.category == Category::Sentinel,
    ensures
        lookup_in(s.push(sent), n) == lookup_in(s, n),
{
    assert(s.push(sent).drop_last() =~= s);
}

/// Re-declaration rejection: a name just declared is found again both in
/// the buffer and in the open frame, so declaring it a second time in the
/// same frame fails; a freshly opened frame hides every earlier
/// declaration from the same-frame search, so the same spelling may be
/// declared anew inside a nested procedure.
pub proof fn lemma_redeclaration(
    stack: Seq<Identifier>,
    buffer: Seq<Identifier>,
    e: Identifier,
    sent: Identifier,
)
    requires
        e.category != Category::Sentinel,
        sent.category == Category::Sentinel,
    ensures
        in_buffer(buffer.push(e), e.name@),
        in_frame(stack.push(e), e.name@),
        forall|n: Seq<char>| !in_frame(stack.push(sent), n),
{
    assert(buffer.push(e)[buffer.len() as int] == e);
    assert(stack.push(e).last() == e);
    assert forall|n: Seq<char>| !in_frame(stack.push(sent), n) by {
        assert(stack.push(sent).last() == sent);
    }
}

/// Reserved-name rejection: a program or procedure entry protects its
/// spelling wherever it sits in the stack — frame boundaries above it do
/// not shield it.
pub proof fn lemma_reserved_at_any_depth(stack: Seq<Identifier>, i: int, n: Seq<char>)
    requires
        0 <= i < stack.len(),
        stack[i].name@ == n,
        stack[i].category == Category::Program || stack[i].category == Category::Procedure,
    ensures
        protected_in(stack, n),
{
}

} // verus!
