//! The name expressions handed to resolution, owned by the caller and never
//! mutated by it: cross-references live in a side table (`RefTable`) keyed by
//! per-designator slot numbers, so repeated passes over a shared tree stay
//! free of aliasing concerns.

use vstd::prelude::*;

verus! {

/// A syntax item together with its (opaque) source position.
#[derive(PartialEq, Eq, Debug)]
pub struct Spanned<T> {
    pub item: T,
    pub pos: usize,
}

/// A designator occurrence that carries a cross-reference cell, identified by
/// its slot in the caller's `RefTable`.
#[derive(PartialEq, Eq, Debug)]
pub struct WithRef<T> {
    pub item: T,
    pub slot: usize,
}

impl<T> WithRef<T> {
    /// Wrap an item with the slot of its cross-reference cell.
    pub fn new(item: T, slot: usize) -> (r: WithRef<T>)
        ensures
            r.item == item,
            r.slot == slot,
    {
        WithRef { item, slot }
    }
}

/// The kinds of literals the expression analyzer tells apart.
#[derive(Clone, Copy, PartialEq, Eq, Structural, Debug)]
pub enum LitClass {
    IntClass,
    StrClass,
}

/// A minimal expression, as far as diagnostic-completeness analysis needs
/// one: names are looked up, literals are classed, operators recurse.
#[derive(PartialEq, Eq, Debug)]
pub enum Expression {
    IntLiteral(u64),
    StrLiteral(String),
    Ref(String),
    Binary(Box<Spanned<Expression>>, Box<Spanned<Expression>>),
}

/// A discrete range `left to right`.
#[derive(PartialEq, Eq, Debug)]
pub struct RangeExpr {
    pub pos: usize,
    pub left: Spanned<Expression>,
    pub right: Spanned<Expression>,
}

/// One element of a parenthesized association list; a named association
/// carries its formal part.
#[derive(PartialEq, Eq, Debug)]
pub struct AssociationElement {
    pub formal: Option<String>,
    pub actual: Spanned<Expression>,
}

/// A parenthesized name that the grammar cannot tell apart from a function
/// call: a prefix plus an association list.
#[derive(PartialEq, Eq, Debug)]
pub struct CallOrIndexed {
    pub name: Spanned<Name>,
    pub parameters: Vec<AssociationElement>,
}

/// The object role an external name claims.
#[derive(Clone, Copy, PartialEq, Eq, Structural, Debug)]
pub enum ExternalObjectClass {
    Constant,
    Signal,
    Variable,
}

/// The subtype a well-formed external name declares for itself: a designator
/// that must denote a type.
#[derive(PartialEq, Eq, Debug)]
pub struct SubtypeIndication {
    pub type_mark: Spanned<String>,
}

/// An external name: an object class and a declared subtype; its path is not
/// looked up in the scope.
#[derive(PartialEq, Eq, Debug)]
pub struct ExternalNameExpr {
    pub class: ExternalObjectClass,
    pub subtype: SubtypeIndication,
}

/// A name expression.
#[derive(PartialEq, Eq, Debug)]
pub enum Name {
    Designator(WithRef<String>),
    Selected(Box<Spanned<Name>>, Spanned<WithRef<String>>),
    SelectedAll(Box<Spanned<Name>>),
    Indexed(Box<Spanned<Name>>, Vec<Spanned<Expression>>),
    Slice(Box<Spanned<Name>>, Box<RangeExpr>),
    Attribute(Box<Spanned<Name>>),
    FunctionCall(Box<CallOrIndexed>),
    External(Box<ExternalNameExpr>),
}

/// Every cross-reference slot the name mentions lies below `len`.
pub open spec fn name_slots_ok(n: Name, len: nat) -> bool
    decreases n,
{
    match n {
        Name::Designator(wr) => wr.slot < len,
        Name::Selected(prefix, suffix) => name_slots_ok(prefix.item, len) && suffix.item.slot
            < len,
        Name::SelectedAll(prefix) => name_slots_ok(prefix.item, len),
        Name::Indexed(prefix, _) => name_slots_ok(prefix.item, len),
        Name::Slice(prefix, _) => name_slots_ok(prefix.item, len),
        Name::Attribute(prefix) => name_slots_ok(prefix.item, len),
        Name::FunctionCall(call) => name_slots_ok(call.name.item, len),
        Name::External(_) => true,
    }
}

/// The cross-reference side table: one cell per designator occurrence,
/// cleared before resolution and set to the handle of the declaration the
/// occurrence was resolved to; left cleared where resolution found an
/// overload set or nothing.
#[derive(PartialEq, Eq, Debug)]
pub struct RefTable {
    pub slots: Vec<Option<usize>>,
}

impl RefTable {
    /// A table of `n` cleared cells.
    pub fn new(n: usize) -> (r: RefTable)
        ensures
            r.slots@ == Seq::<Option<usize>>::new(n as nat, |i: int| None),
    {
        let mut slots: Vec<Option<usize>> = Vec::new();
        let mut i: usize = 0;
        while i < n
            invariant
                i <= n,
                slots@ == Seq::<Option<usize>>::new(i as nat, |j: int| None::<usize>),
            decreases n - i,
        {
            slots.push(None);
            i = i + 1;
            proof {
                assert(slots@ =~= Seq::<Option<usize>>::new(i as nat, |j: int| None::<usize>));
            }
        }
        RefTable { slots }
    }

    /// Clear one cell.
    pub fn clear(&mut self, slot: usize)
        requires
            slot < old(self).slots@.len(),
        ensures
            final(self).slots@ == old(self).slots@.update(slot as int, None::<usize>),
    {
        self.slots.set(slot, None);
    }

    /// Point one cell at a declaration.
    pub fn set_ref(&mut self, slot: usize, ent: usize)
        requires
            slot < old(self).slots@.len(),
        ensures
            final(self).slots@ == old(self).slots@.update(slot as int, Some(ent)),
    {
        self.slots.set(slot, Some(ent));
    }

    /// Read one cell.
    pub fn get(&self, slot: usize) -> (r: Option<usize>)
        requires
            slot < self.slots@.len(),
        ensures
            r == self.slots@[slot as int],
    {
        self.slots[slot]
    }
}

} // verus!
