//! Diagnostics: `(position, message)` pairs pushed into an infallible sink
//! (a plain vector), and the fixed messages this crate emits. Positions are
//! opaque integers supplied by the caller alongside the syntax tree.

use vstd::prelude::*;

verus! {

/// One reported problem: where, and what.
#[derive(PartialEq, Eq, Debug)]
pub struct Diagnostic {
    pub pos: usize,
    pub message: String,
}

/// Mathematical image of a diagnostic.
pub ghost struct DiagView {
    pub pos: int,
    pub message: Seq<char>,
}

impl View for Diagnostic {
    type V = DiagView;

    open spec fn view(&self) -> DiagView {
        DiagView { pos: self.pos as int, message: self.message@ }
    }
}

impl Diagnostic {
    /// An error diagnostic at `pos` reading `msg`.
    pub fn error(pos: usize, msg: &str) -> (d: Diagnostic)
        ensures
            d@ == (DiagView { pos: pos as int, message: msg@ }),
    {
        Diagnostic { pos, message: msg.to_owned() }
    }
}

/// The views of a sink's contents, in order.
pub open spec fn diags_view(s: Seq<Diagnostic>) -> Seq<DiagView> {
    s.map_values(|d: Diagnostic| d@)
}

pub proof fn lemma_diags_view_push(s: Seq<Diagnostic>, d: Diagnostic)
    ensures
        diags_view(s.push(d)) == diags_view(s).push(d@),
{
    assert(diags_view(s.push(d)) =~= diags_view(s).push(d@));
}

/// Message for a designator that no lookup can find.
pub open spec fn undeclared_msg() -> Seq<char> {
    "Undeclared designator"@
}

pub fn undeclared_str() -> (r: &'static str)
    ensures
        r@ == undeclared_msg(),
{
    "Undeclared designator"
}

/// Message for a type standing as the prefix of a selected name.
pub open spec fn type_prefix_msg() -> Seq<char> {
    "Type may not be the prefix of a selected name"@
}

pub fn type_prefix_str() -> (r: &'static str)
    ensures
        r@ == type_prefix_msg(),
{
    "Type may not be the prefix of a selected name"
}

/// Message for indexing a name whose type is not an array type.
pub open spec fn not_indexable_msg() -> Seq<char> {
    "Cannot index a name that is not of an array type"@
}

pub fn not_indexable_str() -> (r: &'static str)
    ensures
        r@ == not_indexable_msg(),
{
    "Cannot index a name that is not of an array type"
}

/// Message for an index list whose length differs from the array dimension.
pub open spec fn index_arity_msg() -> Seq<char> {
    "Wrong number of index expressions"@
}

pub fn index_arity_str() -> (r: &'static str)
    ensures
        r@ == index_arity_msg(),
{
    "Wrong number of index expressions"
}

/// Message for slicing a name whose type is not an array type.
pub open spec fn not_sliceable_msg() -> Seq<char> {
    "Cannot slice a name that is not of an array type"@
}

pub fn not_sliceable_str() -> (r: &'static str)
    ensures
        r@ == not_sliceable_msg(),
{
    "Cannot slice a name that is not of an array type"
}

/// Message for a discrete range whose bounds have conflicting types.
pub open spec fn range_type_msg() -> Seq<char> {
    "Range bounds have mismatched types"@
}

pub fn range_type_str() -> (r: &'static str)
    ensures
        r@ == range_type_msg(),
{
    "Range bounds have mismatched types"
}

/// Message for a designator that should denote a type but does not.
pub open spec fn not_a_type_msg() -> Seq<char> {
    "Designator does not denote a type"@
}

pub fn not_a_type_str() -> (r: &'static str)
    ensures
        r@ == not_a_type_msg(),
{
    "Designator does not denote a type"
}

/// Message for a separated list ending in a separator.
pub open spec fn trailing_comma_msg() -> Seq<char> {
    "Trailing comma not allowed"@
}

pub fn trailing_comma_str() -> (r: &'static str)
    ensures
        r@ == trailing_comma_msg(),
{
    "Trailing comma not allowed"
}

/// Message for a stream position where an identifier was expected.
pub open spec fn expected_ident_msg() -> Seq<char> {
    "Expected an identifier"@
}

pub fn expected_ident_str() -> (r: &'static str)
    ensures
        r@ == expected_ident_msg(),
{
    "Expected an identifier"
}

} // verus!
