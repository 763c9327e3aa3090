//! The analysis context and the collaborator analyses that name resolution
//! dispatches to: expression analysis (kept deliberately best-effort so that
//! diagnostics keep flowing after a failure), discrete-range analysis, index
//! and slice validation against array types, and subtype resolution.

use vstd::prelude::*;

use crate::ast::{AssociationElement, Expression, LitClass, RangeExpr, Spanned, SubtypeIndication};
use crate::diagnostic::{
    diags_view, index_arity_msg, index_arity_str, lemma_diags_view_push, not_a_type_msg,
    not_a_type_str, not_indexable_msg, not_indexable_str, not_sliceable_msg, not_sliceable_str,
    range_type_msg, range_type_str, undeclared_msg, undeclared_str, DiagView, Diagnostic,
};
use crate::entity::{lookup_entries, EntityArena, EntityKind, Region, TypeDef, TypeRef};

verus! {

/// Everything an analysis pass reads: the declaration arena. The scope under
/// analysis is passed alongside each call.
pub struct AnalyzeContext {
    pub arena: EntityArena,
}

/// The diagnostics expression analysis emits for `e`: one per designator
/// that no lookup finds, literals and operators aside.
pub open spec fn expr_diags_spec(region: Region, e: Spanned<Expression>) -> Seq<DiagView>
    decreases e,
{
    match e.item {
        Expression::IntLiteral(_) => Seq::empty(),
        Expression::StrLiteral(_) => Seq::empty(),
        Expression::Ref(des) => if lookup_entries(region.entries@, des@) is None {
            seq![DiagView { pos: e.pos as int, message: undeclared_msg() }]
        } else {
            Seq::empty()
        },
        Expression::Binary(l, r) => expr_diags_spec(region, *l) + expr_diags_spec(region, *r),
    }
}

/// Diagnostics of the expressions `es[i..]`, in order.
pub open spec fn exprs_diags_from(region: Region, es: Seq<Spanned<Expression>>, i: int) -> Seq<
    DiagView,
>
    decreases es.len() - i,
{
    if i < 0 || i >= es.len() {
        Seq::empty()
    } else {
        expr_diags_spec(region, es[i]) + exprs_diags_from(region, es, i + 1)
    }
}

/// Diagnostics of the actual parts of the association elements `ps[i..]`.
pub open spec fn assoc_diags_from(region: Region, ps: Seq<AssociationElement>, i: int) -> Seq<
    DiagView,
>
    decreases ps.len() - i,
{
    if i < 0 || i >= ps.len() {
        Seq::empty()
    } else {
        expr_diags_spec(region, ps[i].actual) + assoc_diags_from(region, ps, i + 1)
    }
}

/// The literal class an expression exposes, if any: the left operand of an
/// operator speaks for the whole where it is classed.
pub open spec fn expr_class_spec(e: Expression) -> Option<LitClass>
    decreases e,
{
    match e {
        Expression::IntLiteral(_) => Some(LitClass::IntClass),
        Expression::StrLiteral(_) => Some(LitClass::StrClass),
        Expression::Ref(_) => None,
        Expression::Binary(l, r) => if expr_class_spec(l.item) is Some {
            expr_class_spec(l.item)
        } else {
            expr_class_spec(r.item)
        },
    }
}

/// Whether the two bounds of a range carry conflicting literal classes.
pub open spec fn range_mismatch(r: RangeExpr) -> bool {
    match (expr_class_spec(r.left.item), expr_class_spec(r.right.item)) {
        (Some(a), Some(b)) => a != b,
        _ => false,
    }
}

/// What analyzing a discrete range does: the diagnostics of both bounds, and
/// the range's own error where the bounds conflict.
pub open spec fn range_outcome_spec(region: Region, r: RangeExpr) -> (Seq<DiagView>, Option<
    DiagView,
>) {
    (
        expr_diags_spec(region, r.left) + expr_diags_spec(region, r.right),
        if range_mismatch(r) {
            Some(DiagView { pos: r.pos as int, message: range_type_msg() })
        } else {
            None
        },
    )
}

/// What index validation yields for an `n`-index access to a name of type
/// `tm`: the element type, or the error reported at `pos`.
pub open spec fn index_check_spec(arena: EntityArena, tm: int, n: nat, pos: int) -> Result<
    int,
    DiagView,
> {
    match arena.kind_of(tm) {
        EntityKind::Type { def: TypeDef::Array { dim_count, elem_type } } => if dim_count as nat
            == n {
            Ok(elem_type as int)
        } else {
            Err(DiagView { pos, message: index_arity_msg() })
        },
        _ => Err(DiagView { pos, message: not_indexable_msg() }),
    }
}

/// The diagnostics slice validation emits for a name of type `tm`: none for
/// an array type, one otherwise. Slicing never narrows the type.
pub open spec fn slice_diags_spec(arena: EntityArena, tm: int, pos: int) -> Seq<DiagView> {
    match arena.kind_of(tm) {
        EntityKind::Type { def: TypeDef::Array { .. } } => Seq::empty(),
        _ => seq![DiagView { pos, message: not_sliceable_msg() }],
    }
}

/// What subtype resolution yields: the type entity the subtype indication's
/// type mark denotes, or the error explaining why it denotes none.
pub open spec fn subtype_spec(arena: EntityArena, region: Region, s: SubtypeIndication) -> Result<
    int,
    DiagView,
> {
    match lookup_entries(region.entries@, s.type_mark.item@) {
        None => Err(DiagView { pos: s.type_mark.pos as int, message: undeclared_msg() }),
        Some(n) => match n {
            crate::entity::NamedEntities::Single(e) => if arena.is_type(e as int) {
                Ok(e as int)
            } else {
                Err(DiagView { pos: s.type_mark.pos as int, message: not_a_type_msg() })
            },
            crate::entity::NamedEntities::Overloaded(_) => Err(
                DiagView { pos: s.type_mark.pos as int, message: not_a_type_msg() },
            ),
        },
    }
}

impl AnalyzeContext {
    /// An analysis context over the given declarations.
    pub fn new(arena: EntityArena) -> (r: AnalyzeContext)
        ensures
            r.arena == arena,
    {
        AnalyzeContext { arena }
    }

    /// Analyze one expression for diagnostic completeness: look every
    /// designator in it up and report the ones that are not declared.
    pub fn analyze_expression(
        &self,
        region: &Region,
        expr: &Spanned<Expression>,
        diagnostics: &mut Vec<Diagnostic>,
    )
        ensures
            diags_view(final(diagnostics)@) == diags_view(old(diagnostics)@) + expr_diags_spec(
                *region,
                *expr,
            ),
        decreases *expr,
    {
        match &expr.item {
            Expression::IntLiteral(_) => {
                proof {
                    assert(diags_view(diagnostics@) =~= diags_view(diagnostics@) + expr_diags_spec(
                        *region,
                        *expr,
                    ));
                }
            },
            Expression::StrLiteral(_) => {
                proof {
                    assert(diags_view(diagnostics@) =~= diags_view(diagnostics@) + expr_diags_spec(
                        *region,
                        *expr,
                    ));
                }
            },
            Expression::Ref(des) => {
                match region.lookup(des) {
                    Some(_) => {
                        proof {
                            assert(diags_view(diagnostics@) =~= diags_view(diagnostics@)
                                + expr_diags_spec(*region, *expr));
                        }
                    },
                    None => {
                        let d = Diagnostic::error(expr.pos, undeclared_str());
                        proof {
                            lemma_diags_view_push(diagnostics@, d);
                            assert(diags_view(diagnostics@).push(d@) =~= diags_view(diagnostics@)
                                + expr_diags_spec(*region, *expr));
                        }
                        diagnostics.push(d);
                    },
                }
            },
            Expression::Binary(l, r) => {
                self.analyze_expression(region, l, diagnostics);
                self.analyze_expression(region, r, diagnostics);
                proof {
                    assert(diags_view(diagnostics@) =~= diags_view(old(diagnostics)@)
                        + expr_diags_spec(*region, *expr));
                }
            },
        }
    }

    /// Analyze the expressions `exprs[i..]`, in order.
    pub fn analyze_expression_list_from(
        &self,
        region: &Region,
        exprs: &Vec<Spanned<Expression>>,
        i: usize,
        diagnostics: &mut Vec<Diagnostic>,
    )
        requires
            i <= exprs@.len(),
        ensures
            diags_view(final(diagnostics)@) == diags_view(old(diagnostics)@) + exprs_diags_from(
                *region,
                exprs@,
                i as int,
            ),
        decreases exprs@.len() - i,
    {
        if i < exprs.len() {
            self.analyze_expression(region, &exprs[i], diagnostics);
            self.analyze_expression_list_from(region, exprs, i + 1, diagnostics);
            proof {
                assert(diags_view(diagnostics@) =~= diags_view(old(diagnostics)@)
                    + exprs_diags_from(*region, exprs@, i as int));
            }
        } else {
            proof {
                assert(diags_view(diagnostics@) =~= diags_view(diagnostics@) + exprs_diags_from(
                    *region,
                    exprs@,
                    i as int,
                ));
            }
        }
    }

    /// Analyze every expression of an index list.
    pub fn analyze_expression_list(
        &self,
        region: &Region,
        exprs: &Vec<Spanned<Expression>>,
        diagnostics: &mut Vec<Diagnostic>,
    )
        ensures
            diags_view(final(diagnostics)@) == diags_view(old(diagnostics)@) + exprs_diags_from(
                *region,
                exprs@,
                0,
            ),
    {
        self.analyze_expression_list_from(region, exprs, 0, diagnostics);
    }

    /// Analyze the actual parts of the association elements `ps[i..]`.
    pub fn analyze_association_list_from(
        &self,
        region: &Region,
        ps: &Vec<AssociationElement>,
        i: usize,
        diagnostics: &mut Vec<Diagnostic>,
    )
        requires
            i <= ps@.len(),
        ensures
            diags_view(final(diagnostics)@) == diags_view(old(diagnostics)@) + assoc_diags_from(
                *region,
                ps@,
                i as int,
            ),
        decreases ps@.len() - i,
    {
        if i < ps.len() {
            self.analyze_expression(region, &ps[i].actual, diagnostics);
            self.analyze_association_list_from(region, ps, i + 1, diagnostics);
            proof {
                assert(diags_view(diagnostics@) =~= diags_view(old(diagnostics)@)
                    + assoc_diags_from(*region, ps@, i as int));
            }
        } else {
            proof {
                assert(diags_view(diagnostics@) =~= diags_view(diagnostics@) + assoc_diags_from(
                    *region,
                    ps@,
                    i as int,
                ));
            }
        }
    }

    /// Analyze the actual part of every association element.
    pub fn analyze_association_list(
        &self,
        region: &Region,
        ps: &Vec<AssociationElement>,
        diagnostics: &mut Vec<Diagnostic>,
    )
        ensures
            diags_view(final(diagnostics)@) == diags_view(old(diagnostics)@) + assoc_diags_from(
                *region,
                ps@,
                0,
            ),
    {
        self.analyze_association_list_from(region, ps, 0, diagnostics);
    }

    /// The literal class of an expression.
    pub fn expr_class(&self, e: &Expression) -> (r: Option<LitClass>)
        ensures
            r == expr_class_spec(*e),
        decreases *e,
    {
        match e {
            Expression::IntLiteral(_) => Some(LitClass::IntClass),
            Expression::StrLiteral(_) => Some(LitClass::StrClass),
            Expression::Ref(_) => None,
            Expression::Binary(l, r) => {
                match self.expr_class(&l.item) {
                    Some(c) => Some(c),
                    None => self.expr_class(&r.item),
                }
            },
        }
    }

    /// Analyze a discrete range: both bounds are analyzed whatever else
    /// holds, and a class conflict between them is the range's own error.
    pub fn analyze_discrete_range(
        &self,
        region: &Region,
        rng: &RangeExpr,
        diagnostics: &mut Vec<Diagnostic>,
    ) -> (r: Result<(), Diagnostic>)
        ensures
            diags_view(final(diagnostics)@) == diags_view(old(diagnostics)@) + range_outcome_spec(
                *region,
                *rng,
            ).0,
            match r {
                Ok(_) => range_outcome_spec(*region, *rng).1 is None,
                Err(d) => range_outcome_spec(*region, *rng).1 == Some(d@),
            },
    {
        self.analyze_expression(region, &rng.left, diagnostics);
        self.analyze_expression(region, &rng.right, diagnostics);
        proof {
            assert(diags_view(diagnostics@) =~= diags_view(old(diagnostics)@) + range_outcome_spec(
                *region,
                *rng,
            ).0);
        }
        let cl = self.expr_class(&rng.left.item);
        let cr = self.expr_class(&rng.right.item);
        match (cl, cr) {
            (Some(a), Some(b)) => {
                if a != b {
                    Err(Diagnostic::error(rng.pos, range_type_str()))
                } else {
                    Ok(())
                }
            },
            _ => Ok(()),
        }
    }

    /// Validate an `n`-index access against the array type `type_mark` and
    /// hand its element type back.
    pub fn analyze_indexed_name(&self, pos: usize, type_mark: TypeRef, n: usize) -> (r: Result<
        TypeRef,
        Diagnostic,
    >)
        requires
            self.arena.wf(),
            self.arena.is_type(type_mark.id as int),
        ensures
            match index_check_spec(self.arena, type_mark.id as int, n as nat, pos as int) {
                Ok(elem) => r is Ok && r->Ok_0.id as int == elem && self.arena.is_type(elem),
                Err(d) => r is Err && r->Err_0@ == d,
            },
    {
        match self.arena.kind(type_mark.id) {
            EntityKind::Type { def: TypeDef::Array { dim_count, elem_type } } => {
                if dim_count == n {
                    proof {
                        assert(self.arena.wf_entity(self.arena.ents@[type_mark.id as int]));
                    }
                    Ok(TypeRef { id: elem_type })
                } else {
                    Err(Diagnostic::error(pos, index_arity_str()))
                }
            },
            _ => Err(Diagnostic::error(pos, not_indexable_str())),
        }
    }

    /// Validate that a sliced name is of an array type; best effort, the
    /// result of resolution is not changed by it.
    pub fn analyze_sliced_name(
        &self,
        pos: usize,
        type_mark: TypeRef,
        diagnostics: &mut Vec<Diagnostic>,
    )
        requires
            self.arena.wf(),
            self.arena.is_type(type_mark.id as int),
        ensures
            diags_view(final(diagnostics)@) == diags_view(old(diagnostics)@) + slice_diags_spec(
                self.arena,
                type_mark.id as int,
                pos as int,
            ),
    {
        match self.arena.kind(type_mark.id) {
            EntityKind::Type { def: TypeDef::Array { .. } } => {
                proof {
                    assert(diags_view(diagnostics@) =~= diags_view(diagnostics@) + slice_diags_spec(
                        self.arena,
                        type_mark.id as int,
                        pos as int,
                    ));
                }
            },
            _ => {
                let d = Diagnostic::error(pos, not_sliceable_str());
                proof {
                    lemma_diags_view_push(diagnostics@, d);
                    assert(diags_view(diagnostics@).push(d@) =~= diags_view(diagnostics@)
                        + slice_diags_spec(self.arena, type_mark.id as int, pos as int));
                }
                diagnostics.push(d);
            },
        }
    }

    /// Resolve a subtype indication to the type its type mark denotes.
    pub fn resolve_subtype_indication(&self, region: &Region, subtype: &SubtypeIndication) -> (r:
        Result<TypeRef, Diagnostic>)
        requires
            self.arena.wf(),
            self.arena.wf_region_entries(region.entries@),
        ensures
            match subtype_spec(self.arena, *region, *subtype) {
                Ok(t) => r is Ok && r->Ok_0.id as int == t && self.arena.is_type(t),
                Err(d) => r is Err && r->Err_0@ == d,
            },
    {
        match region.lookup(&subtype.type_mark.item) {
            None => Err(Diagnostic::error(subtype.type_mark.pos, undeclared_str())),
            Some(n) => match n {
                crate::entity::NamedEntities::Single(e) => {
                    proof {
                        crate::entity::lemma_lookup_entries_found(
                            region.entries@,
                            subtype.type_mark.item@,
                        );
                    }
                    match self.arena.kind(*e) {
                        EntityKind::Type { .. } => Ok(TypeRef { id: *e }),
                        _ => Err(Diagnostic::error(subtype.type_mark.pos, not_a_type_str())),
                    }
                },
                crate::entity::NamedEntities::Overloaded(_) => Err(
                    Diagnostic::error(subtype.type_mark.pos, not_a_type_str()),
                ),
            },
        }
    }
}

} // verus!
