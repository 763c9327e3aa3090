//! Laws of the resolution engine, stated over its functional specification
//! and proved once and for all: object paths resolve to their root object,
//! resolution is pure, a type prefix is always rejected, overload sets are
//! forwarded exactly where the grammar allows them, and external names
//! resolve from their declared subtype alone.

use vstd::prelude::*;

use crate::analyze::{index_check_spec, range_mismatch};
use crate::ast::{ExternalNameExpr, Name, Spanned, WithRef};
use crate::diagnostic::{type_prefix_msg, DiagView};
use crate::entity::{
    lookup_entries, EntityArena, EntityKind, NamedEntities, OverloadedName, Region,
};
use crate::names::{classify_spec, resolve_spec, ResolvedView};

verus! {

/// The storage location a name built purely from designator, selected,
/// indexed and slice nodes denotes, when it is rooted at a declared object
/// and every step is statically correct: the root object's handle and the
/// innermost type the chain narrows to.
pub open spec fn obj_path(arena: EntityArena, region: Region, name: Name) -> Option<(int, int)>
    decreases name,
{
    match name {
        Name::Designator(wr) => match lookup_entries(region.entries@, wr.item@) {
            Some(NamedEntities::Single(e)) => match classify_spec(arena, e as int) {
                ResolvedView::ObjectSelection { base_object, type_mark } => Some(
                    (base_object, type_mark),
                ),
                _ => None,
            },
            _ => None,
        },
        Name::Selected(prefix, suffix) => match obj_path(arena, region, prefix.item) {
            Some(bt) => match lookup_entries(arena.region_of(bt.1), suffix.item.item@) {
                Some(NamedEntities::Single(e)) => match arena.spec_actual_kind(e as int) {
                    EntityKind::ElementDeclaration { subtype } => Some((bt.0, subtype as int)),
                    _ => None,
                },
                _ => None,
            },
            None => None,
        },
        Name::Indexed(prefix, indexes) => match obj_path(arena, region, prefix.item) {
            Some(bt) => match index_check_spec(
                arena,
                bt.1,
                indexes@.len(),
                prefix.pos as int,
            ) {
                Ok(elem) => Some((bt.0, elem)),
                Err(_) => None,
            },
            None => None,
        },
        Name::Slice(prefix, rng) => match obj_path(arena, region, prefix.item) {
            Some(bt) => if range_mismatch(*rng) {
                None
            } else {
                Some(bt)
            },
            None => None,
        },
        _ => None,
    }
}

/// Any name built purely from designator, selected, indexed and slice nodes
/// and rooted at a declared object resolves to the object selection of that
/// root, with the statically correct innermost type as its type mark; field
/// access, indexing and slicing narrow the type but never move the base.
pub proof fn lemma_object_path_resolves(
    arena: EntityArena,
    region: Region,
    name_pos: int,
    name: Name,
    err_msg: Seq<char>,
    refs0: Seq<Option<usize>>,
)
    requires
        arena.wf(),
        arena.wf_region_entries(region.entries@),
        obj_path(arena, region, name) is Some,
    ensures
        ({
            let bt = obj_path(arena, region, name)->0;
            &&& resolve_spec(arena, region, name_pos, name, err_msg, refs0).res == Ok::<
                _,
                DiagView,
            >(ResolvedView::ObjectSelection { base_object: bt.0, type_mark: bt.1 })
            &&& arena.is_object(bt.0)
            &&& arena.is_type(bt.1)
        }),
    decreases name,
{
    match name {
        Name::Designator(wr) => {
            crate::entity::lemma_lookup_entries_found(region.entries@, wr.item@);
            let e = lookup_entries(region.entries@, wr.item@)->0->Single_0;
            assert(arena.valid_id(e as int));
            assert(arena.wf_entity(arena.ents@[e as int]));
        },
        Name::Selected(prefix, suffix) => {
            let refs1 = refs0.update(suffix.item.slot as int, None);
            lemma_object_path_resolves(
                arena,
                region,
                prefix.pos as int,
                prefix.item,
                err_msg,
                refs1,
            );
            let bt = obj_path(arena, region, prefix.item)->0;
            assert(arena.wf_entity(arena.ents@[bt.1]));
            crate::entity::lemma_lookup_entries_found(arena.region_of(bt.1), suffix.item.item@);
            let e = lookup_entries(arena.region_of(bt.1), suffix.item.item@)->0->Single_0;
            assert(arena.valid_id(e as int));
            assert(!(arena.kind_of(e as int) is Object) && !(arena.kind_of(
                e as int,
            ) is ObjectAlias));
            assert(arena.wf_entity(arena.ents@[e as int]));
            if arena.kind_of(e as int) is ObjectAlias {
            } else {
                assert(arena.spec_actual_kind(e as int) == arena.kind_of(e as int));
            }
        },
        Name::Indexed(prefix, indexes) => {
            lemma_object_path_resolves(
                arena,
                region,
                prefix.pos as int,
                prefix.item,
                err_msg,
                refs0,
            );
            let bt = obj_path(arena, region, prefix.item)->0;
            assert(arena.wf_entity(arena.ents@[bt.1]));
        },
        Name::Slice(prefix, rng) => {
            lemma_object_path_resolves(
                arena,
                region,
                prefix.pos as int,
                prefix.item,
                err_msg,
                refs0,
            );
        },
        _ => {},
    }
}

/// Resolution is pure: its result and its diagnostics are the same whatever
/// the cross-reference table held at entry, so resolving the same unmodified
/// name tree twice — with fresh sinks, and with the table as the first pass
/// left it — yields identical results and identical diagnostics.
pub proof fn lemma_resolution_pure(
    arena: EntityArena,
    region: Region,
    name_pos: int,
    name: Name,
    err_msg: Seq<char>,
    refs0: Seq<Option<usize>>,
    refs1: Seq<Option<usize>>,
)
    ensures
        resolve_spec(arena, region, name_pos, name, err_msg, refs0).res == resolve_spec(
            arena,
            region,
            name_pos,
            name,
            err_msg,
            refs1,
        ).res,
        resolve_spec(arena, region, name_pos, name, err_msg, refs0).diags == resolve_spec(
            arena,
            region,
            name_pos,
            name,
            err_msg,
            refs1,
        ).diags,
    decreases name,
{
    match name {
        Name::Designator(_) => {},
        Name::Selected(prefix, suffix) => {
            lemma_resolution_pure(
                arena,
                region,
                prefix.pos as int,
                prefix.item,
                err_msg,
                refs0.update(suffix.item.slot as int, None),
                refs1.update(suffix.item.slot as int, None),
            );
        },
        Name::SelectedAll(prefix) => {
            lemma_resolution_pure(
                arena,
                region,
                prefix.pos as int,
                prefix.item,
                err_msg,
                refs0,
                refs1,
            );
        },
        Name::Indexed(prefix, _) => {
            lemma_resolution_pure(
                arena,
                region,
                prefix.pos as int,
                prefix.item,
                err_msg,
                refs0,
                refs1,
            );
        },
        Name::Slice(prefix, _) => {
            lemma_resolution_pure(
                arena,
                region,
                prefix.pos as int,
                prefix.item,
                err_msg,
                refs0,
                refs1,
            );
        },
        Name::Attribute(_) => {},
        Name::FunctionCall(call) => {
            lemma_resolution_pure(
                arena,
                region,
                call.name.pos as int,
                call.name.item,
                err_msg,
                refs0,
                refs1,
            );
        },
        Name::External(_) => {},
    }
}

/// A selected name whose prefix resolves to a type fails with the
/// type-as-prefix message at the whole name's position — whatever the
/// suffix reads, declared or not: no lookup of it is performed.
pub proof fn lemma_type_prefix_rejected(
    arena: EntityArena,
    region: Region,
    name_pos: int,
    prefix: Box<Spanned<Name>>,
    suffix: Spanned<WithRef<String>>,
    err_msg: Seq<char>,
    refs0: Seq<Option<usize>>,
)
    requires
        ({
            let p = resolve_spec(
                arena,
                region,
                prefix.pos as int,
                prefix.item,
                err_msg,
                refs0.update(suffix.item.slot as int, None),
            );
            p.res is Ok && p.res->Ok_0 is Type
        }),
    ensures
        ({
            let o = resolve_spec(
                arena,
                region,
                name_pos,
                Name::Selected(prefix, suffix),
                err_msg,
                refs0,
            );
            o.res == Err::<ResolvedView, DiagView>(
                DiagView { pos: name_pos, message: type_prefix_msg() },
            )
        }),
{
}

/// A bare overloaded designator resolves to the overload set itself, with
/// zero diagnostics, and its cross-reference cell stays cleared:
/// disambiguation is the caller's job, not an error.
pub proof fn lemma_bare_overloaded_designator(
    arena: EntityArena,
    region: Region,
    name_pos: int,
    wr: WithRef<String>,
    ovl: OverloadedName,
    err_msg: Seq<char>,
    refs0: Seq<Option<usize>>,
)
    requires
        lookup_entries(region.entries@, wr.item@) == Some(NamedEntities::Overloaded(ovl)),
    ensures
        ({
            let o = resolve_spec(arena, region, name_pos, Name::Designator(wr), err_msg, refs0);
            &&& o.res == Ok::<ResolvedView, DiagView>(ResolvedView::Overloaded(ovl.ids@))
            &&& o.diags == Seq::<DiagView>::empty()
            &&& o.refs == refs0.update(wr.slot as int, None::<usize>)
        }),
{
}

/// A selected suffix that denotes an overload set under an object-selection
/// prefix (a protected-type operation set) is rejected with the caller's
/// error message, not forwarded as an overload set.
pub proof fn lemma_overloaded_suffix_of_object_rejected(
    arena: EntityArena,
    region: Region,
    name_pos: int,
    prefix: Box<Spanned<Name>>,
    suffix: Spanned<WithRef<String>>,
    base_object: int,
    type_mark: int,
    ovl: OverloadedName,
    err_msg: Seq<char>,
    refs0: Seq<Option<usize>>,
)
    requires
        resolve_spec(
            arena,
            region,
            prefix.pos as int,
            prefix.item,
            err_msg,
            refs0.update(suffix.item.slot as int, None),
        ).res == Ok::<ResolvedView, DiagView>(
            ResolvedView::ObjectSelection { base_object, type_mark },
        ),
        lookup_entries(arena.region_of(type_mark), suffix.item.item@) == Some(
            NamedEntities::Overloaded(ovl),
        ),
    ensures
        resolve_spec(arena, region, name_pos, Name::Selected(prefix, suffix), err_msg, refs0).res
            == Err::<ResolvedView, DiagView>(DiagView { pos: name_pos, message: err_msg }),
{
}

/// A well-typed external name resolves to an external-name state carrying
/// its declared class and the type its subtype indication denotes; nothing
/// of the name itself is looked up in the scope, no diagnostic is emitted,
/// and no cross-reference cell is touched.
pub proof fn lemma_external_name_resolves(
    arena: EntityArena,
    region: Region,
    name_pos: int,
    en: Box<ExternalNameExpr>,
    type_mark: int,
    err_msg: Seq<char>,
    refs0: Seq<Option<usize>>,
)
    requires
        crate::analyze::subtype_spec(arena, region, en.subtype) == Ok::<int, DiagView>(type_mark),
    ensures
        ({
            let o = resolve_spec(arena, region, name_pos, Name::External(en), err_msg, refs0);
            &&& o.res == Ok::<ResolvedView, DiagView>(
                ResolvedView::ExternalName { class: en.class, type_mark },
            )
            &&& o.diags == Seq::<DiagView>::empty()
            &&& o.refs == refs0
        }),
{
}

} // verus!
