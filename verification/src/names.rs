//! The object-name resolution engine: the state a resolved prefix is in
//! (`ResolvedName`), the suffix transition that advances it, and the
//! recursive walker `resolve_object_prefix` that drives both over an
//! arbitrarily nested name expression. Resolution decides, suffix by suffix,
//! whether a name denotes a type, an overloaded set, or a concrete storage
//! location, and keeps emitting diagnostics for sub-expressions even after a
//! terminal error.

use vstd::prelude::*;

use crate::analyze::{
    assoc_diags_from, exprs_diags_from, index_check_spec, range_outcome_spec, slice_diags_spec,
    subtype_spec, AnalyzeContext,
};
use crate::ast::{
    name_slots_ok, AssociationElement, ExternalObjectClass, Name, RefTable, Spanned, WithRef,
};
use crate::diagnostic::{
    diags_view, type_prefix_msg, type_prefix_str, undeclared_msg, undeclared_str, DiagView,
    Diagnostic,
};
use crate::entity::{
    lookup_entries, named_eq, EntityArena, EntityKind, NamedEntities, ObjectRef, OverloadedName,
    Region, TypeRef,
};

verus! {

/// The state a resolved name prefix is in: a non-object (library, package,
/// design unit), a type, an overloaded set forwarded for someone else to
/// disambiguate, or a storage location. In the two storage-carrying states
/// `type_mark` is the static type the chain yields so far, while
/// `base_object` (or the external `class`) never changes along the chain.
#[derive(PartialEq, Eq, Debug)]
pub enum ResolvedName {
    NonObject(usize),
    Type(TypeRef),
    Overloaded(OverloadedName),
    ObjectSelection { base_object: ObjectRef, type_mark: TypeRef },
    ExternalName { class: ExternalObjectClass, type_mark: TypeRef },
}

/// Mathematical image of a resolution state.
pub ghost enum ResolvedView {
    NonObject(int),
    Type(int),
    Overloaded(Seq<usize>),
    ObjectSelection { base_object: int, type_mark: int },
    ExternalName { class: ExternalObjectClass, type_mark: int },
}

impl View for ResolvedName {
    type V = ResolvedView;

    open spec fn view(&self) -> ResolvedView {
        match *self {
            ResolvedName::NonObject(e) => ResolvedView::NonObject(e as int),
            ResolvedName::Type(t) => ResolvedView::Type(t.id as int),
            ResolvedName::Overloaded(ref o) => ResolvedView::Overloaded(o.ids@),
            ResolvedName::ObjectSelection { base_object, type_mark } =>
                ResolvedView::ObjectSelection {
                base_object: base_object.id as int,
                type_mark: type_mark.id as int,
            },
            ResolvedName::ExternalName { class, type_mark } => ResolvedView::ExternalName {
                class,
                type_mark: type_mark.id as int,
            },
        }
    }
}

/// A resolution state that speaks only of valid handles of the right kinds.
pub open spec fn resolved_wf(arena: EntityArena, v: ResolvedView) -> bool {
    match v {
        ResolvedView::NonObject(e) => arena.valid_id(e),
        ResolvedView::Type(t) => arena.is_type(t),
        ResolvedView::Overloaded(ids) => ids.len() > 0 && forall|i: int|
            0 <= i < ids.len() ==> arena.valid_id(#[trigger] ids[i] as int),
        ResolvedView::ObjectSelection { base_object, type_mark } => arena.is_object(base_object)
            && arena.is_type(type_mark),
        ResolvedView::ExternalName { class: _, type_mark } => arena.is_type(type_mark),
    }
}

/// Initial classification of a declaration: objects and object aliases seed
/// an object selection with their declared type, types resolve to `Type`,
/// everything else threads through as `NonObject`. This is the only way a
/// fresh chain root comes into being.
pub open spec fn classify_spec(arena: EntityArena, e: int) -> ResolvedView {
    match arena.kind_of(e) {
        EntityKind::Object { subtype } => ResolvedView::ObjectSelection {
            base_object: e,
            type_mark: subtype as int,
        },
        EntityKind::ObjectAlias { base_object, type_mark } => ResolvedView::ObjectSelection {
            base_object: base_object as int,
            type_mark: type_mark as int,
        },
        EntityKind::Type { .. } => ResolvedView::Type(e),
        _ => ResolvedView::NonObject(e),
    }
}

/// The suffix transition: what state follows `state` when the freshly looked
/// up suffix is `e`. `None` is the one user-level rejection (a type as the
/// prefix of a selected name). The two invariant violations (an object
/// suffix out of a non-`NonObject` state; any suffix of an overloaded state)
/// are outside this function's contract and excluded by `with_suffix`'s
/// precondition.
pub open spec fn transition_spec(arena: EntityArena, state: ResolvedView, e: int) -> Option<
    ResolvedView,
> {
    if arena.kind_of(e) is Object || arena.kind_of(e) is ObjectAlias {
        if state is NonObject {
            Some(classify_spec(arena, e))
        } else {
            arbitrary()
        }
    } else {
        match state {
            ResolvedView::NonObject(_) => Some(
                if arena.is_type(e) {
                    ResolvedView::Type(e)
                } else {
                    ResolvedView::NonObject(e)
                },
            ),
            ResolvedView::Type(_) => None,
            ResolvedView::ObjectSelection { base_object, type_mark: _ } => match arena
                .spec_actual_kind(e) {
                EntityKind::ElementDeclaration { subtype } => Some(
                    ResolvedView::ObjectSelection { base_object, type_mark: subtype as int },
                ),
                _ => Some(ResolvedView::NonObject(e)),
            },
            ResolvedView::ExternalName { class, type_mark: _ } => match arena.spec_actual_kind(e) {
                EntityKind::ElementDeclaration { subtype } => Some(
                    ResolvedView::ExternalName { class, type_mark: subtype as int },
                ),
                _ => Some(ResolvedView::NonObject(e)),
            },
            ResolvedView::Overloaded(_) => arbitrary(),
        }
    }
}

impl ResolvedName {
    /// Classify a declaration into its initial resolution state.
    pub fn new(arena: &EntityArena, ent: usize) -> (r: ResolvedName)
        requires
            arena.wf(),
            arena.valid_id(ent as int),
        ensures
            r@ == classify_spec(*arena, ent as int),
            resolved_wf(*arena, r@),
    {
        proof {
            assert(arena.wf_entity(arena.ents@[ent as int]));
        }
        match arena.kind(ent) {
            EntityKind::Object { subtype } => ResolvedName::ObjectSelection {
                base_object: ObjectRef { id: ent },
                type_mark: TypeRef { id: subtype },
            },
            EntityKind::ObjectAlias { base_object, type_mark } => ResolvedName::ObjectSelection {
                base_object: ObjectRef { id: base_object },
                type_mark: TypeRef { id: type_mark },
            },
            EntityKind::Type { .. } => ResolvedName::Type(TypeRef { id: ent }),
            _ => ResolvedName::NonObject(ent),
        }
    }

    /// Advance this state by the looked-up suffix declaration `ent`.
    ///
    /// An object suffix is only ever selected out of a non-object prefix
    /// (a deferred object of a package or library), and an overloaded state
    /// never reaches this function: both would mean a bug in scope
    /// construction or in the walker, not user input, so they are excluded
    /// here rather than turned into user diagnostics.
    pub fn with_suffix(self, arena: &EntityArena, ent: usize) -> (r: Result<ResolvedName, String>)
        requires
            arena.wf(),
            arena.valid_id(ent as int),
            resolved_wf(*arena, self@),
            !(self@ is Overloaded),
            (arena.kind_of(ent as int) is Object || arena.kind_of(ent as int) is ObjectAlias)
                ==> self@ is NonObject,
        ensures
            match transition_spec(*arena, self@, ent as int) {
                Some(v) => r is Ok && r->Ok_0@ == v && resolved_wf(*arena, r->Ok_0@),
                None => r is Err && r->Err_0@ == type_prefix_msg(),
            },
    {
        proof {
            assert(arena.wf_entity(arena.ents@[ent as int]));
        }
        match arena.kind(ent) {
            EntityKind::Object { .. } => Ok(ResolvedName::new(arena, ent)),
            EntityKind::ObjectAlias { .. } => Ok(ResolvedName::new(arena, ent)),
            _ => {
                match self {
                    ResolvedName::NonObject(_) => Ok(
                        match TypeRef::from_any(arena, ent) {
                            Ok(typ) => ResolvedName::Type(typ),
                            Err(e) => ResolvedName::NonObject(e),
                        },
                    ),
                    ResolvedName::Type(_) => Err(type_prefix_str().to_owned()),
                    ResolvedName::ObjectSelection { base_object, .. } => {
                        match arena.actual_kind(ent) {
                            EntityKind::ElementDeclaration { subtype } => {
                                proof {
                                    assert(arena.wf_kind(arena.spec_actual_kind(ent as int)));
                                }
                                Ok(
                                    ResolvedName::ObjectSelection {
                                        base_object,
                                        type_mark: TypeRef { id: subtype },
                                    },
                                )
                            },
                            _ => Ok(ResolvedName::NonObject(ent)),
                        }
                    },
                    ResolvedName::ExternalName { class, .. } => {
                        match arena.actual_kind(ent) {
                            EntityKind::ElementDeclaration { subtype } => {
                                proof {
                                    assert(arena.wf_kind(arena.spec_actual_kind(ent as int)));
                                }
                                Ok(
                                    ResolvedName::ExternalName {
                                        class,
                                        type_mark: TypeRef { id: subtype },
                                    },
                                )
                            },
                            _ => Ok(ResolvedName::NonObject(ent)),
                        }
                    },
                    ResolvedName::Overloaded(..) => {
                        proof {
                            assert(false);
                        }
                        Err(type_prefix_str().to_owned())
                    },
                }
            },
        }
    }
}

/// Everything one resolution pass yields: the result handed to the caller,
/// the diagnostics appended to the sink, and the cross-reference table as it
/// stands afterwards.
pub ghost struct ResolveOut {
    pub res: Result<ResolvedView, DiagView>,
    pub diags: Seq<DiagView>,
    pub refs: Seq<Option<usize>>,
}

/// The complete behaviour of `resolve_object_prefix` on `name`, as a
/// function of the scope, the declaration arena, the caller's error message
/// and the cross-reference table at entry.
pub open spec fn resolve_spec(
    arena: EntityArena,
    region: Region,
    name_pos: int,
    name: Name,
    err_msg: Seq<char>,
    refs0: Seq<Option<usize>>,
) -> ResolveOut
    decreases name,
{
    match name {
        Name::Designator(wr) => {
            let refs1 = refs0.update(wr.slot as int, None);
            match lookup_entries(region.entries@, wr.item@) {
                None => ResolveOut {
                    res: Err(DiagView { pos: name_pos, message: undeclared_msg() }),
                    diags: Seq::empty(),
                    refs: refs1,
                },
                Some(NamedEntities::Single(e)) => ResolveOut {
                    res: Ok(classify_spec(arena, e as int)),
                    diags: Seq::empty(),
                    refs: refs1.update(wr.slot as int, Some(e)),
                },
                Some(NamedEntities::Overloaded(o)) => ResolveOut {
                    res: Ok(ResolvedView::Overloaded(o.ids@)),
                    diags: Seq::empty(),
                    refs: refs1,
                },
            }
        },
        Name::Selected(prefix, suffix) => {
            let refs1 = refs0.update(suffix.item.slot as int, None);
            let p = resolve_spec(arena, region, prefix.pos as int, prefix.item, err_msg, refs1);
            if p.res is Err {
                p
            } else {
                match p.res->Ok_0 {
                    ResolvedView::NonObject(ent) => match lookup_entries(
                        arena.region_of(ent),
                        suffix.item.item@,
                    ) {
                        None => ResolveOut {
                            res: Err(
                                DiagView { pos: suffix.pos as int, message: undeclared_msg() },
                            ),
                            diags: p.diags,
                            refs: p.refs,
                        },
                        Some(NamedEntities::Single(e)) => {
                            let refs2 = p.refs.update(suffix.item.slot as int, Some(e));
                            match transition_spec(arena, p.res->Ok_0, e as int) {
                                Some(v) => ResolveOut { res: Ok(v), diags: p.diags, refs: refs2 },
                                None => ResolveOut {
                                    res: Err(
                                        DiagView { pos: name_pos, message: type_prefix_msg() },
                                    ),
                                    diags: p.diags,
                                    refs: refs2,
                                },
                            }
                        },
                        Some(NamedEntities::Overloaded(o)) => ResolveOut {
                            res: Ok(ResolvedView::Overloaded(o.ids@)),
                            diags: p.diags,
                            refs: p.refs,
                        },
                    },
                    ResolvedView::Type(_) => ResolveOut {
                        res: Err(DiagView { pos: name_pos, message: type_prefix_msg() }),
                        diags: p.diags,
                        refs: p.refs,
                    },
                    ResolvedView::ObjectSelection { base_object: _, type_mark } => match
                        lookup_entries(arena.region_of(type_mark), suffix.item.item@) {
                        None => ResolveOut {
                            res: Err(
                                DiagView { pos: suffix.pos as int, message: undeclared_msg() },
                            ),
                            diags: p.diags,
                            refs: p.refs,
                        },
                        Some(NamedEntities::Single(e)) => {
                            let refs2 = p.refs.update(suffix.item.slot as int, Some(e));
                            match transition_spec(arena, p.res->Ok_0, e as int) {
                                Some(v) => ResolveOut { res: Ok(v), diags: p.diags, refs: refs2 },
                                None => ResolveOut {
                                    res: Err(
                                        DiagView { pos: name_pos, message: type_prefix_msg() },
                                    ),
                                    diags: p.diags,
                                    refs: refs2,
                                },
                            }
                        },
                        Some(NamedEntities::Overloaded(_)) => ResolveOut {
                            res: Err(DiagView { pos: name_pos, message: err_msg }),
                            diags: p.diags,
                            refs: p.refs,
                        },
                    },
                    ResolvedView::ExternalName { class: _, type_mark } => match lookup_entries(
                        arena.region_of(type_mark),
                        suffix.item.item@,
                    ) {
                        None => ResolveOut {
                            res: Err(
                                DiagView { pos: suffix.pos as int, message: undeclared_msg() },
                            ),
                            diags: p.diags,
                            refs: p.refs,
                        },
                        Some(NamedEntities::Single(e)) => {
                            let refs2 = p.refs.update(suffix.item.slot as int, Some(e));
                            match transition_spec(arena, p.res->Ok_0, e as int) {
                                Some(v) => ResolveOut { res: Ok(v), diags: p.diags, refs: refs2 },
                                None => ResolveOut {
                                    res: Err(
                                        DiagView { pos: name_pos, message: type_prefix_msg() },
                                    ),
                                    diags: p.diags,
                                    refs: refs2,
                                },
                            }
                        },
                        Some(NamedEntities::Overloaded(_)) => ResolveOut {
                            res: Err(DiagView { pos: name_pos, message: err_msg }),
                            diags: p.diags,
                            refs: p.refs,
                        },
                    },
                    ResolvedView::Overloaded(_) => ResolveOut {
                        res: Err(DiagView { pos: name_pos, message: err_msg }),
                        diags: p.diags,
                        refs: p.refs,
                    },
                }
            }
        },
        Name::SelectedAll(prefix) => resolve_spec(
            arena,
            region,
            prefix.pos as int,
            prefix.item,
            err_msg,
            refs0,
        ),
        Name::Indexed(prefix, indexes) => {
            let p = resolve_spec(arena, region, prefix.pos as int, prefix.item, err_msg, refs0);
            let ediags = exprs_diags_from(region, indexes@, 0);
            match p.res {
                Ok(ResolvedView::ObjectSelection { base_object, type_mark }) => match
                    index_check_spec(arena, type_mark, indexes@.len(), prefix.pos as int) {
                    Ok(elem) => ResolveOut {
                        res: Ok(
                            ResolvedView::ObjectSelection { base_object, type_mark: elem },
                        ),
                        diags: p.diags + ediags,
                        refs: p.refs,
                    },
                    Err(d) => ResolveOut { res: Err(d), diags: p.diags + ediags, refs: p.refs },
                },
                _ => ResolveOut {
                    res: Err(DiagView { pos: prefix.pos as int, message: err_msg }),
                    diags: p.diags + ediags,
                    refs: p.refs,
                },
            }
        },
        Name::Slice(prefix, rng) => {
            let p = resolve_spec(arena, region, prefix.pos as int, prefix.item, err_msg, refs0);
            let sdiags = match p.res {
                Ok(ResolvedView::ObjectSelection { base_object: _, type_mark }) =>
                    slice_diags_spec(arena, type_mark, prefix.pos as int),
                _ => Seq::empty(),
            };
            let rout = range_outcome_spec(region, *rng);
            let alldiags = p.diags + sdiags + rout.0;
            match rout.1 {
                Some(d) => ResolveOut { res: Err(d), diags: alldiags, refs: p.refs },
                None => ResolveOut { res: p.res, diags: alldiags, refs: p.refs },
            }
        },
        Name::Attribute(_) => ResolveOut {
            res: Err(DiagView { pos: name_pos, message: err_msg }),
            diags: Seq::empty(),
            refs: refs0,
        },
        Name::FunctionCall(call) => {
            if has_formal_spec(call.parameters@) {
                ResolveOut {
                    res: Err(DiagView { pos: name_pos, message: err_msg }),
                    diags: Seq::empty(),
                    refs: refs0,
                }
            } else {
                let p = resolve_spec(
                    arena,
                    region,
                    call.name.pos as int,
                    call.name.item,
                    err_msg,
                    refs0,
                );
                let ediags = assoc_diags_from(region, call.parameters@, 0);
                match p.res {
                    Ok(ResolvedView::ObjectSelection { base_object, type_mark }) => match
                        index_check_spec(
                        arena,
                        type_mark,
                        call.parameters@.len(),
                        call.name.pos as int,
                    ) {
                        Ok(elem) => ResolveOut {
                            res: Ok(
                                ResolvedView::ObjectSelection { base_object, type_mark: elem },
                            ),
                            diags: p.diags + ediags,
                            refs: p.refs,
                        },
                        Err(d) => ResolveOut {
                            res: Err(d),
                            diags: p.diags + ediags,
                            refs: p.refs,
                        },
                    },
                    _ => ResolveOut {
                        res: Err(DiagView { pos: call.name.pos as int, message: err_msg }),
                        diags: p.diags + ediags,
                        refs: p.refs,
                    },
                }
            }
        },
        Name::External(en) => {
            match subtype_spec(arena, region, en.subtype) {
                Ok(t) => ResolveOut {
                    res: Ok(ResolvedView::ExternalName { class: en.class, type_mark: t }),
                    diags: Seq::empty(),
                    refs: refs0,
                },
                Err(d) => ResolveOut { res: Err(d), diags: Seq::empty(), refs: refs0 },
            }
        },
    }
}

/// Whether any element of an association list has a formal part; a list with
/// one cannot be indexing in disguise.
pub open spec fn has_formal_spec(ps: Seq<AssociationElement>) -> bool {
    exists|i: int| 0 <= i < ps.len() && (#[trigger] ps[i].formal) is Some
}

fn has_formal_part(ps: &Vec<AssociationElement>) -> (r: bool)
    ensures
        r == has_formal_spec(ps@),
{
    let mut i: usize = 0;
    while i < ps.len()
        invariant
            i <= ps@.len(),
            forall|j: int| 0 <= j < i ==> !((#[trigger] ps@[j].formal) is Some),
        decreases ps@.len() - i,
    {
        if ps[i].formal.is_some() {
            return true;
        }
        i = i + 1;
    }
    false
}

impl AnalyzeContext {
    /// Resolve a suffix selected through a non-object prefix (the contents
    /// of a package or library).
    pub fn lookup_selected(&self, prefix_ent: usize, suffix: &Spanned<WithRef<String>>) -> (r:
        Result<NamedEntities, Diagnostic>)
        requires
            self.arena.wf(),
            self.arena.valid_id(prefix_ent as int),
        ensures
            match lookup_entries(self.arena.region_of(prefix_ent as int), suffix.item.item@) {
                Some(n) => r is Ok && named_eq(r->Ok_0, n) && self.arena.wf_named(r->Ok_0),
                None => r is Err && r->Err_0@ == (DiagView {
                    pos: suffix.pos as int,
                    message: undeclared_msg(),
                }),
            },
    {
        match self.arena.lookup_region(prefix_ent, &suffix.item.item) {
            Some(n) => {
                proof {
                    crate::entity::lemma_lookup_entries_found(
                        self.arena.region_of(prefix_ent as int),
                        suffix.item.item@,
                    );
                    assert(self.arena.wf_entity(self.arena.ents@[prefix_ent as int]));
                }
                Ok(n.dup())
            },
            None => Err(Diagnostic::error(suffix.pos, undeclared_str())),
        }
    }

    /// Resolve a record element or protected-type operation selected through
    /// a type. The region of a type never holds objects, so a `Single`
    /// answer is never an object or object alias.
    pub fn lookup_type_selected(&self, type_mark: TypeRef, suffix: &Spanned<WithRef<String>>) -> (r:
        Result<NamedEntities, Diagnostic>)
        requires
            self.arena.wf(),
            self.arena.is_type(type_mark.id as int),
        ensures
            match lookup_entries(self.arena.region_of(type_mark.id as int), suffix.item.item@) {
                Some(n) => r is Ok && named_eq(r->Ok_0, n) && self.arena.wf_named(r->Ok_0) && match
                    r->Ok_0 {
                    NamedEntities::Single(e) => !(self.arena.kind_of(e as int) is Object) && !(
                    self.arena.kind_of(e as int) is ObjectAlias),
                    NamedEntities::Overloaded(_) => true,
                },
                None => r is Err && r->Err_0@ == (DiagView {
                    pos: suffix.pos as int,
                    message: undeclared_msg(),
                }),
            },
    {
        match self.arena.lookup_region(type_mark.id, &suffix.item.item) {
            Some(n) => {
                proof {
                    crate::entity::lemma_lookup_entries_found(
                        self.arena.region_of(type_mark.id as int),
                        suffix.item.item@,
                    );
                    assert(self.arena.wf_entity(self.arena.ents@[type_mark.id as int]));
                }
                Ok(n.dup())
            },
            None => Err(Diagnostic::error(suffix.pos, undeclared_str())),
        }
    }

    /// Resolve a name that must denote some kind of object selection, index
    /// or slice; such names occur as assignment targets and as aliases. The
    /// caller supplies the error message reported where the name turns out
    /// not to be object-like, which lets one engine serve many call sites.
    ///
    /// The scope is read-only; the one thing written is the caller-owned
    /// cross-reference table, and diagnostics are appended to the sink. The
    /// whole behaviour — result, diagnostics, cross-references — is the one
    /// `resolve_spec` gives for the inputs, so resolution is a pure function
    /// of them.
    pub fn resolve_object_prefix(
        &self,
        region: &Region,
        name_pos: usize,
        name: &Name,
        err_msg: &str,
        diagnostics: &mut Vec<Diagnostic>,
        refs: &mut RefTable,
    ) -> (r: Result<ResolvedName, Diagnostic>)
        requires
            self.arena.wf(),
            self.arena.wf_region_entries(region.entries@),
            name_slots_ok(*name, old(refs).slots@.len()),
        ensures
            ({
                let o = resolve_spec(
                    self.arena,
                    *region,
                    name_pos as int,
                    *name,
                    err_msg@,
                    old(refs).slots@,
                );
                &&& final(refs).slots@ == o.refs
                &&& final(refs).slots@.len() == old(refs).slots@.len()
                &&& diags_view(final(diagnostics)@) == diags_view(old(diagnostics)@) + o.diags
                &&& match r {
                    Ok(rn) => o.res is Ok && rn@ == o.res->Ok_0 && resolved_wf(self.arena, rn@),
                    Err(d) => o.res is Err && d@ == o.res->Err_0,
                }
            }),
        decreases *name,
    {
        proof {
            assert(diags_view(diagnostics@) =~= diags_view(diagnostics@) + Seq::<
                DiagView,
            >::empty());
        }
        match name {
            Name::Designator(wr) => {
                refs.clear(wr.slot);
                match region.lookup(&wr.item) {
                    None => Err(Diagnostic::error(name_pos, undeclared_str())),
                    Some(n) => {
                        proof {
                            crate::entity::lemma_lookup_entries_found(region.entries@, wr.item@);
                        }
                        match n {
                            NamedEntities::Single(e) => {
                                let e = *e;
                                refs.set_ref(wr.slot, e);
                                Ok(ResolvedName::new(&self.arena, e))
                            },
                            NamedEntities::Overloaded(o) => Ok(ResolvedName::Overloaded(o.dup())),
                        }
                    },
                }
            },
            Name::Selected(prefix, suffix) => {
                refs.clear(suffix.item.slot);
                let resolved = self.resolve_object_prefix(
                    region,
                    prefix.pos,
                    &prefix.item,
                    err_msg,
                    diagnostics,
                    refs,
                )?;
                match resolved {
                    ResolvedName::NonObject(ent) => {
                        match self.lookup_selected(ent, suffix)? {
                            NamedEntities::Single(e) => {
                                refs.set_ref(suffix.item.slot, e);
                                match ResolvedName::NonObject(ent).with_suffix(&self.arena, e) {
                                    Ok(next) => Ok(next),
                                    Err(msg) => Err(Diagnostic { pos: name_pos, message: msg }),
                                }
                            },
                            NamedEntities::Overloaded(o) => Ok(ResolvedName::Overloaded(o)),
                        }
                    },
                    ResolvedName::Type(_) => Err(Diagnostic::error(name_pos, type_prefix_str())),
                    ResolvedName::ObjectSelection { base_object, type_mark } => {
                        match self.lookup_type_selected(type_mark, suffix)? {
                            NamedEntities::Single(e) => {
                                refs.set_ref(suffix.item.slot, e);
                                match (ResolvedName::ObjectSelection {
                                    base_object,
                                    type_mark,
                                }).with_suffix(&self.arena, e) {
                                    Ok(next) => Ok(next),
                                    Err(msg) => Err(Diagnostic { pos: name_pos, message: msg }),
                                }
                            },
                            NamedEntities::Overloaded(_) => Err(
                                Diagnostic::error(name_pos, err_msg),
                            ),
                        }
                    },
                    ResolvedName::ExternalName { class, type_mark } => {
                        match self.lookup_type_selected(type_mark, suffix)? {
                            NamedEntities::Single(e) => {
                                refs.set_ref(suffix.item.slot, e);
                                match (ResolvedName::ExternalName {
                                    class,
                                    type_mark,
                                }).with_suffix(&self.arena, e) {
                                    Ok(next) => Ok(next),
                                    Err(msg) => Err(Diagnostic { pos: name_pos, message: msg }),
                                }
                            },
                            NamedEntities::Overloaded(_) => Err(
                                Diagnostic::error(name_pos, err_msg),
                            ),
                        }
                    },
                    ResolvedName::Overloaded(_) => Err(Diagnostic::error(name_pos, err_msg)),
                }
            },
            Name::SelectedAll(prefix) => self.resolve_object_prefix(
                region,
                prefix.pos,
                &prefix.item,
                err_msg,
                diagnostics,
                refs,
            ),
            Name::Indexed(prefix, indexes) => {
                let resolved = self.resolve_object_prefix(
                    region,
                    prefix.pos,
                    &prefix.item,
                    err_msg,
                    diagnostics,
                    refs,
                );
                self.analyze_expression_list(region, indexes, diagnostics);
                proof {
                    let o = resolve_spec(
                        self.arena,
                        *region,
                        name_pos as int,
                        *name,
                        err_msg@,
                        old(refs).slots@,
                    );
                    let p = resolve_spec(
                        self.arena,
                        *region,
                        prefix.pos as int,
                        prefix.item,
                        err_msg@,
                        old(refs).slots@,
                    );
                    assert(diags_view(diagnostics@) =~= diags_view(old(diagnostics)@) + (p.diags
                        + exprs_diags_from(*region, indexes@, 0)));
                }
                match resolved {
                    Ok(ResolvedName::ObjectSelection { base_object, type_mark }) => {
                        match self.analyze_indexed_name(prefix.pos, type_mark, indexes.len()) {
                            Ok(elem) => Ok(
                                ResolvedName::ObjectSelection { base_object, type_mark: elem },
                            ),
                            Err(d) => Err(d),
                        }
                    },
                    _ => Err(Diagnostic::error(prefix.pos, err_msg)),
                }
            },
            Name::Slice(prefix, rng) => {
                let resolved = self.resolve_object_prefix(
                    region,
                    prefix.pos,
                    &prefix.item,
                    err_msg,
                    diagnostics,
                    refs,
                );
                if let Ok(ResolvedName::ObjectSelection { base_object: _, type_mark }) = &resolved {
                    self.analyze_sliced_name(prefix.pos, *type_mark, diagnostics);
                }
                let rres = self.analyze_discrete_range(region, &**rng, diagnostics);
                proof {
                    let p = resolve_spec(
                        self.arena,
                        *region,
                        prefix.pos as int,
                        prefix.item,
                        err_msg@,
                        old(refs).slots@,
                    );
                    let sdiags = match p.res {
                        Ok(ResolvedView::ObjectSelection { base_object: _, type_mark }) =>
                            slice_diags_spec(self.arena, type_mark, prefix.pos as int),
                        _ => Seq::<DiagView>::empty(),
                    };
                    assert(diags_view(diagnostics@) =~= diags_view(old(diagnostics)@) + (p.diags
                        + sdiags + range_outcome_spec(*region, **rng).0));
                }
                match rres {
                    Err(d) => Err(d),
                    Ok(_) => resolved,
                }
            },
            Name::Attribute(_) => Err(Diagnostic::error(name_pos, err_msg)),
            Name::FunctionCall(call) => {
                if has_formal_part(&call.parameters) {
                    Err(Diagnostic::error(name_pos, err_msg))
                } else {
                    let resolved = self.resolve_object_prefix(
                        region,
                        call.name.pos,
                        &call.name.item,
                        err_msg,
                        diagnostics,
                        refs,
                    );
                    self.analyze_association_list(region, &call.parameters, diagnostics);
                    proof {
                        let p = resolve_spec(
                            self.arena,
                            *region,
                            call.name.pos as int,
                            call.name.item,
                            err_msg@,
                            old(refs).slots@,
                        );
                        assert(diags_view(diagnostics@) =~= diags_view(old(diagnostics)@) + (
                        p.diags + assoc_diags_from(*region, call.parameters@, 0)));
                    }
                    match resolved {
                        Ok(ResolvedName::ObjectSelection { base_object, type_mark }) => {
                            match self.analyze_indexed_name(
                                call.name.pos,
                                type_mark,
                                call.parameters.len(),
                            ) {
                                Ok(elem) => Ok(
                                    ResolvedName::ObjectSelection {
                                        base_object,
                                        type_mark: elem,
                                    },
                                ),
                                Err(d) => Err(d),
                            }
                        },
                        _ => Err(Diagnostic::error(call.name.pos, err_msg)),
                    }
                }
            },
            Name::External(en) => {
                match self.resolve_subtype_indication(region, &en.subtype) {
                    Ok(t) => Ok(ResolvedName::ExternalName { class: en.class, type_mark: t }),
                    Err(d) => Err(d),
                }
            },
        }
    }
}

} // verus!
