//! The entity taxonomy: the closed set of declaration kinds that name
//! resolution distinguishes, an arena holding the immutable declaration
//! records, and the regions (scopes) that map designators to declarations.
//!
//! Entities are shared by reference wherever they are named; here that is
//! modelled by an arena indexed by integer handles, so that the resolved-name
//! states and the regions hold handles rather than owning references.

use vstd::prelude::*;

verus! {

/// Shape of a type declaration, as far as resolution needs it: an array type
/// knows how many index positions it has and what its element type is.
#[derive(Clone, Copy, PartialEq, Eq, Structural, Debug)]
pub enum TypeDef {
    Array { dim_count: usize, elem_type: usize },
    Plain,
}

/// The closed set of declaration kinds. `Object` and `ElementDeclaration`
/// carry the handle of the entity for their declared type; an `ObjectAlias`
/// carries the root object it renames together with its own type mark.
/// Everything resolution treats uniformly (packages, libraries, ...) is
/// `Other`.
#[derive(Clone, Copy, PartialEq, Eq, Structural, Debug)]
pub enum EntityKind {
    Object { subtype: usize },
    ObjectAlias { base_object: usize, type_mark: usize },
    Type { def: TypeDef },
    ElementDeclaration { subtype: usize },
    Overloaded,
    Other,
}

/// A set of overloaded declarations sharing one designator, kept as the
/// handles of its candidates; never disambiguated by this crate.
#[derive(PartialEq, Eq, Debug)]
pub struct OverloadedName {
    pub ids: Vec<usize>,
}

impl OverloadedName {
    /// A copy holding the same candidate handles.
    pub fn dup(&self) -> (r: OverloadedName)
        ensures
            r.ids@ == self.ids@,
    {
        let mut ids: Vec<usize> = Vec::new();
        let mut i: usize = 0;
        while i < self.ids.len()
            invariant
                i <= self.ids.len(),
                ids@ == self.ids@.take(i as int),
            decreases self.ids.len() - i,
        {
            ids.push(self.ids[i]);
            i = i + 1;
            proof {
                assert(ids@ =~= self.ids@.take(i as int));
            }
        }
        proof {
            assert(ids@ =~= self.ids@);
        }
        OverloadedName { ids }
    }
}

/// What a designator denotes in a region: one declaration, or a set of
/// overloaded ones.
#[derive(PartialEq, Eq, Debug)]
pub enum NamedEntities {
    Single(usize),
    Overloaded(OverloadedName),
}

impl NamedEntities {
    /// A copy denoting the same declarations.
    pub fn dup(&self) -> (r: NamedEntities)
        ensures
            named_eq(r, *self),
    {
        match self {
            NamedEntities::Single(e) => NamedEntities::Single(*e),
            NamedEntities::Overloaded(o) => NamedEntities::Overloaded(o.dup()),
        }
    }
}

/// Equality of denotations, up to the view of the candidate list.
pub open spec fn named_eq(a: NamedEntities, b: NamedEntities) -> bool {
    match (a, b) {
        (NamedEntities::Single(x), NamedEntities::Single(y)) => x == y,
        (NamedEntities::Overloaded(x), NamedEntities::Overloaded(y)) => x.ids@ == y.ids@,
        _ => false,
    }
}

/// One visible declaration of a region: a designator and what it denotes.
#[derive(PartialEq, Eq, Debug)]
pub struct RegionEntry {
    pub designator: String,
    pub named: NamedEntities,
}

/// A scope: the designators visible at some point, in declaration order.
/// Lookup returns the first entry with the requested designator.
#[derive(PartialEq, Eq, Debug)]
pub struct Region {
    pub entries: Vec<RegionEntry>,
}

/// First entry of `entries` whose designator reads `des`, if any.
pub open spec fn lookup_entries(entries: Seq<RegionEntry>, des: Seq<char>) -> Option<NamedEntities>
    decreases entries.len(),
{
    if entries.len() == 0 {
        None
    } else if entries[0].designator@ == des {
        Some(entries[0].named)
    } else {
        lookup_entries(entries.drop_first(), des)
    }
}

/// A found lookup result is one of the entries, under the looked-up
/// designator.
pub proof fn lemma_lookup_entries_found(entries: Seq<RegionEntry>, des: Seq<char>)
    requires
        lookup_entries(entries, des) is Some,
    ensures
        exists|i: int|
            0 <= i < entries.len() && entries[i].named == lookup_entries(entries, des)->0
                && entries[i].designator@ == des,
    decreases entries.len(),
{
    if entries.len() == 0 {
    } else if entries[0].designator@ == des {
        assert(entries[0].named == lookup_entries(entries, des)->0);
    } else {
        lemma_lookup_entries_found(entries.drop_first(), des);
        let j = choose|j: int|
            0 <= j < entries.drop_first().len() && entries.drop_first()[j].named == lookup_entries(
                entries.drop_first(),
                des,
            )->0 && entries.drop_first()[j].designator@ == des;
        assert(entries[j + 1].named == lookup_entries(entries, des)->0);
    }
}

impl Region {
    /// An empty scope.
    pub fn new() -> (r: Region)
        ensures
            r.entries@.len() == 0,
    {
        Region { entries: Vec::new() }
    }

    /// Declare `des` as denoting `named`, at the end of the region.
    pub fn add(&mut self, des: String, named: NamedEntities)
        ensures
            final(self).entries@ == old(self).entries@.push(
                RegionEntry { designator: des, named },
            ),
    {
        self.entries.push(RegionEntry { designator: des, named });
    }

    /// Look a designator up; first match wins.
    pub fn lookup(&self, des: &String) -> (r: Option<&NamedEntities>)
        ensures
            match r {
                Some(n) => lookup_entries(self.entries@, des@) == Some(*n),
                None => lookup_entries(self.entries@, des@) is None,
            },
    {
        proof {
            assert(self.entries@.skip(0) =~= self.entries@);
        }
        lookup_entries_exec(&self.entries, des, 0)
    }
}

fn lookup_entries_exec<'a>(entries: &'a Vec<RegionEntry>, des: &String, i: usize) -> (r: Option<
    &'a NamedEntities,
>)
    requires
        i <= entries.len(),
    ensures
        match r {
            Some(n) => lookup_entries(entries@.skip(i as int), des@) == Some(*n),
            None => lookup_entries(entries@.skip(i as int), des@) is None,
        },
    decreases entries.len() - i,
{
    if i == entries.len() {
        proof {
            assert(entries@.skip(i as int).len() == 0);
        }
        None
    } else {
        proof {
            assert(entries@.skip(i as int)[0] == entries@[i as int]);
            assert(entries@.skip(i as int).drop_first() =~= entries@.skip(i as int + 1));
        }
        if entries[i].designator.eq(des) {
            Some(&entries[i].named)
        } else {
            lookup_entries_exec(entries, des, i + 1)
        }
    }
}

/// One declaration record: its kind, and the region of declarations that are
/// reachable through it by selection (package contents, record elements,
/// protected-type operations).
#[derive(PartialEq, Eq, Debug)]
pub struct Entity {
    pub kind: EntityKind,
    pub region: Region,
}

/// The arena of declaration records; handles are indices into `ents`.
#[derive(PartialEq, Eq, Debug)]
pub struct EntityArena {
    pub ents: Vec<Entity>,
}

impl EntityArena {
    /// An arena with no declarations.
    pub fn new() -> (r: EntityArena)
        ensures
            r.ents@.len() == 0,
    {
        EntityArena { ents: Vec::new() }
    }

    /// Add a declaration record and return its handle.
    pub fn add(&mut self, kind: EntityKind, region: Region) -> (e: usize)
        ensures
            final(self).ents@ == old(self).ents@.push(Entity { kind, region }),
            e == old(self).ents@.len(),
    {
        let e = self.ents.len();
        self.ents.push(Entity { kind, region });
        e
    }

    pub open spec fn valid_id(&self, e: int) -> bool {
        0 <= e < self.ents@.len()
    }

    pub open spec fn kind_of(&self, e: int) -> EntityKind {
        self.ents@[e].kind
    }

    pub open spec fn region_of(&self, e: int) -> Seq<RegionEntry> {
        self.ents@[e].region.entries@
    }

    pub open spec fn is_type(&self, e: int) -> bool {
        self.valid_id(e) && self.kind_of(e) is Type
    }

    pub open spec fn is_object(&self, e: int) -> bool {
        self.valid_id(e) && self.kind_of(e) is Object
    }

    /// The declared kind of an entity names only valid handles, and handles
    /// of the right kinds.
    pub open spec fn wf_kind(&self, k: EntityKind) -> bool {
        match k {
            EntityKind::Object { subtype } => self.is_type(subtype as int),
            EntityKind::ObjectAlias { base_object, type_mark } => self.is_object(base_object as int)
                && self.is_type(type_mark as int),
            EntityKind::Type { def } => match def {
                TypeDef::Array { dim_count: _, elem_type } => self.is_type(elem_type as int),
                TypeDef::Plain => true,
            },
            EntityKind::ElementDeclaration { subtype } => self.is_type(subtype as int),
            EntityKind::Overloaded => true,
            EntityKind::Other => true,
        }
    }

    pub open spec fn wf_named(&self, n: NamedEntities) -> bool {
        match n {
            NamedEntities::Single(e) => self.valid_id(e as int),
            NamedEntities::Overloaded(o) => o.ids@.len() > 0 && forall|i: int|
                0 <= i < o.ids@.len() ==> self.valid_id(#[trigger] o.ids@[i] as int),
        }
    }

    pub open spec fn wf_region_entries(&self, entries: Seq<RegionEntry>) -> bool {
        forall|i: int| 0 <= i < entries.len() ==> self.wf_named(#[trigger] entries[i].named)
    }

    /// The region of a type holds record elements and protected-type
    /// operations, never objects or object aliases: scope construction
    /// guarantees it, and the suffix transition relies on it.
    pub open spec fn type_region_ok(&self, entries: Seq<RegionEntry>) -> bool {
        forall|i: int| 0 <= i < entries.len() ==> match #[trigger] entries[i].named {
            NamedEntities::Single(e) => !(self.kind_of(e as int) is Object) && !(self.kind_of(
                e as int,
            ) is ObjectAlias),
            NamedEntities::Overloaded(_) => true,
        }
    }

    pub open spec fn wf_entity(&self, ent: Entity) -> bool {
        &&& self.wf_kind(ent.kind)
        &&& self.wf_region_entries(ent.region.entries@)
        &&& (ent.kind is Type ==> self.type_region_ok(ent.region.entries@))
    }

    /// Well-formedness of the whole declaration graph.
    pub open spec fn wf(&self) -> bool {
        forall|e: int| 0 <= e < self.ents@.len() ==> self.wf_entity(#[trigger] self.ents@[e])
    }

    /// Number of declarations held.
    pub fn len(&self) -> (n: usize)
        ensures
            n == self.ents@.len(),
    {
        self.ents.len()
    }

    /// The declared kind of an entity.
    pub fn kind(&self, e: usize) -> (k: EntityKind)
        requires
            self.valid_id(e as int),
        ensures
            k == self.kind_of(e as int),
    {
        self.ents[e].kind
    }

    /// The kind of an entity resolved through aliases: for an object alias,
    /// the kind of the object it renames; the declared kind otherwise.
    pub open spec fn spec_actual_kind(&self, e: int) -> EntityKind {
        match self.kind_of(e) {
            EntityKind::ObjectAlias { base_object, .. } => self.kind_of(base_object as int),
            k => k,
        }
    }

    /// The alias-resolved kind; differs from the declared kind precisely when
    /// the entity is an alias.
    pub fn actual_kind(&self, e: usize) -> (k: EntityKind)
        requires
            self.wf(),
            self.valid_id(e as int),
        ensures
            k == self.spec_actual_kind(e as int),
    {
        match self.kind(e) {
            EntityKind::ObjectAlias { base_object, .. } => self.kind(base_object),
            k => k,
        }
    }

    /// Look `des` up in the region of entity `e`.
    pub fn lookup_region(&self, e: usize, des: &String) -> (r: Option<&NamedEntities>)
        requires
            self.valid_id(e as int),
        ensures
            match r {
                Some(n) => lookup_entries(self.region_of(e as int), des@) == Some(*n),
                None => lookup_entries(self.region_of(e as int), des@) is None,
            },
    {
        self.ents[e].region.lookup(des)
    }
}

/// An entity statically known to be a type.
#[derive(Clone, Copy, PartialEq, Eq, Structural, Debug)]
pub struct TypeRef {
    pub id: usize,
}

impl TypeRef {
    /// Conversion from a generic entity; hands the handle back unchanged when
    /// the entity is not a type.
    pub fn from_any(arena: &EntityArena, ent: usize) -> (r: Result<TypeRef, usize>)
        requires
            arena.valid_id(ent as int),
        ensures
            arena.is_type(ent as int) ==> r == Result::<TypeRef, usize>::Ok(TypeRef { id: ent }),
            !arena.is_type(ent as int) ==> r == Result::<TypeRef, usize>::Err(ent),
    {
        match arena.kind(ent) {
            EntityKind::Type { .. } => Ok(TypeRef { id: ent }),
            _ => Err(ent),
        }
    }
}

/// An entity statically known to be an object.
#[derive(Clone, Copy, PartialEq, Eq, Structural, Debug)]
pub struct ObjectRef {
    pub id: usize,
}

} // verus!
