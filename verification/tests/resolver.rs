use vhdl_names::analyze::AnalyzeContext;
use vhdl_names::ast::{
    AssociationElement, CallOrIndexed, Expression, ExternalNameExpr, ExternalObjectClass, Name,
    RangeExpr, RefTable, Spanned, SubtypeIndication, WithRef,
};
use vhdl_names::diagnostic::Diagnostic;
use vhdl_names::entity::{
    Entity, EntityArena, EntityKind, NamedEntities, OverloadedName, Region, RegionEntry, TypeDef,
    TypeRef,
};
use vhdl_names::names::ResolvedName;

const INTEGER: usize = 0;
const BIT: usize = 1;
const F_ELEM: usize = 2;
const REC_T: usize = 3;
const R_OBJ: usize = 4;
const ARR_T: usize = 5;
const A_OBJ: usize = 6;
const T_PLAIN: usize = 7;
const OV1: usize = 8;
const OV2: usize = 9;
const PROT_T: usize = 10;
const P_OBJ: usize = 11;
const AL_OBJ: usize = 12;

fn plain_region() -> Region {
    Region { entries: vec![] }
}

fn entry(name: &str, named: NamedEntities) -> RegionEntry {
    RegionEntry {
        designator: name.to_string(),
        named,
    }
}

fn setup() -> (AnalyzeContext, Region) {
    let ents = vec![
        // INTEGER
        Entity {
            kind: EntityKind::Type {
                def: TypeDef::Plain,
            },
            region: plain_region(),
        },
        // BIT
        Entity {
            kind: EntityKind::Type {
                def: TypeDef::Plain,
            },
            region: plain_region(),
        },
        // F_ELEM: record element f : integer
        Entity {
            kind: EntityKind::ElementDeclaration { subtype: INTEGER },
            region: plain_region(),
        },
        // REC_T: record type with element f
        Entity {
            kind: EntityKind::Type {
                def: TypeDef::Plain,
            },
            region: Region {
                entries: vec![entry("f", NamedEntities::Single(F_ELEM))],
            },
        },
        // R_OBJ: r : rec_t
        Entity {
            kind: EntityKind::Object { subtype: REC_T },
            region: plain_region(),
        },
        // ARR_T: one-dimensional array of integer
        Entity {
            kind: EntityKind::Type {
                def: TypeDef::Array {
                    dim_count: 1,
                    elem_type: INTEGER,
                },
            },
            region: plain_region(),
        },
        // A_OBJ: a : arr_t
        Entity {
            kind: EntityKind::Object { subtype: ARR_T },
            region: plain_region(),
        },
        // T_PLAIN: a type that is no object
        Entity {
            kind: EntityKind::Type {
                def: TypeDef::Plain,
            },
            region: plain_region(),
        },
        // OV1, OV2: overloaded subprograms
        Entity {
            kind: EntityKind::Overloaded,
            region: plain_region(),
        },
        Entity {
            kind: EntityKind::Overloaded,
            region: plain_region(),
        },
        // PROT_T: protected type whose region holds an operation set
        Entity {
            kind: EntityKind::Type {
                def: TypeDef::Plain,
            },
            region: Region {
                entries: vec![entry(
                    "op",
                    NamedEntities::Overloaded(OverloadedName {
                        ids: vec![OV1, OV2],
                    }),
                )],
            },
        },
        // P_OBJ: p : prot_t
        Entity {
            kind: EntityKind::Object { subtype: PROT_T },
            region: plain_region(),
        },
        // AL_OBJ: alias al of r, with type mark rec_t
        Entity {
            kind: EntityKind::ObjectAlias {
                base_object: R_OBJ,
                type_mark: REC_T,
            },
            region: plain_region(),
        },
    ];
    let scope = Region {
        entries: vec![
            entry("integer", NamedEntities::Single(INTEGER)),
            entry("bit", NamedEntities::Single(BIT)),
            entry("rec_t", NamedEntities::Single(REC_T)),
            entry("r", NamedEntities::Single(R_OBJ)),
            entry("arr_t", NamedEntities::Single(ARR_T)),
            entry("a", NamedEntities::Single(A_OBJ)),
            entry("T", NamedEntities::Single(T_PLAIN)),
            entry(
                "ov",
                NamedEntities::Overloaded(OverloadedName {
                    ids: vec![OV1, OV2],
                }),
            ),
            entry("p", NamedEntities::Single(P_OBJ)),
            entry("al", NamedEntities::Single(AL_OBJ)),
        ],
    };
    (AnalyzeContext::new(EntityArena { ents }), scope)
}

fn designator(name: &str, slot: usize) -> Name {
    Name::Designator(WithRef {
        item: name.to_string(),
        slot,
    })
}

fn selected(prefix: Name, prefix_pos: usize, suffix: &str, suffix_pos: usize, slot: usize) -> Name {
    Name::Selected(
        Box::new(Spanned {
            item: prefix,
            pos: prefix_pos,
        }),
        Spanned {
            item: WithRef {
                item: suffix.to_string(),
                slot,
            },
            pos: suffix_pos,
        },
    )
}

const ERR_MSG: &str = "may not be the target of an assignment";

fn resolve(
    ctx: &AnalyzeContext,
    scope: &Region,
    name: &Name,
    diagnostics: &mut Vec<Diagnostic>,
    refs: &mut RefTable,
) -> Result<ResolvedName, Diagnostic> {
    ctx.resolve_object_prefix(scope, 0, name, ERR_MSG, diagnostics, refs)
}

#[test]
fn record_field_selection_resolves_to_base_object() {
    // P7: r.f keeps r as base object and narrows the type to integer
    let (ctx, scope) = setup();
    let name = selected(designator("r", 0), 0, "f", 2, 1);
    let mut diagnostics = Vec::new();
    let mut refs = RefTable::new(2);
    let res = resolve(&ctx, &scope, &name, &mut diagnostics, &mut refs);
    match res {
        Ok(ResolvedName::ObjectSelection {
            base_object,
            type_mark,
        }) => {
            assert_eq!(base_object.id, R_OBJ);
            assert_eq!(type_mark.id, INTEGER);
        }
        other => panic!("unexpected resolution: {:?}", other),
    }
    assert!(diagnostics.is_empty());
    assert_eq!(refs.get(0), Some(R_OBJ));
    assert_eq!(refs.get(1), Some(F_ELEM));
}

#[test]
fn selection_through_scalar_type_fails() {
    // P7: r.f.g fails because integer has no field g
    let (ctx, scope) = setup();
    let inner = selected(designator("r", 0), 0, "f", 2, 1);
    let name = selected(inner, 0, "g", 4, 2);
    let mut diagnostics = Vec::new();
    let mut refs = RefTable::new(3);
    let res = resolve(&ctx, &scope, &name, &mut diagnostics, &mut refs);
    let err = res.unwrap_err();
    assert_eq!(err.pos, 4);
    assert_eq!(err.message, "Undeclared designator");
    assert!(diagnostics.is_empty());
}

#[test]
fn object_paths_resolve_through_index_and_slice() {
    // P1 on concrete values: indexing and slicing narrow the type but keep
    // the base object
    let (ctx, scope) = setup();
    let indexed = Name::Indexed(
        Box::new(Spanned {
            item: designator("a", 0),
            pos: 0,
        }),
        vec![Spanned {
            item: Expression::IntLiteral(1),
            pos: 2,
        }],
    );
    let mut diagnostics = Vec::new();
    let mut refs = RefTable::new(1);
    match resolve(&ctx, &scope, &indexed, &mut diagnostics, &mut refs) {
        Ok(ResolvedName::ObjectSelection {
            base_object,
            type_mark,
        }) => {
            assert_eq!(base_object.id, A_OBJ);
            assert_eq!(type_mark.id, INTEGER);
        }
        other => panic!("unexpected resolution: {:?}", other),
    }
    assert!(diagnostics.is_empty());

    let sliced = Name::Slice(
        Box::new(Spanned {
            item: designator("a", 0),
            pos: 0,
        }),
        Box::new(RangeExpr {
            pos: 2,
            left: Spanned {
                item: Expression::IntLiteral(0),
                pos: 2,
            },
            right: Spanned {
                item: Expression::IntLiteral(1),
                pos: 7,
            },
        }),
    );
    match resolve(&ctx, &scope, &sliced, &mut diagnostics, &mut refs) {
        Ok(ResolvedName::ObjectSelection {
            base_object,
            type_mark,
        }) => {
            assert_eq!(base_object.id, A_OBJ);
            assert_eq!(type_mark.id, ARR_T);
        }
        other => panic!("unexpected resolution: {:?}", other),
    }
    assert!(diagnostics.is_empty());
}

#[test]
fn alias_resolves_to_aliased_base_object() {
    let (ctx, scope) = setup();
    let name = designator("al", 0);
    let mut diagnostics = Vec::new();
    let mut refs = RefTable::new(1);
    match resolve(&ctx, &scope, &name, &mut diagnostics, &mut refs) {
        Ok(ResolvedName::ObjectSelection {
            base_object,
            type_mark,
        }) => {
            assert_eq!(base_object.id, R_OBJ);
            assert_eq!(type_mark.id, REC_T);
        }
        other => panic!("unexpected resolution: {:?}", other),
    }
}

#[test]
fn resolution_is_pure() {
    // P2: the same unmodified name tree with fresh sinks resolves to the
    // same result with the same diagnostics
    let (ctx, scope) = setup();
    let name = selected(designator("r", 0), 0, "f", 2, 1);
    let mut diags1 = Vec::new();
    let mut diags2 = Vec::new();
    let mut refs = RefTable::new(2);
    let res1 = resolve(&ctx, &scope, &name, &mut diags1, &mut refs);
    let res2 = resolve(&ctx, &scope, &name, &mut diags2, &mut refs);
    assert_eq!(res1, res2);
    assert_eq!(diags1, diags2);
}

#[test]
fn type_prefix_is_rejected() {
    // P3: T.x fails with the type-as-prefix message whether or not x exists
    let (ctx, scope) = setup();
    let name = selected(designator("T", 0), 0, "x", 2, 1);
    let mut diagnostics = Vec::new();
    let mut refs = RefTable::new(2);
    let err = resolve(&ctx, &scope, &name, &mut diagnostics, &mut refs).unwrap_err();
    assert_eq!(err.message, "Type may not be the prefix of a selected name");
    assert_eq!(err.pos, 0);
    assert!(diagnostics.is_empty());

    // the suffix may even be undeclared; the message stays the same
    let name = selected(designator("T", 0), 0, "no_such_field", 2, 1);
    let err = resolve(&ctx, &scope, &name, &mut diagnostics, &mut refs).unwrap_err();
    assert_eq!(err.message, "Type may not be the prefix of a selected name");
}

#[test]
fn bare_overloaded_designator_is_forwarded() {
    // P4: a bare overloaded designator resolves to the overload set with
    // zero diagnostics
    let (ctx, scope) = setup();
    let name = designator("ov", 0);
    let mut diagnostics = Vec::new();
    let mut refs = RefTable::new(1);
    match resolve(&ctx, &scope, &name, &mut diagnostics, &mut refs) {
        Ok(ResolvedName::Overloaded(set)) => {
            assert_eq!(set.ids, vec![OV1, OV2]);
        }
        other => panic!("unexpected resolution: {:?}", other),
    }
    assert!(diagnostics.is_empty());
    // the cross-reference stays cleared for an overloaded designator
    assert_eq!(refs.get(0), None);
}

#[test]
fn overloaded_suffix_of_object_is_rejected() {
    // P4: p.op, a protected-type operation set, cannot be a target
    let (ctx, scope) = setup();
    let name = selected(designator("p", 0), 0, "op", 2, 1);
    let mut diagnostics = Vec::new();
    let mut refs = RefTable::new(2);
    let err = resolve(&ctx, &scope, &name, &mut diagnostics, &mut refs).unwrap_err();
    assert_eq!(err.message, ERR_MSG);
    assert_eq!(err.pos, 0);
    assert!(diagnostics.is_empty());
}

#[test]
fn undeclared_call_still_analyzes_arguments() {
    // P5: bad_name(i + 1) reports bad_name in the failing result and i in
    // the diagnostics sink
    let (ctx, scope) = setup();
    let name = Name::FunctionCall(Box::new(CallOrIndexed {
        name: Spanned {
            item: designator("bad_name", 0),
            pos: 0,
        },
        parameters: vec![AssociationElement {
            formal: None,
            actual: Spanned {
                item: Expression::Binary(
                    Box::new(Spanned {
                        item: Expression::Ref("i".to_string()),
                        pos: 9,
                    }),
                    Box::new(Spanned {
                        item: Expression::IntLiteral(1),
                        pos: 13,
                    }),
                ),
                pos: 9,
            },
        }],
    }));
    let mut diagnostics = Vec::new();
    let mut refs = RefTable::new(1);
    let err = resolve(&ctx, &scope, &name, &mut diagnostics, &mut refs).unwrap_err();
    assert_eq!(err.pos, 0);
    assert_eq!(err.message, ERR_MSG);
    assert_eq!(diagnostics.len(), 1);
    assert_eq!(diagnostics[0].pos, 9);
    assert_eq!(diagnostics[0].message, "Undeclared designator");
}

#[test]
fn range_error_replaces_prefix_error() {
    // P6: in bad_name(1 to "x") the range's own diagnostic wins over the
    // undeclared prefix
    let (ctx, scope) = setup();
    let name = Name::Slice(
        Box::new(Spanned {
            item: designator("bad_name", 0),
            pos: 0,
        }),
        Box::new(RangeExpr {
            pos: 9,
            left: Spanned {
                item: Expression::IntLiteral(1),
                pos: 9,
            },
            right: Spanned {
                item: Expression::StrLiteral("x".to_string()),
                pos: 14,
            },
        }),
    );
    let mut diagnostics = Vec::new();
    let mut refs = RefTable::new(1);
    let err = resolve(&ctx, &scope, &name, &mut diagnostics, &mut refs).unwrap_err();
    assert_eq!(err.pos, 9);
    assert_eq!(err.message, "Range bounds have mismatched types");
    assert!(diagnostics.is_empty());
}

#[test]
fn external_name_resolves_from_subtype_alone() {
    // P8: a well-typed external reference of class Signal and subtype bit
    let (ctx, scope) = setup();
    let name = Name::External(Box::new(ExternalNameExpr {
        class: ExternalObjectClass::Signal,
        subtype: SubtypeIndication {
            type_mark: Spanned {
                item: "bit".to_string(),
                pos: 5,
            },
        },
    }));
    let mut diagnostics = Vec::new();
    let mut refs = RefTable::new(0);
    match resolve(&ctx, &scope, &name, &mut diagnostics, &mut refs) {
        Ok(ResolvedName::ExternalName { class, type_mark }) => {
            assert_eq!(class, ExternalObjectClass::Signal);
            assert_eq!(type_mark, TypeRef { id: BIT });
        }
        other => panic!("unexpected resolution: {:?}", other),
    }
    assert!(diagnostics.is_empty());
}

#[test]
fn external_field_selection_keeps_class() {
    // selecting a record element through an external name keeps the class
    let (ctx, scope) = setup();
    let prefix = Name::External(Box::new(ExternalNameExpr {
        class: ExternalObjectClass::Variable,
        subtype: SubtypeIndication {
            type_mark: Spanned {
                item: "rec_t".to_string(),
                pos: 0,
            },
        },
    }));
    let name = selected(prefix, 0, "f", 8, 0);
    let mut diagnostics = Vec::new();
    let mut refs = RefTable::new(1);
    match resolve(&ctx, &scope, &name, &mut diagnostics, &mut refs) {
        Ok(ResolvedName::ExternalName { class, type_mark }) => {
            assert_eq!(class, ExternalObjectClass::Variable);
            assert_eq!(type_mark, TypeRef { id: INTEGER });
        }
        other => panic!("unexpected resolution: {:?}", other),
    }
}

#[test]
fn attribute_names_are_rejected_without_analysis() {
    let (ctx, scope) = setup();
    let name = Name::Attribute(Box::new(Spanned {
        item: designator("r", 0),
        pos: 0,
    }));
    let mut diagnostics = Vec::new();
    let mut refs = RefTable::new(1);
    let err = resolve(&ctx, &scope, &name, &mut diagnostics, &mut refs).unwrap_err();
    assert_eq!(err.message, ERR_MSG);
    assert!(diagnostics.is_empty());
}

#[test]
fn named_association_is_no_index() {
    // a call with a formal part cannot be indexing in disguise
    let (ctx, scope) = setup();
    let name = Name::FunctionCall(Box::new(CallOrIndexed {
        name: Spanned {
            item: designator("a", 0),
            pos: 0,
        },
        parameters: vec![AssociationElement {
            formal: Some("x".to_string()),
            actual: Spanned {
                item: Expression::IntLiteral(1),
                pos: 5,
            },
        }],
    }));
    let mut diagnostics = Vec::new();
    let mut refs = RefTable::new(1);
    let err = resolve(&ctx, &scope, &name, &mut diagnostics, &mut refs).unwrap_err();
    assert_eq!(err.message, ERR_MSG);
    assert!(diagnostics.is_empty());
}

#[test]
fn index_arity_is_checked() {
    let (ctx, scope) = setup();
    let name = Name::Indexed(
        Box::new(Spanned {
            item: designator("a", 0),
            pos: 0,
        }),
        vec![
            Spanned {
                item: Expression::IntLiteral(1),
                pos: 2,
            },
            Spanned {
                item: Expression::IntLiteral(2),
                pos: 5,
            },
        ],
    );
    let mut diagnostics = Vec::new();
    let mut refs = RefTable::new(1);
    let err = resolve(&ctx, &scope, &name, &mut diagnostics, &mut refs).unwrap_err();
    assert_eq!(err.message, "Wrong number of index expressions");
    assert!(diagnostics.is_empty());
}

#[test]
fn indexing_a_scalar_object_fails() {
    let (ctx, scope) = setup();
    let name = Name::Indexed(
        Box::new(Spanned {
            item: designator("r", 0),
            pos: 0,
        }),
        vec![Spanned {
            item: Expression::IntLiteral(1),
            pos: 2,
        }],
    );
    let mut diagnostics = Vec::new();
    let mut refs = RefTable::new(1);
    let err = resolve(&ctx, &scope, &name, &mut diagnostics, &mut refs).unwrap_err();
    assert_eq!(err.message, "Cannot index a name that is not of an array type");
    assert!(diagnostics.is_empty());
}

#[test]
fn slicing_a_scalar_object_emits_a_diagnostic() {
    let (ctx, scope) = setup();
    let name = Name::Slice(
        Box::new(Spanned {
            item: designator("r", 0),
            pos: 0,
        }),
        Box::new(RangeExpr {
            pos: 2,
            left: Spanned {
                item: Expression::IntLiteral(0),
                pos: 2,
            },
            right: Spanned {
                item: Expression::IntLiteral(1),
                pos: 7,
            },
        }),
    );
    let mut diagnostics = Vec::new();
    let mut refs = RefTable::new(1);
    let res = resolve(&ctx, &scope, &name, &mut diagnostics, &mut refs);
    // the slice-analysis diagnostic lands in the sink; the result is the
    // prefix's resolution, unmodified
    assert!(res.is_ok());
    assert_eq!(diagnostics.len(), 1);
    assert_eq!(
        diagnostics[0].message,
        "Cannot slice a name that is not of an array type"
    );
}

#[test]
fn selected_all_passes_through() {
    let (ctx, scope) = setup();
    let name = Name::SelectedAll(Box::new(Spanned {
        item: designator("r", 0),
        pos: 0,
    }));
    let mut diagnostics = Vec::new();
    let mut refs = RefTable::new(1);
    match resolve(&ctx, &scope, &name, &mut diagnostics, &mut refs) {
        Ok(ResolvedName::ObjectSelection {
            base_object,
            type_mark,
        }) => {
            assert_eq!(base_object.id, R_OBJ);
            assert_eq!(type_mark.id, REC_T);
        }
        other => panic!("unexpected resolution: {:?}", other),
    }
}

#[test]
fn undeclared_external_subtype_fails() {
    let (ctx, scope) = setup();
    let name = Name::External(Box::new(ExternalNameExpr {
        class: ExternalObjectClass::Constant,
        subtype: SubtypeIndication {
            type_mark: Spanned {
                item: "no_such_type".to_string(),
                pos: 3,
            },
        },
    }));
    let mut diagnostics = Vec::new();
    let mut refs = RefTable::new(0);
    let err = resolve(&ctx, &scope, &name, &mut diagnostics, &mut refs).unwrap_err();
    assert_eq!(err.pos, 3);
    assert_eq!(err.message, "Undeclared designator");
}

#[test]
fn external_subtype_must_denote_a_type() {
    let (ctx, scope) = setup();
    let name = Name::External(Box::new(ExternalNameExpr {
        class: ExternalObjectClass::Constant,
        subtype: SubtypeIndication {
            type_mark: Spanned {
                item: "r".to_string(),
                pos: 3,
            },
        },
    }));
    let mut diagnostics = Vec::new();
    let mut refs = RefTable::new(0);
    let err = resolve(&ctx, &scope, &name, &mut diagnostics, &mut refs).unwrap_err();
    assert_eq!(err.message, "Designator does not denote a type");
}

#[test]
fn classification_seeds_the_chain_root() {
    let (ctx, _) = setup();
    match ResolvedName::new(&ctx.arena, R_OBJ) {
        ResolvedName::ObjectSelection {
            base_object,
            type_mark,
        } => {
            assert_eq!(base_object.id, R_OBJ);
            assert_eq!(type_mark.id, REC_T);
        }
        other => panic!("unexpected classification: {:?}", other),
    }
    assert!(matches!(
        ResolvedName::new(&ctx.arena, T_PLAIN),
        ResolvedName::Type(_)
    ));
}

#[test]
fn suffix_transition_narrows_the_type() {
    let (ctx, _) = setup();
    let state = ResolvedName::new(&ctx.arena, R_OBJ);
    match state.with_suffix(&ctx.arena, F_ELEM) {
        Ok(ResolvedName::ObjectSelection {
            base_object,
            type_mark,
        }) => {
            assert_eq!(base_object.id, R_OBJ);
            assert_eq!(type_mark.id, INTEGER);
        }
        other => panic!("unexpected transition: {:?}", other),
    }

    let state = ResolvedName::new(&ctx.arena, T_PLAIN);
    let err = state.with_suffix(&ctx.arena, F_ELEM).unwrap_err();
    assert_eq!(err, "Type may not be the prefix of a selected name");
}
