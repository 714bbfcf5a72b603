//! The linked actor component injection strategy: attaches a component
//! class to an actor blueprint by appending three cooperating exports — the
//! component instance, its generated variable, and a construction-script
//! node — wired to each other, to the actor, and to a fresh import chain
//! for the component's class.

use vstd::prelude::*;
use crate::errors::{IntegratorError, IntegratorErrorV};
use crate::graph::{
    AssetGraph, Export, ExportKind, ExportKindV, ExportV, FName, FNameV, GraphV, ImportV,
    Property, PropertyV, prop_views, lemma_prop_views, valid_ref,
};
use crate::json::{Json, json_views};
use crate::merger::fold_actor_maps;
use crate::mutator::{
    DepKind, children_of, export_with_child_pushed, export_with_dep_pushed, export_with_pushed,
    idxs_of, max_prop_name_number, max_export_name_number, path_valid, push_class_child,
    push_dependency, push_to_export_array, next_disambiguating_number,
};
use crate::paths::{component_parts, parse_component_path};
use crate::resolver::{
    import_at, get_import, first_import_matching, find_import_no_index, scan_corrupt,
    lemma_scan_corrupt_mono,
};
use crate::strutil::{str_eq, dec_str, u64_to_string, concat_str};

verus! {

/// The three baked reference exports the strategy clones per attachment:
/// the generated-variable skeleton, the component-instance skeleton (a
/// property export), and the construction-script-node skeleton. Loaded once
/// from a bundled reference asset, treated as immutable, deep-copied per
/// use.
pub struct ActorTemplates {
    pub gen_variable: Export,
    pub component: Export,
    pub scs_node: Export,
}

/// Mathematical shape of the three templates.
pub struct ActorTemplatesV {
    pub gen_variable: ExportV,
    pub component: ExportV,
    pub scs_node: ExportV,
}

impl DeepView for ActorTemplates {
    type V = ActorTemplatesV;

    open spec fn deep_view(&self) -> ActorTemplatesV {
        ActorTemplatesV {
            gen_variable: self.gen_variable.deep_view(),
            component: self.component.deep_view(),
            scs_node: self.scs_node.deep_view(),
        }
    }
}

impl ActorTemplatesV {
    /// The shapes the strategy relies on: the component skeleton is a
    /// property export, the other two are plain instances.
    pub open spec fn wf(self) -> bool {
        &&& self.gen_variable.kind is Normal
        &&& self.component.kind is Property
        &&& self.scs_node.kind is Normal
    }
}

impl ActorTemplates {
    /// Accepts the three reference exports when they have the shapes the
    /// strategy needs.
    pub fn new(gen_variable: Export, component: Export, scs_node: Export) -> (r: Option<
        ActorTemplates,
    >)
        ensures
            match r {
                Some(t) => t.deep_view() == (ActorTemplatesV {
                    gen_variable: gen_variable.deep_view(),
                    component: component.deep_view(),
                    scs_node: scs_node.deep_view(),
                }) && t.deep_view().wf(),
                None => !(ActorTemplatesV {
                    gen_variable: gen_variable.deep_view(),
                    component: component.deep_view(),
                    scs_node: scs_node.deep_view(),
                }).wf(),
            },
    {
        let gv_ok = match &gen_variable.kind {
            ExportKind::Normal => true,
            _ => false,
        };
        let c_ok = match &component.kind {
            ExportKind::Property { .. } => true,
            _ => false,
        };
        let n_ok = match &scs_node.kind {
            ExportKind::Normal => true,
            _ => false,
        };
        if gv_ok && c_ok && n_ok {
            Some(ActorTemplates { gen_variable, component, scs_node })
        } else {
            None
        }
    }
}

/// The last export (a plain instance or class definition) whose declared
/// class is an import resolving to the object name `cls`.
pub open spec fn last_export_with_class(g: GraphV, cls: Seq<char>, upto: int) -> Option<int>
    decreases upto,
{
    if upto <= 0 {
        None
    } else {
        let e = g.exports[upto - 1];
        if e.has_properties() && e.class_index < 0 && (match import_at(g, e.class_index) {
            Some(im) => im.object_name.text == cls,
            None => false,
        }) {
            Some(upto - 1)
        } else {
            last_export_with_class(g, cls, upto - 1)
        }
    }
}

/// The last export flagged as a class-default object.
pub open spec fn last_cdo(g: GraphV, upto: int) -> Option<int>
    decreases upto,
{
    if upto <= 0 {
        None
    } else {
        let e = g.exports[upto - 1];
        if e.has_properties() && e.is_cdo() {
            Some(upto - 1)
        } else {
            last_cdo(g, upto - 1)
        }
    }
}

/// The index of the first import matching a well-known probe.
pub open spec fn wk_import(g: GraphV, cp: Seq<char>, cn: Seq<char>, on: Seq<char>) -> Option<int> {
    match first_import_matching(g, cp, cn, on, 0) {
        Some(p) => Some(-p - 1),
        None => None,
    }
}

/// An array property collecting construction-script nodes.
pub open spec fn is_node_list(p: PropertyV) -> bool {
    p is Array && (p.name().text == "AllNodes"@ || p.name().text == "RootNodes"@)
}

/// The node registered on every node-list array of the construction-script
/// export: each matching array gets one object reference whose name is the
/// array's next free element number, carrying the fixed sentinel
/// disambiguator its existing entries carry.
pub open spec fn fold_node_lists(g: GraphV, scs_i: int, e3: int, n: int, j: int) -> GraphV
    decreases n - j,
{
    if j < 0 || j >= n {
        g
    } else {
        let props = g.exports[scs_i].properties;
        if 0 <= scs_i < g.exports.len() && j < props.len() && is_node_list(props[j]) {
            let ch = children_of(props[j]);
            let maxn = max_prop_name_number(ch, ch.len() as int);
            let newprop = PropertyV::Object {
                name: FNameV { text: dec_str((maxn + 1) as nat), number: -0x8000_0000 },
                value: e3,
                has_guid: false,
            };
            let g2 = GraphV {
                imports: g.imports,
                exports: g.exports.update(
                    scs_i,
                    export_with_pushed(g.exports[scs_i], seq![j], newprop),
                ),
            };
            fold_node_lists(g2, scs_i, e3, n, j + 1)
        } else {
            fold_node_lists(g, scs_i, e3, n, j + 1)
        }
    }
}

/// A node-list array on the construction-script export whose element
/// numbers are exhausted.
pub open spec fn node_list_overflow(g: GraphV, scs_i: int) -> bool {
    exists|j: int|
        0 <= j < g.exports[scs_i].properties.len() && is_node_list(
            #[trigger] g.exports[scs_i].properties[j],
        ) && max_prop_name_number(
            children_of(g.exports[scs_i].properties[j]),
            children_of(g.exports[scs_i].properties[j]).len() as int,
        ) == 0x7fff_ffff
}

/// What stops one component attachment before it changes anything, checked
/// in the order the steps would need each fact.
pub open spec fn component_error(g: GraphV, tpl: ActorTemplatesV, raw: Seq<char>) -> Option<
    IntegratorErrorV,
> {
    let n = g.exports.len() as int;
    if scan_corrupt(g, n) {
        Some(IntegratorErrorV::CorruptBaseAsset { detail: "Import not found"@ })
    } else if last_export_with_class(g, "BlueprintGeneratedClass"@, n) is None {
        Some(IntegratorErrorV::TargetNotFound { name: "Actor not found"@ })
    } else if last_export_with_class(g, "SimpleConstructionScript"@, n) is None {
        Some(IntegratorErrorV::TargetNotFound { name: "SCS not found"@ })
    } else if last_cdo(g, n) is None {
        Some(IntegratorErrorV::TargetNotFound { name: "CDO not found"@ })
    } else if wk_import(g, "/Script/CoreUObject"@, "Class"@, "ObjectProperty"@) is None {
        Some(
            IntegratorErrorV::CorruptBaseAsset { detail: "No class object property import"@ },
        )
    } else if wk_import(g, "/Script/CoreUObject"@, "ObjectProperty"@, "Default__ObjectProperty"@)
        is None {
        Some(IntegratorErrorV::CorruptBaseAsset { detail: "No default objectproperty"@ })
    } else if wk_import(g, "/Script/CoreUObject"@, "Class"@, "SCS_Node"@) is None {
        Some(IntegratorErrorV::CorruptBaseAsset { detail: "No SCS_Node"@ })
    } else if wk_import(g, "/Script/Engine"@, "SCS_Node"@, "Default__SCS_Node"@) is None {
        Some(IntegratorErrorV::CorruptBaseAsset { detail: "No default scs"@ })
    } else if component_parts(raw) is None {
        Some(
            IntegratorErrorV::MalformedPatch {
                handler: "linked_actor_components"@,
                detail: "Invalid persistent actors"@,
            },
        )
    } else if !(g.exports[last_export_with_class(g, "BlueprintGeneratedClass"@, n)->Some_0].kind
        is Class) {
        Some(IntegratorErrorV::CorruptBaseAsset { detail: "Corrupted memory"@ })
    } else if max_export_name_number(g.exports, "SCS_Node"@, n) == 0x7fff_ffff {
        Some(IntegratorErrorV::CorruptBaseAsset { detail: "Name number overflow"@ })
    } else if node_list_overflow(g, last_export_with_class(g, "SimpleConstructionScript"@, n)->Some_0) {
        Some(IntegratorErrorV::CorruptBaseAsset { detail: "Name number overflow"@ })
    } else {
        None
    }
}

/// The graph after one component attachment, given the freshly drawn
/// 128-bit identifier for the node's variable. Three imports are interned
/// (the component's package, its generated class, its default object), the
/// three skeletons are specialized and appended, and the actor, the
/// class-default object and the construction script are rewired to
/// initialize them in order. Meaningful only when [`component_error`] is
/// absent.
pub open spec fn component_result(
    g: GraphV,
    tpl: ActorTemplatesV,
    raw: Seq<char>,
    guid: Seq<u8>,
) -> GraphV {
    let n = g.exports.len() as int;
    let scs_i = last_export_with_class(g, "SimpleConstructionScript"@, n)->Some_0;
    let staged = component_staged(g, tpl, raw, guid);
    fold_node_lists(staged, scs_i, n + 3, staged.exports[scs_i].properties.len() as int, 0)
}

/// The graph after the imports, the three new exports and the dependency
/// rewiring, before the node lists are folded.
pub open spec fn component_staged(
    g: GraphV,
    tpl: ActorTemplatesV,
    raw: Seq<char>,
    guid: Seq<u8>,
) -> GraphV {
    let n = g.exports.len() as int;
    let actor_i = last_export_with_class(g, "BlueprintGeneratedClass"@, n)->Some_0;
    let scs_i = last_export_with_class(g, "SimpleConstructionScript"@, n)->Some_0;
    let cdo_i = last_cdo(g, n)->Some_0;
    let cop = wk_import(g, "/Script/CoreUObject"@, "Class"@, "ObjectProperty"@)->Some_0;
    let dop = wk_import(
        g,
        "/Script/CoreUObject"@,
        "ObjectProperty"@,
        "Default__ObjectProperty"@,
    )->Some_0;
    let scs_node_imp = wk_import(g, "/Script/CoreUObject"@, "Class"@, "SCS_Node"@)->Some_0;
    let default_scs_imp = wk_import(g, "/Script/Engine"@, "SCS_Node"@, "Default__SCS_Node"@)->Some_0;
    let parts = component_parts(raw)->Some_0;
    let pkg = parts.0;
    let comp = parts.1;
    let comp_c = comp + "_C"@;
    let default_comp = "Default__"@ + comp + "_C"@;
    let b = g.imports.len() as int;
    let i_pkg = -(b + 1);
    let i_bpgc = -(b + 2);
    let i_def = -(b + 3);
    let imports2 = g.imports + seq![
        ImportV {
            class_package: FNameV { text: "/Script/CoreUObject"@, number: 0 },
            class_name: FNameV { text: "Package"@, number: 0 },
            outer_index: 0,
            object_name: FNameV { text: pkg, number: 0 },
        },
        ImportV {
            class_package: FNameV { text: "/Script/Engine"@, number: 0 },
            class_name: FNameV { text: "BlueprintGeneratedClass"@, number: 0 },
            outer_index: i_pkg,
            object_name: FNameV { text: comp_c, number: 0 },
        },
        ImportV {
            class_package: FNameV { text: "/Game/AddMe"@, number: 0 },
            class_name: FNameV { text: comp_c, number: 0 },
            outer_index: i_pkg,
            object_name: FNameV { text: default_comp, number: 0 },
        },
    ];
    let actor_ref = actor_i + 1;
    let scs_ref = scs_i + 1;
    let e1 = n + 1;
    let e2 = n + 2;
    let e3 = n + 3;
    let comp_export = ExportV {
        object_name: FNameV { text: comp, number: 0 },
        class_index: cop,
        outer_index: actor_ref,
        template_index: dop,
        create_before_serialization: seq![i_bpgc],
        create_before_create: seq![actor_ref],
        kind: ExportKindV::Property { property_class: i_bpgc },
        ..tpl.component
    };
    let gen_export = ExportV {
        object_name: FNameV { text: comp + "_GEN_VARIABLE"@, number: 0 },
        class_index: i_bpgc,
        outer_index: actor_ref,
        template_index: i_def,
        serialization_before_serialization: seq![actor_ref],
        serialization_before_create: seq![i_bpgc, i_def],
        create_before_create: seq![actor_ref],
        properties: seq![
            PropertyV::Bool { name: FNameV { text: "bAutoActivate"@, number: 0 }, value: true },
        ],
        ..tpl.gen_variable
    };
    let nodenum = max_export_name_number(g.exports, "SCS_Node"@, n) + 1;
    let node_export = ExportV {
        object_name: FNameV { text: "SCS_Node"@, number: nodenum },
        class_index: scs_node_imp,
        outer_index: scs_ref,
        template_index: default_scs_imp,
        create_before_serialization: seq![i_bpgc, e2],
        serialization_before_create: seq![scs_node_imp, default_scs_imp],
        create_before_create: seq![scs_ref],
        properties: seq![
            PropertyV::Object {
                name: FNameV { text: "ComponentClass"@, number: 0 },
                value: i_bpgc,
                has_guid: true,
            },
            PropertyV::Object {
                name: FNameV { text: "ComponentTemplate"@, number: 0 },
                value: e2,
                has_guid: true,
            },
            PropertyV::Struct {
                name: FNameV { text: "VariableGuid"@, number: 0 },
                struct_type: Some(FNameV { text: "Guid"@, number: 0 }),
                value: seq![
                    PropertyV::Guid {
                        name: FNameV { text: "VariableGuid"@, number: 0 },
                        value: guid,
                    },
                ],
            },
            PropertyV::Name {
                name: FNameV { text: "InternalVariableName"@, number: 0 },
                value: FNameV { text: comp, number: 0 },
            },
        ],
        ..tpl.scs_node
    };
    let ga = GraphV { imports: imports2, exports: g.exports.push(comp_export) };
    let gb1 = GraphV {
        imports: ga.imports,
        exports: ga.exports.update(actor_i, export_with_child_pushed(ga.exports[actor_i], e1)),
    };
    let gb = GraphV {
        imports: gb1.imports,
        exports: gb1.exports.update(
            actor_i,
            export_with_dep_pushed(
                gb1.exports[actor_i],
                DepKind::SerializationBeforeSerialization,
                e1,
            ),
        ),
    };
    let gc = GraphV { imports: gb.imports, exports: gb.exports.push(gen_export) };
    let gd = GraphV { imports: gc.imports, exports: gc.exports.push(node_export) };
    let ge1 = GraphV {
        imports: gd.imports,
        exports: gd.exports.update(
            cdo_i,
            export_with_dep_pushed(
                gd.exports[cdo_i],
                DepKind::SerializationBeforeSerialization,
                e3,
            ),
        ),
    };
    let ge = GraphV {
        imports: ge1.imports,
        exports: ge1.exports.update(
            cdo_i,
            export_with_dep_pushed(
                ge1.exports[cdo_i],
                DepKind::SerializationBeforeSerialization,
                e2,
            ),
        ),
    };
    GraphV {
        imports: ge.imports,
        exports: ge.exports.update(
            scs_i,
            export_with_dep_pushed(ge.exports[scs_i], DepKind::CreateBeforeSerialization, e3),
        ),
    }
}

/// Every component of one target applied in order, each with its own drawn
/// identifier: the fold stops at the first failing component, leaving the
/// graph as the previous components made it.
pub open spec fn apply_components(
    g: GraphV,
    tpl: ActorTemplatesV,
    comps: Seq<Seq<char>>,
    guids: Seq<Seq<u8>>,
    c: int,
) -> (GraphV, Option<IntegratorErrorV>)
    decreases comps.len() - c,
{
    if c < 0 || c >= comps.len() {
        (g, None)
    } else {
        match component_error(g, tpl, comps[c]) {
            Some(e) => (g, Some(e)),
            None => apply_components(
                component_result(g, tpl, comps[c], guids[c]),
                tpl,
                comps,
                guids,
                c + 1,
            ),
        }
    }
}


proof fn lemma_last_export_with_class_props(g: GraphV, cls: Seq<char>, upto: int)
    requires
        upto <= g.exports.len(),
    ensures
        match last_export_with_class(g, cls, upto) {
            Some(i) => 0 <= i < upto && g.exports[i].has_properties(),
            None => true,
        },
    decreases upto,
{
    if upto > 0 {
        lemma_last_export_with_class_props(g, cls, upto - 1);
    }
}

proof fn lemma_last_cdo_props(g: GraphV, upto: int)
    requires
        upto <= g.exports.len(),
    ensures
        match last_cdo(g, upto) {
            Some(i) => 0 <= i < upto,
            None => true,
        },
    decreases upto,
{
    if upto > 0 {
        lemma_last_cdo_props(g, upto - 1);
    }
}

proof fn lemma_not_corrupt_here(g: GraphV, i: int, n: int)
    requires
        0 <= i < n,
        n == g.exports.len(),
        !scan_corrupt(g, n),
        g.exports[i].has_properties(),
        g.exports[i].class_index < 0,
    ensures
        import_at(g, g.exports[i].class_index) is Some,
{
    if import_at(g, g.exports[i].class_index) is None {
        assert(scan_corrupt(g, i + 1));
        lemma_scan_corrupt_mono(g, i + 1, n);
    }
}

/// One scan finding the actor, the construction script and the
/// class-default object, in that priority of absence reports.
fn scan_anchors(g: &AssetGraph) -> (r: Result<(usize, usize, usize), IntegratorError>)
    ensures
        ({
            let gv = g.deep_view();
            let n = gv.exports.len() as int;
            match r {
                Ok(t) => {
                    &&& !scan_corrupt(gv, n)
                    &&& last_export_with_class(gv, "BlueprintGeneratedClass"@, n) == Some(
                        t.0 as int,
                    ) && t.0 < gv.exports.len()
                    &&& last_export_with_class(gv, "SimpleConstructionScript"@, n) == Some(
                        t.1 as int,
                    ) && t.1 < gv.exports.len()
                    &&& last_cdo(gv, n) == Some(t.2 as int) && t.2 < gv.exports.len()
                },
                Err(e) => {
                    ||| (scan_corrupt(gv, n) && e.deep_view() == (
                    IntegratorErrorV::CorruptBaseAsset { detail: "Import not found"@ }))
                    ||| (!scan_corrupt(gv, n) && last_export_with_class(
                        gv,
                        "BlueprintGeneratedClass"@,
                        n,
                    ) is None && e.deep_view() == (IntegratorErrorV::TargetNotFound {
                        name: "Actor not found"@,
                    }))
                    ||| (!scan_corrupt(gv, n) && last_export_with_class(
                        gv,
                        "BlueprintGeneratedClass"@,
                        n,
                    ) is Some && last_export_with_class(gv, "SimpleConstructionScript"@, n)
                        is None && e.deep_view() == (IntegratorErrorV::TargetNotFound {
                        name: "SCS not found"@,
                    }))
                    ||| (!scan_corrupt(gv, n) && last_export_with_class(
                        gv,
                        "BlueprintGeneratedClass"@,
                        n,
                    ) is Some && last_export_with_class(gv, "SimpleConstructionScript"@, n)
                        is Some && last_cdo(gv, n) is None && e.deep_view() == (
                    IntegratorErrorV::TargetNotFound { name: "CDO not found"@ }))
                },
            }
        }),
{
    let ghost gv = g.deep_view();
    let n = g.exports.len();
    let mut i: usize = 0;
    let mut actor: Option<usize> = None;
    let mut scs: Option<usize> = None;
    let mut cdo: Option<usize> = None;
    while i < n
        invariant
            i <= n,
            n == g.exports@.len(),
            gv == g.deep_view(),
            gv.exports.len() == n,
            !scan_corrupt(gv, i as int),
            match actor {
                Some(a) => last_export_with_class(gv, "BlueprintGeneratedClass"@, i as int)
                    == Some(a as int) && a < n,
                None => last_export_with_class(gv, "BlueprintGeneratedClass"@, i as int) is None,
            },
            match scs {
                Some(a) => last_export_with_class(gv, "SimpleConstructionScript"@, i as int)
                    == Some(a as int) && a < n,
                None => last_export_with_class(gv, "SimpleConstructionScript"@, i as int) is None,
            },
            match cdo {
                Some(a) => last_cdo(gv, i as int) == Some(a as int) && a < n,
                None => last_cdo(gv, i as int) is None,
            },
        decreases n - i,
    {
        proof {
            assert(gv.exports[i as int] == g.exports@[i as int].deep_view());
        }
        let e = &g.exports[i];
        let normal_like = match &e.kind {
            ExportKind::Normal => true,
            ExportKind::Class { .. } => true,
            _ => false,
        };
        if normal_like {
            if e.class_index < 0 {
                match get_import(g, e.class_index) {
                    Some(im) => {
                        proof {
                            reveal_strlit("BlueprintGeneratedClass");
                            reveal_strlit("SimpleConstructionScript");
                            assert("BlueprintGeneratedClass"@.len() != "SimpleConstructionScript"@.len());
                        }
                        if str_eq(im.object_name.text.as_str(), "BlueprintGeneratedClass") {
                            actor = Some(i);
                        } else if str_eq(
                            im.object_name.text.as_str(),
                            "SimpleConstructionScript",
                        ) {
                            scs = Some(i);
                        }
                    },
                    None => {
                        proof {
                            assert(scan_corrupt(gv, i as int + 1));
                            lemma_scan_corrupt_mono(gv, i as int + 1, n as int);
                        }
                        return Err(
                            IntegratorError::CorruptBaseAsset {
                                detail: "Import not found".to_owned(),
                            },
                        );
                    },
                }
            }
            if e.object_flags & crate::graph::FLAG_CLASS_DEFAULT_OBJECT != 0 {
                cdo = Some(i);
            }
        }
        i = i + 1;
    }
    let actor_i = match actor {
        Some(a) => a,
        None => {
            return Err(IntegratorError::TargetNotFound { name: "Actor not found".to_owned() });
        },
    };
    let scs_i = match scs {
        Some(a) => a,
        None => {
            return Err(IntegratorError::TargetNotFound { name: "SCS not found".to_owned() });
        },
    };
    let cdo_i = match cdo {
        Some(a) => a,
        None => {
            return Err(IntegratorError::TargetNotFound { name: "CDO not found".to_owned() });
        },
    };
    Ok((actor_i, scs_i, cdo_i))
}

/// Attaches one component to the actor blueprint, with the given fresh
/// identifier for the node's variable; agrees with [`component_error`] and
/// [`component_result`].
#[verifier::rlimit(100)]
fn apply_one_component(
    g: &mut AssetGraph,
    tpl: &ActorTemplates,
    raw: &String,
    guid: [u8; 16],
) -> (r: Result<(), IntegratorError>)
    requires
        tpl.deep_view().wf(),
        old(g).imports@.len() + 3 < 0x7fff_ffff,
        old(g).exports@.len() + 3 < 0x7fff_fffe,
    ensures
        ({
            let g0 = old(g).deep_view();
            match r {
                Ok(u) => component_error(g0, tpl.deep_view(), raw@) is None
                    && final(g).deep_view() == component_result(g0, tpl.deep_view(), raw@, guid@)
                    && final(g).deep_view().imports.len() == g0.imports.len() + 3
                    && final(g).deep_view().exports.len() == g0.exports.len() + 3,
                Err(e) => final(g).deep_view() == g0 && component_error(g0, tpl.deep_view(), raw@)
                    == Some(e.deep_view()),
            }
        }),
{
    let ghost g0 = old(g).deep_view();
    let ghost tplv = tpl.deep_view();
    let (actor_i, scs_i, cdo_i) = match scan_anchors(g) {
        Ok(t) => t,
        Err(e) => {
            return Err(e);
        },
    };
    let cop = match find_import_no_index(g, "/Script/CoreUObject", "Class", "ObjectProperty") {
        Some(x) => x,
        None => {
            return Err(
                IntegratorError::CorruptBaseAsset {
                    detail: "No class object property import".to_owned(),
                },
            );
        },
    };
    let dop = match find_import_no_index(
        g,
        "/Script/CoreUObject",
        "ObjectProperty",
        "Default__ObjectProperty",
    ) {
        Some(x) => x,
        None => {
            return Err(
                IntegratorError::CorruptBaseAsset {
                    detail: "No default objectproperty".to_owned(),
                },
            );
        },
    };
    let scs_node_imp = match find_import_no_index(g, "/Script/CoreUObject", "Class", "SCS_Node") {
        Some(x) => x,
        None => {
            return Err(IntegratorError::CorruptBaseAsset { detail: "No SCS_Node".to_owned() });
        },
    };
    let default_scs_imp = match find_import_no_index(
        g,
        "/Script/Engine",
        "SCS_Node",
        "Default__SCS_Node",
    ) {
        Some(x) => x,
        None => {
            return Err(IntegratorError::CorruptBaseAsset { detail: "No default scs".to_owned() });
        },
    };
    let (pkg, comp) = match parse_component_path(raw.as_str()) {
        Some(p) => p,
        None => {
            return Err(
                IntegratorError::MalformedPatch {
                    handler: "linked_actor_components".to_owned(),
                    detail: "Invalid persistent actors".to_owned(),
                },
            );
        },
    };
    let actor_is_class = match &g.exports[actor_i].kind {
        ExportKind::Class { .. } => true,
        _ => false,
    };
    proof {
        assert(g0.exports[actor_i as int] == g.exports@[actor_i as int].deep_view());
    }
    if !actor_is_class {
        return Err(IntegratorError::CorruptBaseAsset { detail: "Corrupted memory".to_owned() });
    }
    let nodenum = match next_disambiguating_number(g, "SCS_Node") {
        Some(x) => x,
        None => {
            return Err(
                IntegratorError::CorruptBaseAsset { detail: "Name number overflow".to_owned() },
            );
        },
    };
    // Check every node-list array has a free element number.
    let ghost scs_props = g0.exports[scs_i as int].properties;
    {
        proof {
            assert(g0.exports[scs_i as int] == g.exports@[scs_i as int].deep_view());
            lemma_prop_views(g.exports@[scs_i as int].properties@);
        }
        let e = &g.exports[scs_i];
        let pn = e.properties.len();
        let mut j: usize = 0;
        while j < pn
            invariant
                j <= pn,
                pn == e.properties@.len(),
                scs_props == prop_views(e.properties@),
                scs_props.len() == pn,
                scs_i < g0.exports.len(),
                scs_props == g0.exports[scs_i as int].properties,
                g0 == old(g).deep_view(),
                tplv == tpl.deep_view(),
                !scan_corrupt(g0, g0.exports.len() as int),
                last_export_with_class(g0, "BlueprintGeneratedClass"@, g0.exports.len() as int)
                    == Some(actor_i as int),
                last_export_with_class(g0, "SimpleConstructionScript"@, g0.exports.len() as int)
                    == Some(scs_i as int),
                last_cdo(g0, g0.exports.len() as int) == Some(cdo_i as int),
                wk_import(g0, "/Script/CoreUObject"@, "Class"@, "ObjectProperty"@) == Some(
                    cop as int,
                ),
                wk_import(
                    g0,
                    "/Script/CoreUObject"@,
                    "ObjectProperty"@,
                    "Default__ObjectProperty"@,
                ) == Some(dop as int),
                wk_import(g0, "/Script/CoreUObject"@, "Class"@, "SCS_Node"@) == Some(
                    scs_node_imp as int,
                ),
                wk_import(g0, "/Script/Engine"@, "SCS_Node"@, "Default__SCS_Node"@) == Some(
                    default_scs_imp as int,
                ),
                component_parts(raw@) == Some((pkg@, comp@)),
                g0.exports[actor_i as int].kind is Class,
                max_export_name_number(g0.exports, "SCS_Node"@, g0.exports.len() as int)
                    < 0x7fff_ffff,
                forall|w: int| 0 <= w < pn ==> scs_props[w]
                    == #[trigger] e.properties@[w].deep_view(),
                forall|w: int|
                    0 <= w < j && is_node_list(#[trigger] scs_props[w]) ==> max_prop_name_number(
                        children_of(scs_props[w]),
                        children_of(scs_props[w]).len() as int,
                    ) < 0x7fff_ffff,
            decreases pn - j,
        {
            proof {
                assert(scs_props[j as int] == e.properties@[j as int].deep_view());
            }
            let hit = match &e.properties[j] {
                Property::Array { name, .. } => {
                    str_eq(name.text.as_str(), "AllNodes") || str_eq(
                        name.text.as_str(),
                        "RootNodes",
                    )
                },
                _ => false,
            };
            if hit {
                let maxn = match &e.properties[j] {
                    Property::Array { value, .. } => {
                        proof {
                            assert(children_of(scs_props[j as int]) == prop_views(value@));
                            lemma_prop_views(value@);
                        }
                        crate::mutator::max_element_name_number(value)
                    },
                    _ => 0,
                };
                if maxn == 0x7fff_ffff {
                    proof {
                        assert(g0.exports[scs_i as int].properties[j as int] == scs_props[
                            j as int]);
                        assert(is_node_list(g0.exports[scs_i as int].properties[j as int]));
                        let gp = g0.exports[scs_i as int].properties[j as int];
                        assert(max_prop_name_number(children_of(gp), children_of(gp).len() as int)
                            == 0x7fff_ffff);
                        assert(node_list_overflow(g0, scs_i as int));
                    }
                    return Err(
                        IntegratorError::CorruptBaseAsset {
                            detail: "Name number overflow".to_owned(),
                        },
                    );
                }
            } else {
                proof {
                    assert(!is_node_list(scs_props[j as int]));
                }
            }
            j = j + 1;
        }
    }
    proof {
        assert(!node_list_overflow(g0, scs_i as int));
        assert(component_error(g0, tplv, raw@) is None);
        lemma_last_export_with_class_props(g0, "SimpleConstructionScript"@, g0.exports.len() as int);
    }
    // All checks passed: intern the three imports.
    let comp_c = concat_str(comp.as_str(), "_C");
    let default_comp = concat_str("Default__", comp_c.as_str());
    let actor_ref: i32 = (actor_i as i32) + 1;
    let scs_ref: i32 = (scs_i as i32) + 1;
    let i_pkg = g.add_import(
        crate::graph::Import {
            class_package: FName::new("/Script/CoreUObject"),
            class_name: FName::new("Package"),
            outer_index: 0,
            object_name: FName::new(pkg.as_str()),
        },
    );
    let i_bpgc = g.add_import(
        crate::graph::Import {
            class_package: FName::new("/Script/Engine"),
            class_name: FName::new("BlueprintGeneratedClass"),
            outer_index: i_pkg,
            object_name: FName::new(comp_c.as_str()),
        },
    );
    let i_def = g.add_import(
        crate::graph::Import {
            class_package: FName::new("/Game/AddMe"),
            class_name: FName::new(comp_c.as_str()),
            outer_index: i_pkg,
            object_name: FName::new(default_comp.as_str()),
        },
    );
    proof {
        assert(("Default__"@ + (comp@ + "_C"@)) =~= ("Default__"@ + comp@ + "_C"@));
        assert(comp_c@ == comp@ + "_C"@);
        assert(default_comp@ == "Default__"@ + comp@ + "_C"@);
        let b = g0.imports.len() as int;
        let expected_imports = g0.imports + seq![
            ImportV {
                class_package: FNameV { text: "/Script/CoreUObject"@, number: 0 },
                class_name: FNameV { text: "Package"@, number: 0 },
                outer_index: 0,
                object_name: FNameV { text: pkg@, number: 0 },
            },
            ImportV {
                class_package: FNameV { text: "/Script/Engine"@, number: 0 },
                class_name: FNameV { text: "BlueprintGeneratedClass"@, number: 0 },
                outer_index: -(b + 1),
                object_name: FNameV { text: comp@ + "_C"@, number: 0 },
            },
            ImportV {
                class_package: FNameV { text: "/Game/AddMe"@, number: 0 },
                class_name: FNameV { text: comp@ + "_C"@, number: 0 },
                outer_index: -(b + 1),
                object_name: FNameV { text: "Default__"@ + comp@ + "_C"@, number: 0 },
            },
        ];
        assert(component_parts(raw@) == Some((pkg@, comp@)));
        assert(component_parts(raw@)->Some_0.0 == pkg@);
        assert(component_parts(raw@)->Some_0.1 == comp@);
        assert(g.deep_view().imports =~~= expected_imports);
        assert(g.exports@.len() == old(g).exports@.len());
        assert(g.deep_view().exports == g0.exports);
    }
    // The component instance export.
    let mut e1x = tpl.component.duplicate();
    e1x.object_name = FName::new(comp.as_str());
    e1x.class_index = cop;
    e1x.outer_index = actor_ref;
    e1x.template_index = dop;
    let mut cbs1: Vec<i32> = Vec::new();
    cbs1.push(i_bpgc);
    e1x.create_before_serialization = cbs1;
    let mut cbc1: Vec<i32> = Vec::new();
    cbc1.push(actor_ref);
    e1x.create_before_create = cbc1;
    e1x.kind = ExportKind::Property { property_class: i_bpgc };
    let ghost comp_export_v = e1x.deep_view();
    proof {
        assert(crate::graph::ints_of(e1x.create_before_serialization@) =~= seq![i_bpgc as int]);
        assert(crate::graph::ints_of(e1x.create_before_create@) =~= seq![actor_ref as int]);
    }
    let e1 = g.add_export(e1x);
    // Register it on the actor.
    proof {
        assert(g.exports@.len() == g.deep_view().exports.len());
    }
    push_class_child(g, actor_i, e1);
    proof {
        assert(g.exports@.len() == g.deep_view().exports.len());
    }
    push_dependency(g, actor_i, DepKind::SerializationBeforeSerialization, e1);
    proof {
        assert(g.exports@.len() == g.deep_view().exports.len());
    }
    // The generated variable export.
    let mut e2x = tpl.gen_variable.duplicate();
    e2x.object_name = FName::new(concat_str(comp.as_str(), "_GEN_VARIABLE").as_str());
    e2x.class_index = i_bpgc;
    e2x.outer_index = actor_ref;
    e2x.template_index = i_def;
    let mut ss2: Vec<i32> = Vec::new();
    ss2.push(actor_ref);
    e2x.serialization_before_serialization = ss2;
    let mut sc2: Vec<i32> = Vec::new();
    sc2.push(i_bpgc);
    sc2.push(i_def);
    e2x.serialization_before_create = sc2;
    let mut cc2: Vec<i32> = Vec::new();
    cc2.push(actor_ref);
    e2x.create_before_create = cc2;
    let mut props2: Vec<Property> = Vec::new();
    props2.push(Property::Bool { name: FName::new("bAutoActivate"), value: true });
    e2x.properties = props2;
    let ghost gen_export_v = e2x.deep_view();
    proof {
        assert(crate::graph::ints_of(e2x.serialization_before_serialization@) =~= seq![
            actor_ref as int,
        ]);
        assert(crate::graph::ints_of(e2x.serialization_before_create@) =~= seq![
            i_bpgc as int,
            i_def as int,
        ]);
        assert(crate::graph::ints_of(e2x.create_before_create@) =~= seq![actor_ref as int]);
        lemma_prop_views(e2x.properties@);
        assert(prop_views(e2x.properties@)[0] == e2x.properties@[0].deep_view());
        assert(prop_views(e2x.properties@) =~= seq![
            PropertyV::Bool { name: FNameV { text: "bAutoActivate"@, number: 0 }, value: true },
        ]);
    }
    let e2 = g.add_export(e2x);
    // The construction script node export.
    let mut e3x = tpl.scs_node.duplicate();
    e3x.object_name = FName::with_number("SCS_Node", nodenum);
    e3x.class_index = scs_node_imp;
    e3x.outer_index = scs_ref;
    e3x.template_index = default_scs_imp;
    let mut cbs3: Vec<i32> = Vec::new();
    cbs3.push(i_bpgc);
    cbs3.push(e2);
    e3x.create_before_serialization = cbs3;
    let mut sc3: Vec<i32> = Vec::new();
    sc3.push(scs_node_imp);
    sc3.push(default_scs_imp);
    e3x.serialization_before_create = sc3;
    let mut cc3: Vec<i32> = Vec::new();
    cc3.push(scs_ref);
    e3x.create_before_create = cc3;
    let mut guid_inner: Vec<Property> = Vec::new();
    guid_inner.push(Property::Guid { name: FName::new("VariableGuid"), value: guid });
    let ghost guid_inner_snapshot = guid_inner@;
    let mut props3: Vec<Property> = Vec::new();
    props3.push(
        Property::Object { name: FName::new("ComponentClass"), value: i_bpgc, has_guid: true },
    );
    props3.push(
        Property::Object { name: FName::new("ComponentTemplate"), value: e2, has_guid: true },
    );
    props3.push(
        Property::Struct {
            name: FName::new("VariableGuid"),
            struct_type: Some(FName::new("Guid")),
            value: guid_inner,
        },
    );
    props3.push(
        Property::Name {
            name: FName::new("InternalVariableName"),
            value: FName::new(comp.as_str()),
        },
    );
    e3x.properties = props3;
    let ghost node_export_v = e3x.deep_view();
    proof {
        assert(crate::graph::ints_of(e3x.create_before_serialization@) =~= seq![
            i_bpgc as int,
            e2 as int,
        ]);
        assert(crate::graph::ints_of(e3x.serialization_before_create@) =~= seq![
            scs_node_imp as int,
            default_scs_imp as int,
        ]);
        assert(crate::graph::ints_of(e3x.create_before_create@) =~= seq![scs_ref as int]);
        lemma_prop_views(e3x.properties@);
        assert(prop_views(e3x.properties@)[0] == e3x.properties@[0].deep_view());
        assert(prop_views(e3x.properties@)[1] == e3x.properties@[1].deep_view());
        assert(prop_views(e3x.properties@)[2] == e3x.properties@[2].deep_view());
        assert(prop_views(e3x.properties@)[3] == e3x.properties@[3].deep_view());
        lemma_prop_views(guid_inner_snapshot);
        assert(prop_views(guid_inner_snapshot)[0] == guid_inner_snapshot[0].deep_view());
        assert(guid.deep_view() =~= guid@);
        assert(prop_views(guid_inner_snapshot) =~~= seq![
            PropertyV::Guid { name: FNameV { text: "VariableGuid"@, number: 0 }, value: guid@ },
        ]);
        assert(prop_views(e3x.properties@) =~~= seq![
            PropertyV::Object {
                name: FNameV { text: "ComponentClass"@, number: 0 },
                value: i_bpgc as int,
                has_guid: true,
            },
            PropertyV::Object {
                name: FNameV { text: "ComponentTemplate"@, number: 0 },
                value: e2 as int,
                has_guid: true,
            },
            PropertyV::Struct {
                name: FNameV { text: "VariableGuid"@, number: 0 },
                struct_type: Some(FNameV { text: "Guid"@, number: 0 }),
                value: seq![
                    PropertyV::Guid {
                        name: FNameV { text: "VariableGuid"@, number: 0 },
                        value: guid@,
                    },
                ],
            },
            PropertyV::Name {
                name: FNameV { text: "InternalVariableName"@, number: 0 },
                value: FNameV { text: comp@, number: 0 },
            },
        ]);
    }
    let e3 = g.add_export(e3x);
    // Rewire the class-default object and the construction script.
    proof {
        assert(g.exports@.len() == g.deep_view().exports.len());
    }
    push_dependency(g, cdo_i, DepKind::SerializationBeforeSerialization, e3);
    proof {
        assert(g.exports@.len() == g.deep_view().exports.len());
    }
    push_dependency(g, cdo_i, DepKind::SerializationBeforeSerialization, e2);
    proof {
        assert(g.exports@.len() == g.deep_view().exports.len());
    }
    push_dependency(g, scs_i, DepKind::CreateBeforeSerialization, e3);
    let ghost gf = g.deep_view();
    proof {
        assert(comp_export_v == ExportV {
            object_name: FNameV { text: comp@, number: 0 },
            class_index: cop as int,
            outer_index: actor_ref as int,
            template_index: dop as int,
            create_before_serialization: seq![i_bpgc as int],
            create_before_create: seq![actor_ref as int],
            kind: ExportKindV::Property { property_class: i_bpgc as int },
            ..tplv.component
        });
        assert(gen_export_v == ExportV {
            object_name: FNameV { text: comp@ + "_GEN_VARIABLE"@, number: 0 },
            class_index: i_bpgc as int,
            outer_index: actor_ref as int,
            template_index: i_def as int,
            serialization_before_serialization: seq![actor_ref as int],
            serialization_before_create: seq![i_bpgc as int, i_def as int],
            create_before_create: seq![actor_ref as int],
            properties: seq![
                PropertyV::Bool {
                    name: FNameV { text: "bAutoActivate"@, number: 0 },
                    value: true,
                },
            ],
            ..tplv.gen_variable
        });
        assert(node_export_v == ExportV {
            object_name: FNameV {
                text: "SCS_Node"@,
                number: max_export_name_number(g0.exports, "SCS_Node"@, g0.exports.len() as int)
                    + 1,
            },
            class_index: scs_node_imp as int,
            outer_index: scs_ref as int,
            template_index: default_scs_imp as int,
            create_before_serialization: seq![i_bpgc as int, e2 as int],
            serialization_before_create: seq![scs_node_imp as int, default_scs_imp as int],
            create_before_create: seq![scs_ref as int],
            properties: seq![
                PropertyV::Object {
                    name: FNameV { text: "ComponentClass"@, number: 0 },
                    value: i_bpgc as int,
                    has_guid: true,
                },
                PropertyV::Object {
                    name: FNameV { text: "ComponentTemplate"@, number: 0 },
                    value: e2 as int,
                    has_guid: true,
                },
                PropertyV::Struct {
                    name: FNameV { text: "VariableGuid"@, number: 0 },
                    struct_type: Some(FNameV { text: "Guid"@, number: 0 }),
                    value: seq![
                        PropertyV::Guid {
                            name: FNameV { text: "VariableGuid"@, number: 0 },
                            value: guid@,
                        },
                    ],
                },
                PropertyV::Name {
                    name: FNameV { text: "InternalVariableName"@, number: 0 },
                    value: FNameV { text: comp@, number: 0 },
                },
            ],
            ..tplv.scs_node
        });
        assert(e1 as int == g0.exports.len() + 1);
        assert(e2 as int == g0.exports.len() + 2);
        assert(e3 as int == g0.exports.len() + 3);
        assert(component_result(g0, tplv, raw@, guid@) == fold_node_lists(
            gf,
            scs_i as int,
            e3 as int,
            gf.exports[scs_i as int].properties.len() as int,
            0,
        ));
    }
    // Register the node on every node-list array of the construction
    // script.
    let ghost e3i = e3 as int;
    proof {
        assert(g.exports@.len() == g.deep_view().exports.len());
        assert(g.deep_view().exports.len() == g0.exports.len() + 3);
        assert(g.deep_view().exports[scs_i as int] == g.exports@[scs_i as int].deep_view());
        lemma_prop_views(g.exports@[scs_i as int].properties@);
    }
    let pn = {
        let e = &g.exports[scs_i];
        e.properties.len()
    };
    proof {
        assert(gf.exports[scs_i as int].properties == scs_props);
        assert(pn == g.deep_view().exports[scs_i as int].properties.len());
        assert(!node_list_overflow(g0, scs_i as int));
    }
    let mut j: usize = 0;
    while j < pn
        invariant
            j <= pn,
            scs_i < g.exports@.len(),
            scs_i < g0.exports.len(),
            g.deep_view().exports.len() == gf.exports.len(),
            g.deep_view().imports == gf.imports,
            pn == g.deep_view().exports[scs_i as int].properties.len(),
            pn == scs_props.len(),
            scs_props == g0.exports[scs_i as int].properties,
            e3i == e3 as int,
            !node_list_overflow(g0, scs_i as int),
            forall|w: int|
                j <= w < pn ==> g.deep_view().exports[scs_i as int].properties[w]
                    == #[trigger] scs_props[w],
            fold_node_lists(gf, scs_i as int, e3i, pn as int, 0) == fold_node_lists(
                g.deep_view(),
                scs_i as int,
                e3i,
                pn as int,
                j as int,
            ),
        decreases pn - j,
    {
        let ghost gpre_j = g.deep_view();
        proof {
            assert(g.deep_view().exports[scs_i as int] == g.exports@[scs_i as int].deep_view());
            lemma_prop_views(g.exports@[scs_i as int].properties@);
        }
        let hit = {
            let e = &g.exports[scs_i];
            proof {
                assert(gpre_j.exports[scs_i as int].properties[j as int] == e.properties@[
                    j as int].deep_view());
            }
            match &e.properties[j] {
                Property::Array { name, .. } => {
                    str_eq(name.text.as_str(), "AllNodes") || str_eq(
                        name.text.as_str(),
                        "RootNodes",
                    )
                },
                _ => false,
            }
        };
        if hit {
            let maxn = {
                let e = &g.exports[scs_i];
                match &e.properties[j] {
                    Property::Array { value, .. } => {
                        proof {
                            assert(gpre_j.exports[scs_i as int].properties[j as int]
                                == e.properties@[j as int].deep_view());
                            assert(children_of(
                                gpre_j.exports[scs_i as int].properties[j as int],
                            ) == prop_views(value@));
                            lemma_prop_views(value@);
                        }
                        crate::mutator::max_element_name_number(value)
                    },
                    _ => 0,
                }
            };
            if maxn == 0x7fff_ffff {
                proof {
                    assert(gpre_j.exports[scs_i as int].properties[j as int] == scs_props[
                        j as int]);
                    assert(g0.exports[scs_i as int].properties[j as int] == scs_props[j as int]);
                    assert(is_node_list(g0.exports[scs_i as int].properties[j as int]));
                    assert(children_of(g0.exports[scs_i as int].properties[j as int])
                        == children_of(gpre_j.exports[scs_i as int].properties[j as int]));
                    let gp = g0.exports[scs_i as int].properties[j as int];
                    assert(max_prop_name_number(children_of(gp), children_of(gp).len() as int)
                        == 0x7fff_ffff);
                    assert(node_list_overflow(g0, scs_i as int));
                    assert(false);
                }
                return Err(
                    IntegratorError::CorruptBaseAsset {
                        detail: "Name number overflow".to_owned(),
                    },
                );
            }
            let name_text = u64_to_string((maxn + 1) as u64);
            let newprop = Property::Object {
                name: FName { text: name_text, number: -0x8000_0000 },
                value: e3,
                has_guid: false,
            };
            let mut path_idx: Vec<usize> = Vec::new();
            path_idx.push(j);
            proof {
                assert(idxs_of(path_idx@) =~= seq![j as int]);
                assert(is_node_list(gpre_j.exports[scs_i as int].properties[j as int]));
                assert(path_valid(gpre_j.exports[scs_i as int].properties, seq![j as int]));
            }
            proof {
                let ch = children_of(gpre_j.exports[scs_i as int].properties[j as int]);
                assert(maxn as int == max_prop_name_number(ch, ch.len() as int));
                assert(name_text@ == dec_str(((maxn + 1) as u64) as nat));
                assert(((maxn + 1) as u64) as nat == (max_prop_name_number(ch, ch.len() as int)
                    + 1) as nat);
                assert(newprop.deep_view()->Object_name.text == dec_str(
                    (max_prop_name_number(ch, ch.len() as int) + 1) as nat,
                ));
                assert(newprop.deep_view()->Object_name.number == -0x8000_0000);
                assert(newprop.deep_view()->Object_value == e3i);
                assert(newprop.deep_view()->Object_has_guid == false);
                assert(newprop.deep_view() is Object);
                assert(newprop.deep_view() =~~= PropertyV::Object {
                    name: FNameV {
                        text: dec_str((max_prop_name_number(ch, ch.len() as int) + 1) as nat),
                        number: -0x8000_0000,
                    },
                    value: e3i,
                    has_guid: false,
                });
            }
            push_to_export_array(g, scs_i, &path_idx, newprop);
            proof {
                assert(fold_node_lists(gpre_j, scs_i as int, e3i, pn as int, j as int)
                    == fold_node_lists(g.deep_view(), scs_i as int, e3i, pn as int, j as int + 1));
                assert(g.deep_view().exports[scs_i as int].properties == crate::mutator::props_pushed_at(
                    gpre_j.exports[scs_i as int].properties,
                    seq![j as int],
                    newprop.deep_view(),
                ));
                assert forall|w: int|
                    j as int + 1 <= w < pn implies g.deep_view().exports[scs_i as int].properties[w]
                    == #[trigger] scs_props[w] by {
                    assert(g.deep_view().exports[scs_i as int].properties[w] == gpre_j.exports[
                        scs_i as int].properties[w]);
                }
                assert(g.exports@.len() == g.deep_view().exports.len());
            }
        } else {
            proof {
                assert(!is_node_list(gpre_j.exports[scs_i as int].properties[j as int]));
                assert(fold_node_lists(gpre_j, scs_i as int, e3i, pn as int, j as int)
                    == fold_node_lists(g.deep_view(), scs_i as int, e3i, pn as int, j as int + 1));
            }
        }
        j = j + 1;
    }
    proof {
        assert(fold_node_lists(g.deep_view(), scs_i as int, e3i, pn as int, pn as int)
            == g.deep_view());
        assert(g.deep_view() == component_result(g0, tplv, raw@, guid@));
    }
    Ok(())
}


/// Merges the per-mod objects mapping an actor asset path to its component
/// paths, reporting the strategy's malformed patch error on a payload of
/// the wrong shape.
pub fn merge_linked_actor_components(patches: &Vec<Json>) -> (r: Result<
    Vec<(String, Vec<String>)>,
    IntegratorError,
>)
    ensures
        match r {
            Ok(v) => fold_actor_maps(Seq::empty(), json_views(patches@), 0) == Some(v.deep_view()),
            Err(e) => fold_actor_maps(Seq::empty(), json_views(patches@), 0) is None
                && e.deep_view() == (IntegratorErrorV::MalformedPatch {
                handler: "linked_actor_components"@,
                detail: "Invalid linked_actor_components"@,
            }),
        },
{
    match crate::merger::merge_name_list_maps(patches) {
        Some(v) => Ok(v),
        None => Err(
            IntegratorError::MalformedPatch {
                handler: "linked_actor_components".to_owned(),
                detail: "Invalid linked_actor_components".to_owned(),
            },
        ),
    }
}

/// Attaches every component of one target in order, with the identifiers
/// supplied by the caller; agrees with [`apply_components`], which stops at
/// the first failing component.
pub fn handle_linked_actor_components_with_guids(
    g: &mut AssetGraph,
    tpl: &ActorTemplates,
    components: &Vec<String>,
    guids: &Vec<[u8; 16]>,
) -> (r: Result<(), IntegratorError>)
    requires
        tpl.deep_view().wf(),
        guids@.len() == components@.len(),
        old(g).imports@.len() + 3 * components@.len() < 0x7fff_ffff,
        old(g).exports@.len() + 3 * components@.len() < 0x7fff_fffe,
    ensures
        ({
            let g0 = old(g).deep_view();
            let folded = apply_components(
                g0,
                tpl.deep_view(),
                components.deep_view(),
                guids.deep_view(),
                0,
            );
            final(g).deep_view() == folded.0 && match r {
                Ok(u) => folded.1 is None,
                Err(e) => folded.1 == Some(e.deep_view()),
            }
        }),
{
    let ghost g0 = old(g).deep_view();
    let ghost tplv = tpl.deep_view();
    let ghost cs = components.deep_view();
    let ghost gs = guids.deep_view();
    let n = components.len();
    let mut c: usize = 0;
    while c < n
        invariant
            c <= n,
            n == components@.len(),
            cs == components.deep_view(),
            cs.len() == n,
            guids@.len() == n,
            gs == guids.deep_view(),
            gs.len() == n,
            tplv == tpl.deep_view(),
            tplv.wf(),
            g0 == old(g).deep_view(),
            g0.imports.len() + 3 * n < 0x7fff_ffff,
            g0.exports.len() + 3 * n < 0x7fff_fffe,
            g.deep_view().imports.len() == g0.imports.len() + 3 * c,
            g.deep_view().exports.len() == g0.exports.len() + 3 * c,
            apply_components(g0, tplv, cs, gs, 0) == apply_components(
                g.deep_view(),
                tplv,
                cs,
                gs,
                c as int,
            ),
        decreases n - c,
    {
        let ghost gpre = g.deep_view();
        proof {
            assert(cs[c as int] == components@[c as int]@);
            assert(gs[c as int] =~= guids@[c as int]@);
            assert(g.imports@.len() == g.deep_view().imports.len());
            assert(g.exports@.len() == g.deep_view().exports.len());
        }
        match apply_one_component(g, tpl, &components[c], guids[c]) {
            Ok(u) => {
                proof {
                    assert(component_error(gpre, tplv, cs[c as int]) is None);
                    assert(g.deep_view() == component_result(
                        gpre,
                        tplv,
                        cs[c as int],
                        gs[c as int],
                    ));
                    assert(apply_components(gpre, tplv, cs, gs, c as int) == apply_components(
                        g.deep_view(),
                        tplv,
                        cs,
                        gs,
                        c as int + 1,
                    ));
                }
            },
            Err(e) => {
                proof {
                    assert(component_error(gpre, tplv, cs[c as int]) == Some(e.deep_view()));
                    assert(apply_components(gpre, tplv, cs, gs, c as int) == (
                    gpre,
                    Some(e.deep_view()),
                    ));
                }
                return Err(e);
            },
        }
        c = c + 1;
    }
    proof {
        assert(apply_components(g.deep_view(), tplv, cs, gs, n as int) == (
        g.deep_view(),
        None::<IntegratorErrorV>,
        ));
    }
    Ok(())
}

/// Attaches every component of one target in order, drawing a fresh random
/// identifier per component. Whatever identifiers come back, the result is
/// the fold of the attachments over them.
pub fn handle_linked_actor_components_for_asset(
    g: &mut AssetGraph,
    tpl: &ActorTemplates,
    components: &Vec<String>,
) -> (r: Result<(), IntegratorError>)
    requires
        tpl.deep_view().wf(),
        old(g).imports@.len() + 3 * components@.len() < 0x7fff_ffff,
        old(g).exports@.len() + 3 * components@.len() < 0x7fff_fffe,
    ensures
        ({
            let g0 = old(g).deep_view();
            exists|gs: Seq<Seq<u8>>|
                #![trigger apply_components(g0, tpl.deep_view(), components.deep_view(), gs, 0)]
                gs.len() == components.deep_view().len() && {
                    let folded = apply_components(
                        g0,
                        tpl.deep_view(),
                        components.deep_view(),
                        gs,
                        0,
                    );
                    final(g).deep_view() == folded.0 && match r {
                        Ok(u) => folded.1 is None,
                        Err(e) => folded.1 == Some(e.deep_view()),
                    }
                }
        }),
{
    let n = components.len();
    let mut guids: Vec<[u8; 16]> = Vec::new();
    let mut i: usize = 0;
    while i < n
        invariant
            i <= n,
            guids@.len() == i,
        decreases n - i,
    {
        guids.push(crate::outside::fresh_guid());
        i = i + 1;
    }
    let r = handle_linked_actor_components_with_guids(g, tpl, components, &guids);
    proof {
        assert(guids.deep_view().len() == components.deep_view().len());
    }
    r
}


proof fn lemma_first_import_matching_props(
    g: GraphV,
    cp: Seq<char>,
    cn: Seq<char>,
    on: Seq<char>,
    from: int,
)
    ensures
        match first_import_matching(g, cp, cn, on, from) {
            Some(p) => from <= p < g.imports.len(),
            None => true,
        },
    decreases g.imports.len() - from,
{
    if 0 <= from < g.imports.len() && !crate::resolver::import_matches(g.imports[from], cp, cn, on) {
        lemma_first_import_matching_props(g, cp, cn, on, from + 1);
    }
}

proof fn lemma_fold_node_lists_wf(g: GraphV, scs_i: int, e3: int, n: int, j: int)
    requires
        crate::graph::graph_wf(g),
        crate::graph::live_ref(g, e3),
        0 <= j,
    ensures
        crate::graph::graph_wf(fold_node_lists(g, scs_i, e3, n, j)),
    decreases n - j,
{
    if j < n {
        let props = g.exports[scs_i].properties;
        if 0 <= scs_i < g.exports.len() && j < props.len() && is_node_list(props[j]) {
            let ch = children_of(props[j]);
            let maxn = max_prop_name_number(ch, ch.len() as int);
            let newprop = PropertyV::Object {
                name: FNameV { text: dec_str((maxn + 1) as nat), number: -0x8000_0000 },
                value: e3,
                has_guid: false,
            };
            let e2 = export_with_pushed(g.exports[scs_i], seq![j], newprop);
            let g2 = GraphV { imports: g.imports, exports: g.exports.update(scs_i, e2) };
            assert(crate::graph::graph_extends(g2, g));
            assert(crate::graph::prop_valid(g2, newprop));
            assert forall|x: int| 0 <= x < g2.exports.len() implies crate::graph::export_valid(
                g2,
                #[trigger] g2.exports[x],
            ) by {
                assert(crate::graph::export_valid(g, g.exports[x]));
                crate::graph::lemma_export_valid_mono(g, g2, g.exports[x]);
                if x == scs_i {
                    crate::mutator::lemma_export_with_pushed_valid(
                        g2,
                        g.exports[scs_i],
                        j,
                        newprop,
                    );
                } else {
                    assert(g2.exports[x] == g.exports[x]);
                }
            }
            assert forall|x: int| 0 <= x < g2.imports.len() implies crate::graph::import_valid(
                g2,
                #[trigger] g2.imports[x],
            ) by {
                assert(crate::graph::import_valid(g, g.imports[x]));
            }
            assert(crate::graph::graph_wf(g2));
            assert(crate::graph::live_ref(g2, e3));
            lemma_fold_node_lists_wf(g2, scs_i, e3, n, j + 1);
        } else {
            lemma_fold_node_lists_wf(g, scs_i, e3, n, j + 1);
        }
    }
}

/// Index validity for this strategy: starting from a graph whose indices
/// all resolve, one attachment keeps them resolving, and every index the
/// three new exports and the rewiring store resolves too. The skeletons'
/// fields that the attachment keeps verbatim must themselves resolve in the
/// target graph; the bundled reference exports keep those fields empty, so
/// they satisfy this trivially.
#[verifier::rlimit(100)]
pub proof fn lemma_component_result_wf(
    g: GraphV,
    tpl: ActorTemplatesV,
    raw: Seq<char>,
    guid: Seq<u8>,
)
    requires
        crate::graph::graph_wf(g),
        tpl.wf(),
        component_error(g, tpl, raw) is None,
        crate::graph::valid_refs(g, tpl.component.serialization_before_serialization),
        crate::graph::valid_refs(g, tpl.component.serialization_before_create),
        crate::graph::props_valid(g, tpl.component.properties),
        crate::graph::valid_refs(g, tpl.gen_variable.create_before_serialization),
        crate::graph::valid_refs(g, tpl.scs_node.serialization_before_serialization),
    ensures
        crate::graph::graph_wf(component_result(g, tpl, raw, guid)),
{
    let n = g.exports.len() as int;
    let actor_i = last_export_with_class(g, "BlueprintGeneratedClass"@, n)->Some_0;
    let scs_i = last_export_with_class(g, "SimpleConstructionScript"@, n)->Some_0;
    let cdo_i = last_cdo(g, n)->Some_0;
    lemma_last_export_with_class_props(g, "BlueprintGeneratedClass"@, n);
    lemma_last_export_with_class_props(g, "SimpleConstructionScript"@, n);
    lemma_last_cdo_props(g, n);
    let cop = wk_import(g, "/Script/CoreUObject"@, "Class"@, "ObjectProperty"@)->Some_0;
    let dop = wk_import(
        g,
        "/Script/CoreUObject"@,
        "ObjectProperty"@,
        "Default__ObjectProperty"@,
    )->Some_0;
    let scs_node_imp = wk_import(g, "/Script/CoreUObject"@, "Class"@, "SCS_Node"@)->Some_0;
    let default_scs_imp = wk_import(g, "/Script/Engine"@, "SCS_Node"@, "Default__SCS_Node"@)->Some_0;
    lemma_first_import_matching_props(g, "/Script/CoreUObject"@, "Class"@, "ObjectProperty"@, 0);
    lemma_first_import_matching_props(
        g,
        "/Script/CoreUObject"@,
        "ObjectProperty"@,
        "Default__ObjectProperty"@,
        0,
    );
    lemma_first_import_matching_props(g, "/Script/CoreUObject"@, "Class"@, "SCS_Node"@, 0);
    lemma_first_import_matching_props(g, "/Script/Engine"@, "SCS_Node"@, "Default__SCS_Node"@, 0);
    assert(crate::graph::live_ref(g, cop));
    assert(crate::graph::live_ref(g, dop));
    assert(crate::graph::live_ref(g, scs_node_imp));
    assert(crate::graph::live_ref(g, default_scs_imp));
    let staged = component_staged(g, tpl, raw, guid);
    let b = g.imports.len() as int;
    // Stage 1: the three imports all resolve.
    let ga_imports = staged.imports;
    assert(ga_imports.len() == b + 3);
    // Walk the staged exports: every stage preserves validity.
    let actor_ref = actor_i + 1;
    let scs_ref = scs_i + 1;
    let e1 = n + 1;
    let e2 = n + 2;
    let e3 = n + 3;
    assert(staged.exports.len() == n + 3);
    assert forall|x: int| 0 <= x < staged.imports.len() implies crate::graph::import_valid(
        staged,
        #[trigger] staged.imports[x],
    ) by {
        if x < b {
            assert(staged.imports[x] == g.imports[x]);
            assert(crate::graph::import_valid(g, g.imports[x]));
        } else {
            assert(staged.imports[x].outer_index == 0 || staged.imports[x].outer_index == -(b
                + 1));
        }
    }
    assert forall|x: int| 0 <= x < staged.exports.len() implies crate::graph::export_valid(
        staged,
        #[trigger] staged.exports[x],
    ) by {
        lemma_staged_export_valid(g, tpl, raw, guid, x);
    }
    assert(crate::graph::graph_wf(staged));
    assert(crate::graph::live_ref(staged, e3));
    lemma_fold_node_lists_wf(
        staged,
        scs_i,
        e3,
        staged.exports[scs_i].properties.len() as int,
        0,
    );
}

/// Validity of each staged export, stage by stage.
#[verifier::rlimit(100)]
proof fn lemma_staged_export_valid(
    g: GraphV,
    tpl: ActorTemplatesV,
    raw: Seq<char>,
    guid: Seq<u8>,
    x: int,
)
    requires
        crate::graph::graph_wf(g),
        tpl.wf(),
        component_error(g, tpl, raw) is None,
        crate::graph::valid_refs(g, tpl.component.serialization_before_serialization),
        crate::graph::valid_refs(g, tpl.component.serialization_before_create),
        crate::graph::props_valid(g, tpl.component.properties),
        crate::graph::valid_refs(g, tpl.gen_variable.create_before_serialization),
        crate::graph::valid_refs(g, tpl.scs_node.serialization_before_serialization),
        0 <= x < component_staged(g, tpl, raw, guid).exports.len(),
    ensures
        crate::graph::export_valid(
            component_staged(g, tpl, raw, guid),
            component_staged(g, tpl, raw, guid).exports[x],
        ),
{
    let n = g.exports.len() as int;
    let actor_i = last_export_with_class(g, "BlueprintGeneratedClass"@, n)->Some_0;
    let scs_i = last_export_with_class(g, "SimpleConstructionScript"@, n)->Some_0;
    let cdo_i = last_cdo(g, n)->Some_0;
    lemma_last_export_with_class_props(g, "BlueprintGeneratedClass"@, n);
    lemma_last_export_with_class_props(g, "SimpleConstructionScript"@, n);
    lemma_last_cdo_props(g, n);
    lemma_first_import_matching_props(g, "/Script/CoreUObject"@, "Class"@, "ObjectProperty"@, 0);
    lemma_first_import_matching_props(
        g,
        "/Script/CoreUObject"@,
        "ObjectProperty"@,
        "Default__ObjectProperty"@,
        0,
    );
    lemma_first_import_matching_props(g, "/Script/CoreUObject"@, "Class"@, "SCS_Node"@, 0);
    lemma_first_import_matching_props(g, "/Script/Engine"@, "SCS_Node"@, "Default__SCS_Node"@, 0);
    let staged = component_staged(g, tpl, raw, guid);
    assert(crate::graph::graph_extends(staged, g));
    if x < n && x != actor_i && x != cdo_i && x != scs_i {
        assert(staged.exports[x] == g.exports[x]);
        assert(crate::graph::export_valid(g, g.exports[x]));
        crate::graph::lemma_export_valid_mono(g, staged, g.exports[x]);
    } else if x < n {
        assert(crate::graph::export_valid(g, g.exports[x]));
        crate::graph::lemma_export_valid_mono(g, staged, g.exports[x]);
        if x == actor_i {
            crate::mutator::lemma_export_with_child_pushed_valid(staged, g.exports[x], n + 1);
            crate::mutator::lemma_export_with_dep_pushed_valid(
                staged,
                crate::mutator::export_with_child_pushed(g.exports[x], n + 1),
                DepKind::SerializationBeforeSerialization,
                n + 1,
            );
        }
        if x == cdo_i {
            let base = if x == actor_i {
                crate::mutator::export_with_dep_pushed(
                    crate::mutator::export_with_child_pushed(g.exports[x], n + 1),
                    DepKind::SerializationBeforeSerialization,
                    n + 1,
                )
            } else {
                g.exports[x]
            };
            if x == actor_i {
                crate::mutator::lemma_export_with_child_pushed_valid(staged, g.exports[x], n + 1);
                crate::mutator::lemma_export_with_dep_pushed_valid(
                    staged,
                    crate::mutator::export_with_child_pushed(g.exports[x], n + 1),
                    DepKind::SerializationBeforeSerialization,
                    n + 1,
                );
            }
            crate::mutator::lemma_export_with_dep_pushed_valid(
                staged,
                base,
                DepKind::SerializationBeforeSerialization,
                n + 3,
            );
            crate::mutator::lemma_export_with_dep_pushed_valid(
                staged,
                crate::mutator::export_with_dep_pushed(
                    base,
                    DepKind::SerializationBeforeSerialization,
                    n + 3,
                ),
                DepKind::SerializationBeforeSerialization,
                n + 2,
            );
        }
        if x == scs_i {
            let base0 = if x == actor_i {
                crate::mutator::export_with_dep_pushed(
                    crate::mutator::export_with_child_pushed(g.exports[x], n + 1),
                    DepKind::SerializationBeforeSerialization,
                    n + 1,
                )
            } else {
                g.exports[x]
            };
            let base = if x == cdo_i {
                crate::mutator::export_with_dep_pushed(
                    crate::mutator::export_with_dep_pushed(
                        base0,
                        DepKind::SerializationBeforeSerialization,
                        n + 3,
                    ),
                    DepKind::SerializationBeforeSerialization,
                    n + 2,
                )
            } else {
                base0
            };
            if x == actor_i {
                crate::mutator::lemma_export_with_child_pushed_valid(staged, g.exports[x], n + 1);
                crate::mutator::lemma_export_with_dep_pushed_valid(
                    staged,
                    crate::mutator::export_with_child_pushed(g.exports[x], n + 1),
                    DepKind::SerializationBeforeSerialization,
                    n + 1,
                );
            }
            if x == cdo_i {
                crate::mutator::lemma_export_with_dep_pushed_valid(
                    staged,
                    base0,
                    DepKind::SerializationBeforeSerialization,
                    n + 3,
                );
                crate::mutator::lemma_export_with_dep_pushed_valid(
                    staged,
                    crate::mutator::export_with_dep_pushed(
                        base0,
                        DepKind::SerializationBeforeSerialization,
                        n + 3,
                    ),
                    DepKind::SerializationBeforeSerialization,
                    n + 2,
                );
            }
            crate::mutator::lemma_export_with_dep_pushed_valid(
                staged,
                base,
                DepKind::CreateBeforeSerialization,
                n + 3,
            );
        }
    } else {
        // One of the three appended exports: every stored index is spelled
        // out by the construction, or kept from a skeleton whose indices
        // resolve, and resolves within the staged graph.
        assert forall|k: int|
            0 <= k < tpl.component.serialization_before_serialization.len() implies valid_ref(
            staged,
            #[trigger] tpl.component.serialization_before_serialization[k],
        ) by {
            assert(valid_ref(g, tpl.component.serialization_before_serialization[k]));
        }
        assert forall|k: int|
            0 <= k < tpl.component.serialization_before_create.len() implies valid_ref(
            staged,
            #[trigger] tpl.component.serialization_before_create[k],
        ) by {
            assert(valid_ref(g, tpl.component.serialization_before_create[k]));
        }
        assert forall|k: int|
            0 <= k < tpl.gen_variable.create_before_serialization.len() implies valid_ref(
            staged,
            #[trigger] tpl.gen_variable.create_before_serialization[k],
        ) by {
            assert(valid_ref(g, tpl.gen_variable.create_before_serialization[k]));
        }
        assert forall|k: int|
            0 <= k < tpl.scs_node.serialization_before_serialization.len() implies valid_ref(
            staged,
            #[trigger] tpl.scs_node.serialization_before_serialization[k],
        ) by {
            assert(valid_ref(g, tpl.scs_node.serialization_before_serialization[k]));
        }
        assert(crate::graph::props_valid(staged, staged.exports[x].properties)) by {
            if x == n {
                assert(staged.exports[x].properties == tpl.component.properties);
                crate::graph::lemma_props_valid_mono(g, staged, tpl.component.properties);
            } else if x == n + 1 {
                crate::graph::lemma_props_valid(staged, staged.exports[x].properties);
            } else {
                crate::graph::lemma_props_valid(staged, staged.exports[x].properties);
                assert forall|w: int|
                    0 <= w < staged.exports[x].properties.len() implies crate::graph::prop_valid(
                    staged,
                    #[trigger] staged.exports[x].properties[w],
                ) by {
                    if w == 2 {
                        crate::graph::lemma_props_valid(
                            staged,
                            crate::mutator::children_of(staged.exports[x].properties[w]),
                        );
                    }
                }
            }
        }
    }
}

} // verus!
