use astro_mod_integrator::actor_components::{ActorTemplates, handle_linked_actor_components_for_asset};
use astro_mod_integrator::biomes::{
    BiomeType, handle_biome_placement_modifiers, parse_placement_modifiers,
    biome_placement_skipped_map,
};
use astro_mod_integrator::errors::IntegratorError;
use astro_mod_integrator::graph::{AssetGraph, Export, ExportKind, FName, Import, Property};
use astro_mod_integrator::item_lists::{handle_item_list_entries_for_asset, merge_item_list_entries};
use astro_mod_integrator::json::Json;
use astro_mod_integrator::merger::{merge_item_list_maps, merge_name_list_maps, merge_string_lists};
use astro_mod_integrator::mutator::next_disambiguating_number;
use astro_mod_integrator::paths::{absolute_asset_names, parse_item_path, parse_component_path};
use astro_mod_integrator::strutil::u64_to_string;
use astro_mod_integrator::trailheads::{TrailheadsOutcome, handle_mission_trailheads};
use astro_mod_integrator::AstroIntegratorConfig;
use astro_mod_integrator::HandlerKind;

fn name(text: &str) -> FName {
    FName { text: text.to_owned(), number: 0 }
}

fn bare_export(object_name: FName, class_index: i32) -> Export {
    Export {
        object_name,
        object_flags: 0,
        class_index,
        outer_index: 0,
        template_index: 0,
        create_before_serialization: Vec::new(),
        create_before_create: Vec::new(),
        serialization_before_serialization: Vec::new(),
        serialization_before_create: Vec::new(),
        kind: ExportKind::Normal,
        properties: Vec::new(),
    }
}

fn class_import(object_name: &str) -> Import {
    Import {
        class_package: name("/Script/CoreUObject"),
        class_name: name("Class"),
        outer_index: 0,
        object_name: name(object_name),
    }
}

fn jstr(s: &str) -> Json {
    Json::Str(s.to_owned())
}

fn jarr(items: Vec<Json>) -> Json {
    Json::Arr(items)
}

fn jobj(entries: Vec<(&str, Json)>) -> Json {
    Json::Obj(entries.into_iter().map(|(k, v)| (k.to_owned(), v)).collect())
}

#[test]
fn name_disambiguation_takes_next_number() {
    let mut g = AssetGraph::new();
    g.add_export(bare_export(name("SCS_Node"), 0));
    g.add_export(bare_export(FName { text: "SCS_Node".to_owned(), number: 3 }, 0));
    g.add_export(bare_export(FName { text: "SCS_Node".to_owned(), number: 7 }, 0));
    g.add_export(bare_export(name("Other"), 0));
    assert_eq!(next_disambiguating_number(&g, "SCS_Node"), Some(8));
    assert_eq!(next_disambiguating_number(&g, "Missing"), Some(1));
}

#[test]
fn merge_concatenates_lists_in_order() {
    let m1 = jobj(vec![("/Game/T", jarr(vec![jstr("A")]))]);
    let m2 = jobj(vec![("/Game/T", jarr(vec![jstr("B")]))]);
    let merged = merge_name_list_maps(&vec![m1, m2]).unwrap();
    assert_eq!(merged.len(), 1);
    assert_eq!(merged[0].0, "/Game/T");
    assert_eq!(merged[0].1, vec!["A".to_owned(), "B".to_owned()]);
}

#[test]
fn merge_string_lists_concatenates() {
    let merged = merge_string_lists(&vec![
        jarr(vec![jstr("one"), jstr("two")]),
        jarr(vec![jstr("three")]),
    ])
    .unwrap();
    assert_eq!(merged, vec!["one".to_owned(), "two".to_owned(), "three".to_owned()]);
}

#[test]
fn merge_rejects_wrong_shape() {
    assert!(merge_string_lists(&vec![jstr("not-an-array")]).is_none());
    assert!(merge_name_list_maps(&vec![jarr(vec![])]).is_none());
    assert!(merge_item_list_maps(&vec![jstr("x")]).is_none());
}

#[test]
fn legacy_duplication_fills_known_list() {
    let m = jobj(vec![(
        "/Game/Items/ItemTypes/MasterItemList",
        jobj(vec![("Foo", jarr(vec![jstr("a"), jstr("b")]))]),
    )]);
    let merged = merge_item_list_maps(&vec![m]).unwrap();
    assert_eq!(merged.len(), 2);
    assert_eq!(merged[0].0, "/Game/Items/ItemTypes/MasterItemList");
    assert_eq!(merged[1].0, "/Game/Items/ItemTypes/BaseGameInitialKnownItemList");
    assert_eq!(merged[0].1, merged[1].1);
    assert_eq!(merged[1].1[0].0, "Foo");
    assert_eq!(merged[1].1[0].1, vec!["a".to_owned(), "b".to_owned()]);
}

#[test]
fn explicit_known_list_suppresses_duplication() {
    let m = jobj(vec![
        ("/Game/Items/ItemTypes/BaseGameInitialKnownItemList", jobj(vec![])),
        (
            "/Game/Items/ItemTypes/MasterItemList",
            jobj(vec![("Foo", jarr(vec![jstr("a")]))]),
        ),
    ]);
    let merged = merge_item_list_maps(&vec![m]).unwrap();
    let known = merged
        .iter()
        .find(|e| e.0 == "/Game/Items/ItemTypes/BaseGameInitialKnownItemList")
        .unwrap();
    assert!(known.1.is_empty());
}

fn settings_graph() -> AssetGraph {
    let mut g = AssetGraph::new();
    g.add_import(Import {
        class_package: name("/Script/Astro"),
        class_name: name("Class"),
        outer_index: 0,
        object_name: name("AstroSettings"),
    });
    let mut e = bare_export(name("Settings"), -1);
    e.properties.push(Property::Array {
        name: name("MissionData"),
        array_type: Some(name("ObjectProperty")),
        value: Vec::new(),
    });
    g.add_export(e);
    g
}

#[test]
fn trailhead_end_to_end() {
    let mut g = settings_graph();
    let r = handle_mission_trailheads(&mut g, &vec![jarr(vec![jstr("/Game/Mission/Foo")])]);
    assert!(matches!(r, Ok(TrailheadsOutcome::Applied)));
    assert_eq!(g.imports.len(), 3);
    match &g.exports[0].properties[0] {
        Property::Array { value, .. } => {
            assert_eq!(value.len(), 1);
            match &value[0] {
                Property::Object { name: n, value: idx, has_guid } => {
                    assert_eq!(n.text, "MissionData");
                    assert!(*has_guid);
                    // The chain's final import and its package.
                    assert_eq!(*idx, -3);
                    let asset_import = &g.imports[2];
                    assert_eq!(asset_import.object_name.text, "Foo");
                    assert_eq!(asset_import.class_name.text, "AstroMissionDataAsset");
                    let pkg = &g.imports[(-asset_import.outer_index - 1) as usize];
                    assert_eq!(pkg.object_name.text, "/Game/Mission/Foo");
                    assert_eq!(pkg.class_name.text, "Package");
                },
                _ => panic!("expected an object reference"),
            }
        },
        _ => panic!("expected the mission array"),
    }
}

#[test]
fn trailheads_skip_graph_without_anchor() {
    let mut g = AssetGraph::new();
    let r = handle_mission_trailheads(&mut g, &vec![jarr(vec![jstr("/Game/Mission/Foo")])]);
    assert!(matches!(r, Ok(TrailheadsOutcome::AnchorMissing)));
    assert_eq!(g.imports.len(), 0);
    assert_eq!(g.exports.len(), 0);
}

#[test]
fn trailheads_reject_malformed_patch() {
    let mut g = settings_graph();
    let r = handle_mission_trailheads(&mut g, &vec![jstr("nope")]);
    match r {
        Err(IntegratorError::MalformedPatch { handler, detail }) => {
            assert_eq!(handler, "mission_trailheads");
            assert_eq!(detail, "Invalid trailheads");
        },
        _ => panic!("expected a malformed patch error"),
    }
    assert_eq!(g.imports.len(), 1);
}

#[test]
fn trailheads_report_corrupt_class_import() {
    let mut g = AssetGraph::new();
    g.add_export(bare_export(name("Broken"), -5));
    let r = handle_mission_trailheads(&mut g, &vec![jarr(vec![])]);
    match r {
        Err(IntegratorError::CorruptBaseAsset { detail }) => {
            assert_eq!(detail, "Invalid import");
        },
        _ => panic!("expected a corrupt asset error"),
    }
}

fn item_lists_graph() -> AssetGraph {
    let mut g = AssetGraph::new();
    let mut e = bare_export(name("Table"), 0);
    e.properties.push(Property::Array {
        name: name("Items"),
        array_type: Some(name("ObjectProperty")),
        value: Vec::new(),
    });
    e.properties.push(Property::Array {
        name: name("Items"),
        array_type: Some(name("SoftObjectProperty")),
        value: Vec::new(),
    });
    g.add_export(e);
    g
}

#[test]
fn soft_and_hard_reference_routing() {
    let mut g = item_lists_graph();
    let entries = vec![("Items".to_owned(), vec!["/Game/Items/Thing".to_owned()])];
    handle_item_list_entries_for_asset(&mut g, &entries).unwrap();
    // One shared class import chain for the hard reference, none added for
    // the soft one.
    assert_eq!(g.imports.len(), 2);
    assert_eq!(g.imports[0].object_name.text, "/Game/Items/Thing");
    assert_eq!(g.imports[1].object_name.text, "Thing_C");
    assert_eq!(g.imports[1].class_name.text, "BlueprintGeneratedClass");
    match &g.exports[0].properties[0] {
        Property::Array { value, .. } => match &value[0] {
            Property::Object { value: idx, has_guid, .. } => {
                assert_eq!(*idx, -2);
                assert!(!*has_guid);
            },
            _ => panic!("expected an object reference"),
        },
        _ => panic!("expected an array"),
    }
    match &g.exports[0].properties[1] {
        Property::Array { value, .. } => match &value[0] {
            Property::SoftObject { asset_path, sub_path, .. } => {
                assert_eq!(asset_path.text, "/Game/Items/Thing");
                assert_eq!(sub_path.as_deref(), Some("Thing"));
            },
            _ => panic!("expected a soft reference"),
        },
        _ => panic!("expected an array"),
    }
}

#[test]
fn item_lists_skip_unmatched_names() {
    let mut g = item_lists_graph();
    let entries = vec![("NoSuchList".to_owned(), vec!["/Game/Items/Thing".to_owned()])];
    handle_item_list_entries_for_asset(&mut g, &entries).unwrap();
    assert_eq!(g.imports.len(), 0);
}

#[test]
fn item_lists_report_untyped_array() {
    let mut g = AssetGraph::new();
    let mut e = bare_export(name("Table"), 0);
    e.properties.push(Property::Array {
        name: name("Items"),
        array_type: None,
        value: Vec::new(),
    });
    g.add_export(e);
    let entries = vec![("Items".to_owned(), vec!["/Game/Items/Thing".to_owned()])];
    match handle_item_list_entries_for_asset(&mut g, &entries) {
        Err(IntegratorError::CorruptBaseAsset { detail }) => {
            assert_eq!(detail, "Invalid array_property");
        },
        _ => panic!("expected a corrupt asset error"),
    }
}

#[test]
fn item_list_merge_error_identifies_handler() {
    match merge_item_list_entries(&vec![jstr("bad")]) {
        Err(IntegratorError::MalformedPatch { handler, detail }) => {
            assert_eq!(handler, "item_list_entries");
            assert_eq!(detail, "Invalid item_list_entries");
        },
        _ => panic!("expected a malformed patch error"),
    }
}

#[test]
fn biome_missing_voxel_warns_and_skips() {
    let mut g = AssetGraph::new();
    let patch = jarr(vec![jobj(vec![
        ("planet_type", jstr("Mars")),
        ("biome_type", jstr("Surface")),
        ("biome_name", jstr("Canyons")),
        ("layer_name", jstr("Rocky")),
        ("placements", jarr(vec![jstr("/Game/Biomes/Spire")])),
    ])]);
    let warnings = handle_biome_placement_modifiers(&mut g, &vec![patch]).unwrap();
    assert_eq!(warnings, vec!["Failed to find voxel export MarsVoxels".to_owned()]);
    assert_eq!(g.imports.len(), 0);
    assert_eq!(g.exports.len(), 0);
}

#[test]
fn biome_patch_appends_placement_modifiers() {
    let mut g = AssetGraph::new();
    g.add_import(class_import("VoxelVolumeComponent"));
    let mut voxels = bare_export(name("MarsVoxels"), -1);
    voxels.properties.push(Property::Array {
        name: name("SurfaceBiomes"),
        array_type: Some(name("StructProperty")),
        value: vec![Property::Struct {
            name: name("SurfaceBiomes"),
            struct_type: None,
            value: vec![
                Property::Name { name: name("Name"), value: name("Canyons") },
                Property::Array {
                    name: name("Layers"),
                    array_type: Some(name("StructProperty")),
                    value: vec![Property::Struct {
                        name: name("Layers"),
                        struct_type: None,
                        value: vec![
                            Property::Name { name: name("Name"), value: name("Rocky") },
                            Property::Array {
                                name: name("ObjectPlacementModifiers"),
                                array_type: Some(name("ObjectProperty")),
                                value: Vec::new(),
                            },
                        ],
                    }],
                },
            ],
        }],
    });
    g.add_export(voxels);
    let patch = jarr(vec![jobj(vec![
        ("planet_type", jstr("Mars")),
        ("biome_type", jstr("Surface")),
        ("biome_name", jstr("Canyons")),
        ("layer_name", jstr("Rocky")),
        ("placements", jarr(vec![jstr("/Game/Biomes/Spire")])),
    ])]);
    let warnings = handle_biome_placement_modifiers(&mut g, &vec![patch]).unwrap();
    assert!(warnings.is_empty());
    assert_eq!(g.imports.len(), 3);
    assert_eq!(g.imports[2].object_name.text, "Spire");
    assert_eq!(g.imports[2].class_name.text, "ProceduralModifier");
    match &g.exports[0].properties[0] {
        Property::Array { value, .. } => match &value[0] {
            Property::Struct { value: biome, .. } => match &biome[1] {
                Property::Array { value: layers, .. } => match &layers[0] {
                    Property::Struct { value: layer, .. } => match &layer[1] {
                        Property::Array { value: opm, .. } => {
                            assert_eq!(opm.len(), 1);
                            match &opm[0] {
                                Property::Object { name: n, value: idx, .. } => {
                                    // Named by the array's length before the push.
                                    assert_eq!(n.text, "0");
                                    assert_eq!(*idx, -3);
                                },
                                _ => panic!("expected an object reference"),
                            }
                        },
                        _ => panic!("expected the placement array"),
                    },
                    _ => panic!("expected the layer struct"),
                },
                _ => panic!("expected the layers array"),
            },
            _ => panic!("expected the biome struct"),
        },
        _ => panic!("expected the biome family array"),
    }
}

#[test]
fn biome_missing_layer_is_fatal() {
    let mut g = AssetGraph::new();
    g.add_import(class_import("VoxelVolumeComponent"));
    let mut voxels = bare_export(name("MarsVoxels"), -1);
    voxels.properties.push(Property::Array {
        name: name("SurfaceBiomes"),
        array_type: Some(name("StructProperty")),
        value: vec![Property::Struct {
            name: name("SurfaceBiomes"),
            struct_type: None,
            value: vec![Property::Name { name: name("Name"), value: name("Canyons") }],
        }],
    });
    g.add_export(voxels);
    let patch = jarr(vec![jobj(vec![
        ("planet_type", jstr("Mars")),
        ("biome_type", jstr("Surface")),
        ("biome_name", jstr("Canyons")),
        ("layer_name", jstr("Rocky")),
        ("placements", jarr(vec![])),
    ])]);
    match handle_biome_placement_modifiers(&mut g, &vec![patch]) {
        Err(IntegratorError::CorruptBaseAsset { detail }) => {
            assert_eq!(detail, "Corrupted game installation");
        },
        _ => panic!("expected a corrupt asset error"),
    }
    assert_eq!(g.imports.len(), 1);
}

#[test]
fn biome_parse_rejects_bad_type() {
    let patch = jarr(vec![jobj(vec![
        ("planet_type", jstr("Mars")),
        ("biome_type", jstr("Underground")),
        ("biome_name", jstr("x")),
        ("layer_name", jstr("y")),
        ("placements", jarr(vec![])),
    ])]);
    assert!(parse_placement_modifiers(&vec![patch]).is_none());
    let ok = jarr(vec![jobj(vec![
        ("planet_type", jstr("Mars")),
        ("biome_type", jstr("Crust")),
        ("biome_name", jstr("x")),
        ("layer_name", jstr("y")),
        ("placements", jarr(vec![])),
    ])]);
    let pms = parse_placement_modifiers(&vec![ok]).unwrap();
    assert_eq!(pms.len(), 1);
    assert!(matches!(pms[0].biome_type, BiomeType::Crust));
}

#[test]
fn skipped_map_is_the_test_sphere() {
    assert!(biome_placement_skipped_map("Astro/Content/Maps/test/BasicSphereT2.umap"));
    assert!(!biome_placement_skipped_map("Astro/Content/Maps/Staging_T2.umap"));
}

fn actor_graph() -> AssetGraph {
    let mut g = AssetGraph::new();
    g.add_import(class_import("ObjectProperty"));
    g.add_import(Import {
        class_package: name("/Script/CoreUObject"),
        class_name: name("ObjectProperty"),
        outer_index: 0,
        object_name: name("Default__ObjectProperty"),
    });
    g.add_import(class_import("SCS_Node"));
    g.add_import(Import {
        class_package: name("/Script/Engine"),
        class_name: name("SCS_Node"),
        outer_index: 0,
        object_name: name("Default__SCS_Node"),
    });
    g.add_import(class_import("BlueprintGeneratedClass"));
    g.add_import(class_import("SimpleConstructionScript"));
    let mut actor = bare_export(name("CoolActor"), -5);
    actor.kind = ExportKind::Class { children: Vec::new() };
    g.add_export(actor);
    let mut scs = bare_export(name("ConstructionScript"), -6);
    scs.properties.push(Property::Array {
        name: name("AllNodes"),
        array_type: Some(name("ObjectProperty")),
        value: Vec::new(),
    });
    g.add_export(scs);
    let mut cdo = bare_export(name("Default__CoolActor"), 0);
    cdo.object_flags = 0x10;
    g.add_export(cdo);
    g
}

fn templates() -> ActorTemplates {
    let gen_variable = bare_export(name("TemplateVar"), 0);
    let mut component = bare_export(name("TemplateComp"), 0);
    component.kind = ExportKind::Property { property_class: 0 };
    let scs_node = bare_export(name("TemplateNode"), 0);
    ActorTemplates::new(gen_variable, component, scs_node).unwrap()
}

#[test]
fn actor_component_attachment_wires_everything() {
    let mut g = actor_graph();
    let tpl = templates();
    let comps = vec!["/Game/Mods/CoolComp".to_owned()];
    handle_linked_actor_components_for_asset(&mut g, &tpl, &comps).unwrap();
    assert_eq!(g.imports.len(), 9);
    assert_eq!(g.exports.len(), 6);
    assert_eq!(g.imports[6].object_name.text, "/Game/Mods/CoolComp");
    assert_eq!(g.imports[7].object_name.text, "CoolComp_C");
    assert_eq!(g.imports[8].object_name.text, "Default__CoolComp_C");
    // The component instance.
    assert_eq!(g.exports[3].object_name.text, "CoolComp");
    assert_eq!(g.exports[3].outer_index, 1);
    // The generated variable.
    assert_eq!(g.exports[4].object_name.text, "CoolComp_GEN_VARIABLE");
    match &g.exports[4].properties[0] {
        Property::Bool { name: n, value } => {
            assert_eq!(n.text, "bAutoActivate");
            assert!(*value);
        },
        _ => panic!("expected the auto-activate flag"),
    }
    // The construction script node, disambiguated from scratch.
    assert_eq!(g.exports[5].object_name.text, "SCS_Node");
    assert_eq!(g.exports[5].object_name.number, 1);
    assert_eq!(g.exports[5].properties.len(), 4);
    // The actor now owns the instance.
    match &g.exports[0].kind {
        ExportKind::Class { children } => assert_eq!(children, &vec![4]),
        _ => panic!("expected the actor class"),
    }
    assert_eq!(g.exports[0].serialization_before_serialization, vec![4]);
    // The class-default object waits for the node and the variable.
    assert_eq!(g.exports[2].serialization_before_serialization, vec![6, 5]);
    // The construction script registers the node on its node list.
    assert_eq!(g.exports[1].create_before_serialization, vec![6]);
    match &g.exports[1].properties[0] {
        Property::Array { value, .. } => {
            assert_eq!(value.len(), 1);
            match &value[0] {
                Property::Object { name: n, value: idx, .. } => {
                    // One past the largest element number, of which there
                    // are none yet.
                    assert_eq!(n.text, "1");
                    assert_eq!(n.number, -0x8000_0000);
                    assert_eq!(*idx, 6);
                },
                _ => panic!("expected the node reference"),
            }
        },
        _ => panic!("expected the node list"),
    }
}

#[test]
fn actor_component_missing_actor_is_fatal() {
    let mut g = AssetGraph::new();
    let tpl = templates();
    let comps = vec!["/Game/Mods/CoolComp".to_owned()];
    match handle_linked_actor_components_for_asset(&mut g, &tpl, &comps) {
        Err(IntegratorError::TargetNotFound { name: n }) => {
            assert_eq!(n, "Actor not found");
        },
        _ => panic!("expected a target-not-found error"),
    }
}

#[test]
fn item_path_grammar() {
    let (asset, cls, soft) = parse_item_path("/Game/Items/Thing").unwrap();
    assert_eq!(asset, "/Game/Items/Thing");
    assert_eq!(cls, "Thing_C");
    assert_eq!(soft, "Thing");
    let (asset, cls, soft) = parse_item_path("/Game/Items/Pkg.MyClass").unwrap();
    assert_eq!(asset, "/Game/Items/Pkg");
    assert_eq!(cls, "MyClass");
    assert_eq!(soft, "MyClass");
}

#[test]
fn component_path_grammar() {
    let (pkg, comp) = parse_component_path("/Game/Mods/CoolComp").unwrap();
    assert_eq!(pkg, "/Game/Mods/CoolComp");
    assert_eq!(comp, "CoolComp");
    // The dotted form keeps the stem's first token as the package and
    // strips the literal trailing two characters from the class token.
    let (pkg, comp) = parse_component_path("/Game/Mods/Pkg.CoolComp_C.ext").unwrap();
    assert_eq!(pkg, "Pkg");
    assert_eq!(comp, "CoolComp");
}

#[test]
fn absolute_names_follow_game_paths() {
    let names = vec![
        "/Game/Items/ItemTypes/MasterItemList".to_owned(),
        "/Game/Maps/Planet.umap".to_owned(),
    ];
    let abs = absolute_asset_names(&names, "Astro").unwrap();
    assert_eq!(abs[0], "Astro/Content/Items/ItemTypes/MasterItemList.uasset");
    assert_eq!(abs[1], "Astro/Content/Maps/Planet.umap");
    let bad = vec!["Engine/Content/Other".to_owned()];
    assert_eq!(absolute_asset_names(&bad, "Astro"), Err(0));
}

#[test]
fn absolute_names_expand_replacement_references() {
    // The game name passes through a regex replacement string, where `$`
    // starts a capture reference (an invalid one expands to nothing), so
    // the library pins the result only for names without `$`. Record the
    // behavior that makes the caveat necessary.
    let names = vec!["/Game/x".to_owned()];
    let abs = absolute_asset_names(&names, "A$1").unwrap();
    assert_eq!(abs[0], "A/Content/x.uasset");
}

#[test]
fn decimal_formatting() {
    assert_eq!(u64_to_string(0), "0");
    assert_eq!(u64_to_string(7), "7");
    assert_eq!(u64_to_string(2048), "2048");
}

#[test]
fn configuration_lists_handlers_and_maps() {
    let handlers = AstroIntegratorConfig.get_handlers();
    assert_eq!(handlers.len(), 4);
    assert_eq!(handlers[0].0, "mission_trailheads");
    assert_eq!(handlers[0].1, HandlerKind::MissionTrailheads);
    assert_eq!(handlers[3].0, "biome_placement_modifiers");
    assert_eq!(handlers[3].1, HandlerKind::BiomePlacementModifiers);
    let maps = AstroIntegratorConfig::map_paths();
    assert_eq!(maps.len(), 3);
    assert_eq!(maps[0], "Astro/Content/Maps/Staging_T2.umap");
    assert_eq!(AstroIntegratorConfig::game_name(), "Astro");
}

#[test]
fn error_messages_name_their_subject() {
    let e = IntegratorError::TargetNotFound { name: "SCS not found".to_owned() };
    assert_eq!(e.message(), "target not found: SCS not found");
    let e = IntegratorError::MalformedPatch {
        handler: "mission_trailheads".to_owned(),
        detail: "Invalid trailheads".to_owned(),
    };
    assert_eq!(e.message(), "malformed patch for mission_trailheads: Invalid trailheads");
    let e = IntegratorError::CorruptBaseAsset { detail: "Invalid import".to_owned() };
    assert_eq!(e.message(), "corrupted base asset: Invalid import");
}
