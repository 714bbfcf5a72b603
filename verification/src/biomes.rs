//! The biome placement modifier strategy: descriptor parsing and the graph
//! surgery that appends procedural-modifier references to the addressed
//! biome layer of each planet's voxel component.

use vstd::prelude::*;
use crate::errors::{IntegratorError, IntegratorErrorV};
use crate::graph::{
    AssetGraph, ExportV, FName, FNameV, GraphV, Property, PropertyV, prop_views, lemma_prop_views,
};
use crate::json::{Json, JsonV, json_views, assoc_lookup, lemma_json_views};
use crate::merger::strings_of;
use crate::mutator::{
    chain_views, children_of, export_with_pushed, intern_import_chain, idxs_of, path_valid,
    push_to_export_array, tail_children, len_at_path, lemma_push_preserves_path_valid,
    props_pushed_at,
};
use crate::paths::{file_stem_spec, file_stem_of};
use crate::resolver::{
    import_at, get_import, find_property, find_struct_elem_carrying_name, first_prop_named,
    first_elem_carrying_name, lemma_first_prop_named_props, lemma_first_elem_carrying_name_props,
    scan_corrupt, lemma_scan_corrupt_mono,
};
use crate::strutil::{str_eq, dec_str, u64_to_string, concat_str};

verus! {

/// Which biome family of a voxel component a modifier addresses.
#[derive(Clone, Copy, PartialEq, Eq, Structural)]
pub enum BiomeType {
    Surface,
    Crust,
}

/// One placement-modifier patch entry.
pub struct PlacementModifier {
    pub planet_type: String,
    pub biome_type: BiomeType,
    pub biome_name: String,
    pub layer_name: String,
    pub placements: Vec<String>,
}

/// Mathematical shape of a [`PlacementModifier`].
pub struct PlacementModifierV {
    pub planet_type: Seq<char>,
    pub biome_type: BiomeType,
    pub biome_name: Seq<char>,
    pub layer_name: Seq<char>,
    pub placements: Seq<Seq<char>>,
}

impl DeepView for PlacementModifier {
    type V = PlacementModifierV;

    open spec fn deep_view(&self) -> PlacementModifierV {
        PlacementModifierV {
            planet_type: self.planet_type@,
            biome_type: self.biome_type,
            biome_name: self.biome_name@,
            layer_name: self.layer_name@,
            placements: self.placements.deep_view(),
        }
    }
}

/// The biome family a JSON value names.
pub open spec fn parse_biome_type(v: JsonV) -> Option<BiomeType> {
    match v {
        JsonV::Str(t) => if t == "Surface"@ {
            Some(BiomeType::Surface)
        } else if t == "Crust"@ {
            Some(BiomeType::Crust)
        } else {
            None
        },
        _ => None,
    }
}

/// The placement modifier a JSON object describes: the five fields by key,
/// each of the required shape. Extra keys are ignored.
pub open spec fn parse_modifier_fields(m: Seq<(Seq<char>, JsonV)>) -> Option<PlacementModifierV> {
    match assoc_lookup(m, "planet_type"@) {
        Some(JsonV::Str(pt)) => match assoc_lookup(m, "biome_type"@) {
            Some(btv) => match parse_biome_type(btv) {
                Some(bt) => match assoc_lookup(m, "biome_name"@) {
                    Some(JsonV::Str(bn)) => match assoc_lookup(m, "layer_name"@) {
                        Some(JsonV::Str(ln)) => match assoc_lookup(m, "placements"@) {
                            Some(JsonV::Arr(pl)) => match strings_of(pl, 0) {
                                Some(ps) => Some(
                                    PlacementModifierV {
                                        planet_type: pt,
                                        biome_type: bt,
                                        biome_name: bn,
                                        layer_name: ln,
                                        placements: ps,
                                    },
                                ),
                                None => None,
                            },
                            _ => None,
                        },
                        _ => None,
                    },
                    _ => None,
                },
                None => None,
            },
            None => None,
        },
        _ => None,
    }
}

/// The placement modifier a JSON value describes.
pub open spec fn parse_modifier(v: JsonV) -> Option<PlacementModifierV> {
    match v {
        JsonV::Obj(m) => parse_modifier_fields(m),
        _ => None,
    }
}

/// Parses one placement-modifier object; agrees with [`parse_modifier`].
pub fn parse_placement_modifier(j: &Json) -> (r: Option<PlacementModifier>)
    ensures
        match r {
            Some(pm) => parse_modifier(j.deep_view()) == Some(pm.deep_view()),
            None => parse_modifier(j.deep_view()) is None,
        },
{
    let m = match j.as_obj() {
        Some(m) => m,
        None => {
            return None;
        },
    };
    let planet_type: String = match crate::json::obj_get(m, "planet_type") {
        Some(v) => match v.as_str() {
            Some(s) => s.clone(),
            None => {
                return None;
            },
        },
        None => {
            return None;
        },
    };
    let biome_type: BiomeType = match crate::json::obj_get(m, "biome_type") {
        Some(v) => match v.as_str() {
            Some(s) => {
                if str_eq(s.as_str(), "Surface") {
                    BiomeType::Surface
                } else if str_eq(s.as_str(), "Crust") {
                    BiomeType::Crust
                } else {
                    return None;
                }
            },
            None => {
                return None;
            },
        },
        None => {
            return None;
        },
    };
    let biome_name: String = match crate::json::obj_get(m, "biome_name") {
        Some(v) => match v.as_str() {
            Some(s) => s.clone(),
            None => {
                return None;
            },
        },
        None => {
            return None;
        },
    };
    let layer_name: String = match crate::json::obj_get(m, "layer_name") {
        Some(v) => match v.as_str() {
            Some(s) => s.clone(),
            None => {
                return None;
            },
        },
        None => {
            return None;
        },
    };
    let placements: Vec<String> = match crate::json::obj_get(m, "placements") {
        Some(v) => match v.as_arr() {
            Some(a) => match crate::merger::json_strings_of(a) {
                Some(ps) => ps,
                None => {
                    return None;
                },
            },
            None => {
                return None;
            },
        },
        None => {
            return None;
        },
    };
    Some(
        PlacementModifier {
            planet_type,
            biome_type,
            biome_name,
            layer_name,
            placements,
        },
    )
}

/// The modifiers described by the elements of one JSON array.
pub open spec fn parse_modifier_list(s: Seq<JsonV>, from: int) -> Option<Seq<PlacementModifierV>>
    decreases s.len() - from,
{
    if from < 0 || from >= s.len() {
        Some(Seq::empty())
    } else {
        match parse_modifier(s[from]) {
            Some(pm) => match parse_modifier_list(s, from + 1) {
                Some(rest) => Some(seq![pm] + rest),
                None => None,
            },
            None => None,
        }
    }
}

/// The modifiers of all mods, concatenated in priority order; each mod's
/// patch must be an array of modifier objects.
pub open spec fn parse_all_modifiers(ps: Seq<JsonV>, from: int) -> Option<Seq<PlacementModifierV>>
    decreases ps.len() - from,
{
    if from < 0 || from >= ps.len() {
        Some(Seq::empty())
    } else {
        match ps[from] {
            JsonV::Arr(a) => match (parse_modifier_list(a, 0), parse_all_modifiers(ps, from + 1)) {
                (Some(x), Some(rest)) => Some(x + rest),
                _ => None,
            },
            _ => None,
        }
    }
}

/// Parses and concatenates every mod's placement modifiers; agrees with
/// [`parse_all_modifiers`].
pub fn parse_placement_modifiers(patches: &Vec<Json>) -> (r: Option<Vec<PlacementModifier>>)
    ensures
        match r {
            Some(v) => parse_all_modifiers(json_views(patches@), 0) == Some(v.deep_view()),
            None => parse_all_modifiers(json_views(patches@), 0) is None,
        },
{
    let ghost ps = json_views(patches@);
    let n = patches.len();
    let mut out: Vec<PlacementModifier> = Vec::new();
    let mut i: usize = 0;
    proof {
        lemma_json_views(patches@);
        assert(out.deep_view() =~= Seq::<PlacementModifierV>::empty());
    }
    while i < n
        invariant
            i <= n,
            n == patches@.len(),
            ps == json_views(patches@),
            ps.len() == n,
            forall|j: int| 0 <= j < n ==> ps[j] == #[trigger] patches@[j].deep_view(),
            match parse_all_modifiers(ps, i as int) {
                Some(rest) => parse_all_modifiers(ps, 0) == Some(out.deep_view() + rest),
                None => parse_all_modifiers(ps, 0) is None,
            },
        decreases n - i,
    {
        proof {
            assert(ps[i as int] == patches@[i as int].deep_view());
        }
        match patches[i].as_arr() {
            Some(a) => {
                let ghost av = json_views(a@);
                let an = a.len();
                let mut k: usize = 0;
                let ghost out_enter = out.deep_view();
                proof {
                    lemma_json_views(a@);
                    assert(ps[i as int] == JsonV::Arr(av));
                }
                while k < an
                    invariant
                        k <= an,
                        an == a@.len(),
                        av == json_views(a@),
                        av.len() == an,
                        i < n,
                        n == patches@.len(),
                        ps == json_views(patches@),
                        ps.len() == n,
                        ps[i as int] == JsonV::Arr(av),
                        match parse_all_modifiers(ps, i as int) {
                            Some(rest) => parse_all_modifiers(ps, 0) == Some(out_enter + rest),
                            None => parse_all_modifiers(ps, 0) is None,
                        },
                        forall|j: int| 0 <= j < an ==> av[j] == #[trigger] a@[j].deep_view(),
                        match parse_modifier_list(av, k as int) {
                            Some(rest) => parse_modifier_list(av, 0) == Some(
                                out.deep_view().skip(out_enter.len() as int) + rest,
                            ),
                            None => parse_modifier_list(av, 0) is None,
                        },
                        out.deep_view().len() >= out_enter.len(),
                        out.deep_view().take(out_enter.len() as int) == out_enter,
                    decreases an - k,
                {
                    proof {
                        assert(av[k as int] == a@[k as int].deep_view());
                    }
                    match parse_placement_modifier(&a[k]) {
                        Some(pm) => {
                            let ghost before = out.deep_view();
                            out.push(pm);
                            proof {
                                assert(out.deep_view() =~= before.push(
                                    parse_modifier(av[k as int])->Some_0,
                                ));
                                assert(out.deep_view().take(out_enter.len() as int)
                                    =~= before.take(out_enter.len() as int));
                                if parse_modifier_list(av, k as int + 1) is Some {
                                    assert(before.skip(out_enter.len() as int).push(
                                        parse_modifier(av[k as int])->Some_0,
                                    ) =~= out.deep_view().skip(out_enter.len() as int));
                                    assert(before.skip(out_enter.len() as int) + (seq![
                                        parse_modifier(av[k as int])->Some_0,
                                    ] + parse_modifier_list(av, k as int + 1)->Some_0) =~= (
                                    out.deep_view().skip(out_enter.len() as int)) + parse_modifier_list(
                                        av,
                                        k as int + 1,
                                    )->Some_0);
                                }
                            }
                        },
                        None => {
                            proof {
                                assert(parse_modifier_list(av, k as int) is None);
                                assert(parse_modifier_list(av, 0) is None);
                                assert(parse_all_modifiers(ps, i as int) is None);
                            }
                            return None;
                        },
                    }
                    k = k + 1;
                }
                proof {
                    assert(parse_modifier_list(av, an as int) == Some(
                        Seq::<PlacementModifierV>::empty(),
                    ));
                    assert(out.deep_view().skip(out_enter.len() as int) + Seq::<
                        PlacementModifierV,
                    >::empty() =~= out.deep_view().skip(out_enter.len() as int));
                    assert(parse_modifier_list(av, 0) == Some(
                        out.deep_view().skip(out_enter.len() as int),
                    ));
                    if parse_all_modifiers(ps, i as int + 1) is Some {
                        assert(out_enter + (out.deep_view().skip(out_enter.len() as int)
                            + parse_all_modifiers(ps, i as int + 1)->Some_0) =~= out.deep_view()
                            + parse_all_modifiers(ps, i as int + 1)->Some_0);
                    }
                }
            },
            None => {
                proof {
                    assert(!(ps[i as int] is Arr));
                    assert(parse_all_modifiers(ps, i as int) is None);
                }
                return None;
            },
        }
        i = i + 1;
    }
    proof {
        assert(out.deep_view() + Seq::<PlacementModifierV>::empty() =~= out.deep_view());
    }
    Some(out)
}


/// The map this strategy always leaves alone: a test sphere, never patched.
pub fn biome_placement_skipped_map(map_path: &str) -> (r: bool)
    ensures
        r == (map_path@ == "Astro/Content/Maps/test/BasicSphereT2.umap"@),
{
    str_eq(map_path, "Astro/Content/Maps/test/BasicSphereT2.umap")
}

/// The export name a planet's voxel component carries.
pub open spec fn voxels_name(planet: Seq<char>) -> Seq<char> {
    planet + "Voxels"@
}

/// The biome-family array a modifier addresses on the voxel component.
pub open spec fn biome_prop_name(bt: BiomeType) -> Seq<char> {
    match bt {
        BiomeType::Surface => "SurfaceBiomes"@,
        BiomeType::Crust => "CrustBiome"@,
    }
}

/// The last export named `name` whose declared class is an import resolving
/// to `VoxelVolumeComponent`; the sentinel default volume never counts.
pub open spec fn voxel_export_for(g: GraphV, name: Seq<char>, upto: int) -> Option<int>
    decreases upto,
{
    if upto <= 0 {
        None
    } else {
        let e = g.exports[upto - 1];
        if e.has_properties() && e.class_index < 0 && (match import_at(g, e.class_index) {
            Some(im) => im.object_name.text == "VoxelVolumeComponent"@,
            None => false,
        }) && e.object_name.text == name && e.object_name.text != "Default Voxel Volume"@ {
            Some(upto - 1)
        } else {
            voxel_export_for(g, name, upto - 1)
        }
    }
}

/// The first placement path without a usable file stem.
pub open spec fn first_bad_stem(pl: Seq<Seq<char>>, k: int) -> Option<int>
    decreases pl.len() - k,
{
    if k < 0 || k >= pl.len() {
        None
    } else if file_stem_spec(pl[k]) is None {
        Some(k)
    } else {
        first_bad_stem(pl, k + 1)
    }
}

/// How one modifier fares against one graph: skipped for want of its voxel
/// export, fatal for this target, or anchored at a voxel export and the
/// path down to its placement-modifier array.
pub enum NavOutcome {
    Skip,
    Fatal { err: IntegratorErrorV },
    Found { vi: int, path: Seq<int> },
}

/// Navigates one modifier: voxel export by planet name, then (with every
/// placement stem checked) the biome family array, the named biome, its
/// layers, the named layer, and the placement-modifier array within it. A
/// missing voxel export skips; a missing biome, layer or property within a
/// found voxel export is fatal.
pub open spec fn modifier_outcome(g: GraphV, pm: PlacementModifierV) -> NavOutcome {
    match voxel_export_for(g, voxels_name(pm.planet_type), g.exports.len() as int) {
        None => NavOutcome::Skip,
        Some(vi) => match first_bad_stem(pm.placements, 0) {
            Some(k) => NavOutcome::Fatal {
                err: IntegratorErrorV::MalformedPatch {
                    handler: "biome_placement_modifiers"@,
                    detail: "Invalid placement "@ + pm.placements[k],
                },
            },
            None => {
                let props = g.exports[vi].properties;
                match first_prop_named(props, biome_prop_name(pm.biome_type), 0) {
                    None => NavOutcome::Fatal {
                        err: IntegratorErrorV::TargetNotFound {
                            name: "Failed to find biome type "@ + biome_prop_name(pm.biome_type),
                        },
                    },
                    Some(bp) => if !(props[bp] is Array) {
                        NavOutcome::Fatal {
                            err: IntegratorErrorV::CorruptBaseAsset {
                                detail: "Corrupted game installation"@,
                            },
                        }
                    } else {
                        match first_elem_carrying_name(children_of(props[bp]), pm.biome_name, 0) {
                            None => NavOutcome::Fatal {
                                err: IntegratorErrorV::TargetNotFound {
                                    name: "Failed to find biome "@ + pm.biome_name,
                                },
                            },
                            Some(be) => {
                                let bch = children_of(children_of(props[bp])[be]);
                                match first_prop_named(bch, "Layers"@, 0) {
                                    None => NavOutcome::Fatal {
                                        err: IntegratorErrorV::CorruptBaseAsset {
                                            detail: "Corrupted game installation"@,
                                        },
                                    },
                                    Some(lp) => if !(bch[lp] is Array) {
                                        NavOutcome::Fatal {
                                            err: IntegratorErrorV::CorruptBaseAsset {
                                                detail: "Corrupted game installation"@,
                                            },
                                        }
                                    } else {
                                        match first_elem_carrying_name(
                                            children_of(bch[lp]),
                                            pm.layer_name,
                                            0,
                                        ) {
                                            None => NavOutcome::Fatal {
                                                err: IntegratorErrorV::TargetNotFound {
                                                    name: "Failed to find layer "@ + pm.layer_name
                                                        + " for biome "@ + pm.biome_name,
                                                },
                                            },
                                            Some(le) => {
                                                let lch = children_of(children_of(bch[lp])[le]);
                                                match first_prop_named(
                                                    lch,
                                                    "ObjectPlacementModifiers"@,
                                                    0,
                                                ) {
                                                    None => NavOutcome::Fatal {
                                                        err: IntegratorErrorV::CorruptBaseAsset {
                                                            detail: "Corrupted game installation"@,
                                                        },
                                                    },
                                                    Some(op) => if !(lch[op] is Array) {
                                                        NavOutcome::Fatal {
                                                            err: IntegratorErrorV::CorruptBaseAsset {
                                                                detail: "Corrupted game installation"@,
                                                            },
                                                        }
                                                    } else {
                                                        NavOutcome::Found {
                                                            vi: vi,
                                                            path: seq![bp, be, lp, le, op],
                                                        }
                                                    },
                                                }
                                            },
                                        }
                                    },
                                }
                            },
                        }
                    },
                }
            },
        },
    }
}

/// The two-step import chain backing one placement: its package, and the
/// procedural modifier named by the path's file stem.
pub open spec fn placement_chain_steps(path: Seq<char>, stem: Seq<char>) -> Seq<
    (Seq<char>, Seq<char>, Seq<char>),
> {
    seq![("/Script/CoreUObject"@, "Package"@, path), ("/Script/Terrain2"@, "ProceduralModifier"@, stem)]
}

/// One two-step chain interned per placement path, in order.
pub open spec fn intern_placements(g: GraphV, pl: Seq<Seq<char>>, k: int) -> GraphV
    decreases pl.len() - k,
{
    if k < 0 || k >= pl.len() {
        g
    } else {
        intern_placements(
            GraphV {
                imports: g.imports + chain_views(
                    g.imports.len() as int,
                    placement_chain_steps(pl[k], file_stem_spec(pl[k])->Some_0),
                ),
                exports: g.exports,
            },
            pl,
            k + 1,
        )
    }
}

/// One object reference pushed per interned chain, onto the placement
/// array: each new element is named by the array's length at push time, so
/// element names stay distinct.
pub open spec fn push_placements(
    g: GraphV,
    vi: int,
    path: Seq<int>,
    base: int,
    count: int,
    k: int,
) -> GraphV
    decreases count - k,
{
    if k < 0 || k >= count {
        g
    } else {
        let props = g.exports[vi].properties;
        let newprop = PropertyV::Object {
            name: FNameV {
                text: dec_str(tail_children(props, path).len() as nat),
                number: 0,
            },
            value: -(base + 2 * k + 2),
            has_guid: true,
        };
        let g2 = GraphV {
            imports: g.imports,
            exports: g.exports.update(vi, export_with_pushed(g.exports[vi], path, newprop)),
        };
        push_placements(g2, vi, path, base, count, k + 1)
    }
}

/// One modifier applied at its anchor: the chains interned, then one
/// reference per chain pushed onto the placement array.
pub open spec fn apply_one_modifier(
    g: GraphV,
    vi: int,
    path: Seq<int>,
    pl: Seq<Seq<char>>,
) -> GraphV {
    push_placements(
        intern_placements(g, pl, 0),
        vi,
        path,
        g.imports.len() as int,
        pl.len() as int,
        0,
    )
}

/// Every modifier applied in order; skipped and fatal ones change nothing.
/// Anchors are navigated on the unpatched graph `g0`: the surgery never
/// moves them.
pub open spec fn apply_modifiers(
    g: GraphV,
    g0: GraphV,
    pms: Seq<PlacementModifierV>,
    m: int,
) -> GraphV
    decreases pms.len() - m,
{
    if m < 0 || m >= pms.len() {
        g
    } else {
        match modifier_outcome(g0, pms[m]) {
            NavOutcome::Found { vi, path } => apply_modifiers(
                apply_one_modifier(g, vi, path, pms[m].placements),
                g0,
                pms,
                m + 1,
            ),
            _ => apply_modifiers(g, g0, pms, m + 1),
        }
    }
}

/// The warning recorded for each skipped modifier, in order.
pub open spec fn skip_warnings(g0: GraphV, pms: Seq<PlacementModifierV>, m: int) -> Seq<Seq<char>>
    decreases pms.len() - m,
{
    if m < 0 || m >= pms.len() {
        Seq::empty()
    } else {
        let rest = skip_warnings(g0, pms, m + 1);
        if modifier_outcome(g0, pms[m]) is Skip {
            seq!["Failed to find voxel export "@ + voxels_name(pms[m].planet_type)] + rest
        } else {
            rest
        }
    }
}

/// The error of the first modifier that is fatal for this target, if any.
pub open spec fn first_fatal(g0: GraphV, pms: Seq<PlacementModifierV>, m: int) -> Option<
    IntegratorErrorV,
>
    decreases pms.len() - m,
{
    if m < 0 || m >= pms.len() {
        None
    } else {
        match modifier_outcome(g0, pms[m]) {
            NavOutcome::Fatal { err } => Some(err),
            _ => first_fatal(g0, pms, m + 1),
        }
    }
}

/// The number of placement paths over all modifiers, bounding how many
/// imports one call can intern.
pub open spec fn total_placements(pms: Seq<PlacementModifierV>) -> int
    decreases pms.len(),
{
    if pms.len() == 0 {
        0
    } else {
        total_placements(pms.drop_last()) + pms.last().placements.len()
    }
}


proof fn lemma_not_corrupt_at(g: GraphV, i: int, n: int)
    requires
        0 <= i < n,
        n == g.exports.len(),
        !scan_corrupt(g, n),
        g.exports[i].has_properties(),
        g.exports[i].class_index < 0,
    ensures
        import_at(g, g.exports[i].class_index) is Some,
{
    if import_at(g, g.exports[i].class_index) is None {
        assert(scan_corrupt(g, i + 1));
        lemma_scan_corrupt_mono(g, i + 1, n);
    }
}

/// Checks that every export's declared class import resolves: the ground
/// the scans stand on.
fn check_class_imports(g: &AssetGraph) -> (r: Result<(), IntegratorError>)
    ensures
        ({
            let gv = g.deep_view();
            match r {
                Ok(u) => !scan_corrupt(gv, gv.exports.len() as int),
                Err(e) => scan_corrupt(gv, gv.exports.len() as int) && e.deep_view() == (
                IntegratorErrorV::CorruptBaseAsset { detail: "Corrupted game installation"@ }),
            }
        }),
{
    let ghost gv = g.deep_view();
    let n = g.exports.len();
    let mut i: usize = 0;
    while i < n
        invariant
            i <= n,
            n == g.exports@.len(),
            gv == g.deep_view(),
            gv.exports.len() == n,
            !scan_corrupt(gv, i as int),
        decreases n - i,
    {
        proof {
            assert(gv.exports[i as int] == g.exports@[i as int].deep_view());
        }
        let e = &g.exports[i];
        let normal_like = match &e.kind {
            crate::graph::ExportKind::Normal => true,
            crate::graph::ExportKind::Class { .. } => true,
            _ => false,
        };
        if normal_like && e.class_index < 0 {
            match get_import(g, e.class_index) {
                Some(_) => {},
                None => {
                    proof {
                        assert(scan_corrupt(gv, i as int + 1));
                        lemma_scan_corrupt_mono(gv, i as int + 1, n as int);
                    }
                    return Err(
                        IntegratorError::CorruptBaseAsset {
                            detail: "Corrupted game installation".to_owned(),
                        },
                    );
                },
            }
        }
        i = i + 1;
    }
    Ok(())
}

/// Whatever export the voxel lookup settles on is live and carries its
/// property list.
proof fn lemma_voxel_export_props(g: GraphV, name: Seq<char>, upto: int)
    requires
        upto <= g.exports.len(),
    ensures
        match voxel_export_for(g, name, upto) {
            Some(vi) => 0 <= vi < upto && g.exports[vi].has_properties(),
            None => true,
        },
    decreases upto,
{
    if upto > 0 {
        lemma_voxel_export_props(g, name, upto - 1);
    }
}

/// The last voxel export of the given name; agrees with
/// [`voxel_export_for`].
fn find_voxel_export(g: &AssetGraph, name: &str) -> (r: Option<usize>)
    requires
        !scan_corrupt(g.deep_view(), g.deep_view().exports.len() as int),
    ensures
        ({
            let gv = g.deep_view();
            match r {
                Some(vi) => voxel_export_for(gv, name@, gv.exports.len() as int) == Some(
                    vi as int,
                ) && vi < gv.exports.len(),
                None => voxel_export_for(gv, name@, gv.exports.len() as int) is None,
            }
        }),
{
    let ghost gv = g.deep_view();
    let n = g.exports.len();
    let mut i: usize = 0;
    let mut best: Option<usize> = None;
    while i < n
        invariant
            i <= n,
            n == g.exports@.len(),
            gv == g.deep_view(),
            gv.exports.len() == n,
            !scan_corrupt(gv, n as int),
            match best {
                Some(vi) => voxel_export_for(gv, name@, i as int) == Some(vi as int) && vi < n,
                None => voxel_export_for(gv, name@, i as int) is None,
            },
        decreases n - i,
    {
        proof {
            assert(gv.exports[i as int] == g.exports@[i as int].deep_view());
        }
        let e = &g.exports[i];
        let normal_like = match &e.kind {
            crate::graph::ExportKind::Normal => true,
            crate::graph::ExportKind::Class { .. } => true,
            _ => false,
        };
        if normal_like && e.class_index < 0 {
            let class_hit = match get_import(g, e.class_index) {
                Some(im) => str_eq(im.object_name.text.as_str(), "VoxelVolumeComponent"),
                None => {
                    proof {
                        lemma_not_corrupt_at(gv, i as int, n as int);
                    }
                    false
                },
            };
            if class_hit && str_eq(e.object_name.text.as_str(), name) && !str_eq(
                e.object_name.text.as_str(),
                "Default Voxel Volume",
            ) {
                best = Some(i);
            }
        }
        i = i + 1;
    }
    best
}

proof fn lemma_first_bad_stem_none(pl: Seq<Seq<char>>, k: int)
    requires
        0 <= k,
        first_bad_stem(pl, k) is None,
    ensures
        forall|w: int| k <= w < pl.len() ==> file_stem_spec(#[trigger] pl[w]) is Some,
    decreases pl.len() - k,
{
    if 0 <= k < pl.len() {
        lemma_first_bad_stem_none(pl, k + 1);
    }
}

/// Navigates one modifier against the graph; agrees with
/// [`modifier_outcome`], handing back the anchor as concrete positions.
fn navigate_modifier(g: &AssetGraph, pm: &PlacementModifier) -> (r: Result<
    Option<(usize, Vec<usize>)>,
    IntegratorError,
>)
    requires
        !scan_corrupt(g.deep_view(), g.deep_view().exports.len() as int),
    ensures
        ({
            let gv = g.deep_view();
            let o = modifier_outcome(gv, pm.deep_view());
            match r {
                Ok(a) => match a {
                    None => o is Skip,
                    Some(p) => {
                        &&& o matches NavOutcome::Found { vi, path } && vi == p.0 as int && path
                            == idxs_of(p.1@)
                        &&& p.0 < gv.exports.len()
                        &&& path_valid(gv.exports[p.0 as int].properties, idxs_of(p.1@))
                    },
                },
                Err(e) => o matches NavOutcome::Fatal { err } && err == e.deep_view(),
            }
        }),
{
    let ghost gv = g.deep_view();
    let ghost pmv = pm.deep_view();
    let vname = concat_str(pm.planet_type.as_str(), "Voxels");
    let vi = match find_voxel_export(g, vname.as_str()) {
        Some(vi) => vi,
        None => {
            return Ok(None);
        },
    };
    // Every placement must have a usable file stem before anything else.
    let ghost plv = pmv.placements;
    let pn = pm.placements.len();
    let mut k: usize = 0;
    while k < pn
        invariant
            k <= pn,
            pn == pm.placements@.len(),
            plv == pm.placements.deep_view(),
            plv.len() == pn,
            gv == g.deep_view(),
            pmv == pm.deep_view(),
            voxel_export_for(gv, voxels_name(pmv.planet_type), gv.exports.len() as int) == Some(
                vi as int,
            ),
            first_bad_stem(plv, 0) == first_bad_stem(plv, k as int),
        decreases pn - k,
    {
        proof {
            assert(plv[k as int] == pm.placements@[k as int]@);
        }
        match file_stem_of(pm.placements[k].as_str()) {
            Some(_) => {},
            None => {
                proof {
                    assert(first_bad_stem(plv, k as int) == Some(k as int));
                }
                return Err(
                    IntegratorError::MalformedPatch {
                        handler: "biome_placement_modifiers".to_owned(),
                        detail: concat_str("Invalid placement ", pm.placements[k].as_str()),
                    },
                );
            },
        }
        k = k + 1;
    }
    proof {
        assert(first_bad_stem(plv, 0) is None);
        lemma_voxel_export_props(gv, voxels_name(pmv.planet_type), gv.exports.len() as int);
        assert(gv.exports[vi as int] == g.exports@[vi as int].deep_view());
        lemma_prop_views(g.exports@[vi as int].properties@);
    }
    let e = &g.exports[vi];
    let ghost props = gv.exports[vi as int].properties;
    let bname: &str = match pm.biome_type {
        BiomeType::Surface => "SurfaceBiomes",
        BiomeType::Crust => "CrustBiome",
    };
    proof {
        assert(bname@ == biome_prop_name(pmv.biome_type));
    }
    let bp = match find_property(&e.properties, bname) {
        Some(bp) => bp,
        None => {
            return Err(
                IntegratorError::TargetNotFound {
                    name: concat_str("Failed to find biome type ", bname),
                },
            );
        },
    };
    proof {
        assert(props[bp as int] == e.properties@[bp as int].deep_view());
    }
    match &e.properties[bp] {
        Property::Array { value: bvals, .. } => {
            proof {
                assert(children_of(props[bp as int]) == prop_views(bvals@));
                lemma_prop_views(bvals@);
            }
            let be = match find_struct_elem_carrying_name(bvals, pm.biome_name.as_str()) {
                Some(be) => be,
                None => {
                    return Err(
                        IntegratorError::TargetNotFound {
                            name: concat_str("Failed to find biome ", pm.biome_name.as_str()),
                        },
                    );
                },
            };
            proof {
                lemma_first_elem_carrying_name_props(prop_views(bvals@), pmv.biome_name, 0);
                assert(prop_views(bvals@)[be as int] == bvals@[be as int].deep_view());
            }
            match &bvals[be] {
                Property::Struct { value: bch, .. } => {
                    proof {
                        assert(children_of(prop_views(bvals@)[be as int]) == prop_views(bch@));
                        lemma_prop_views(bch@);
                    }
                    let lp = match find_property(bch, "Layers") {
                        Some(lp) => lp,
                        None => {
                            return Err(
                                IntegratorError::CorruptBaseAsset {
                                    detail: "Corrupted game installation".to_owned(),
                                },
                            );
                        },
                    };
                    proof {
                        assert(prop_views(bch@)[lp as int] == bch@[lp as int].deep_view());
                    }
                    match &bch[lp] {
                        Property::Array { value: lvals, .. } => {
                            proof {
                                assert(children_of(prop_views(bch@)[lp as int]) == prop_views(
                                    lvals@,
                                ));
                                lemma_prop_views(lvals@);
                            }
                            let le = match find_struct_elem_carrying_name(
                                lvals,
                                pm.layer_name.as_str(),
                            ) {
                                Some(le) => le,
                                None => {
                                    let head = concat_str(
                                        "Failed to find layer ",
                                        pm.layer_name.as_str(),
                                    );
                                    let mid = concat_str(head.as_str(), " for biome ");
                                    return Err(
                                        IntegratorError::TargetNotFound {
                                            name: concat_str(mid.as_str(), pm.biome_name.as_str()),
                                        },
                                    );
                                },
                            };
                            proof {
                                lemma_first_elem_carrying_name_props(
                                    prop_views(lvals@),
                                    pmv.layer_name,
                                    0,
                                );
                                assert(prop_views(lvals@)[le as int] == lvals@[
                                    le as int].deep_view());
                            }
                            match &lvals[le] {
                                Property::Struct { value: lch, .. } => {
                                    proof {
                                        assert(children_of(prop_views(lvals@)[le as int])
                                            == prop_views(lch@));
                                        lemma_prop_views(lch@);
                                    }
                                    let op = match find_property(lch, "ObjectPlacementModifiers") {
                                        Some(op) => op,
                                        None => {
                                            return Err(
                                                IntegratorError::CorruptBaseAsset {
                                                    detail: "Corrupted game installation"
                                                        .to_owned(),
                                                },
                                            );
                                        },
                                    };
                                    proof {
                                        assert(prop_views(lch@)[op as int] == lch@[
                                            op as int].deep_view());
                                    }
                                    match &lch[op] {
                                        Property::Array { .. } => {
                                            let mut path: Vec<usize> = Vec::new();
                                            path.push(bp);
                                            path.push(be);
                                            path.push(lp);
                                            path.push(le);
                                            path.push(op);
                                            proof {
                                                assert(idxs_of(path@) =~= seq![
                                                    bp as int,
                                                    be as int,
                                                    lp as int,
                                                    le as int,
                                                    op as int,
                                                ]);
                                                assert(path_valid(
                                                    children_of(prop_views(lvals@)[le as int]),
                                                    seq![op as int],
                                                ));
                                                assert(seq![le as int, op as int].drop_first()
                                                    =~= seq![op as int]);
                                                assert(seq![lp as int, le as int, op as int]
                                                    .drop_first() =~= seq![le as int, op as int]);
                                                assert(seq![
                                                    be as int,
                                                    lp as int,
                                                    le as int,
                                                    op as int,
                                                ].drop_first() =~= seq![
                                                    lp as int,
                                                    le as int,
                                                    op as int,
                                                ]);
                                                assert(seq![
                                                    bp as int,
                                                    be as int,
                                                    lp as int,
                                                    le as int,
                                                    op as int,
                                                ].drop_first() =~= seq![
                                                    be as int,
                                                    lp as int,
                                                    le as int,
                                                    op as int,
                                                ]);
                                                assert(path_valid(
                                                    children_of(prop_views(bch@)[lp as int]),
                                                    seq![le as int, op as int],
                                                ));
                                                assert(path_valid(
                                                    children_of(prop_views(bvals@)[be as int]),
                                                    seq![lp as int, le as int, op as int],
                                                ));
                                                assert(path_valid(
                                                    children_of(props[bp as int]),
                                                    seq![be as int, lp as int, le as int, op as int],
                                                ));
                                                assert(path_valid(props, idxs_of(path@)));
                                                assert(modifier_outcome(gv, pmv)
                                                    == NavOutcome::Found {
                                                    vi: vi as int,
                                                    path: idxs_of(path@),
                                                });
                                            }
                                            Ok(Some((vi, path)))
                                        },
                                        _ => {
                                            return Err(
                                                IntegratorError::CorruptBaseAsset {
                                                    detail: "Corrupted game installation"
                                                        .to_owned(),
                                                },
                                            );
                                        },
                                    }
                                },
                                _ => {
                                    proof {
                                        assert(false);
                                    }
                                    Err(
                                        IntegratorError::CorruptBaseAsset {
                                            detail: "Corrupted game installation".to_owned(),
                                        },
                                    )
                                },
                            }
                        },
                        _ => {
                            return Err(
                                IntegratorError::CorruptBaseAsset {
                                    detail: "Corrupted game installation".to_owned(),
                                },
                            );
                        },
                    }
                },
                _ => {
                    proof {
                        assert(false);
                    }
                    Err(
                        IntegratorError::CorruptBaseAsset {
                            detail: "Corrupted game installation".to_owned(),
                        },
                    )
                },
            }
        },
        _ => {
            return Err(
                IntegratorError::CorruptBaseAsset {
                    detail: "Corrupted game installation".to_owned(),
                },
            );
        },
    }
}


proof fn lemma_total_placements_take(pms: Seq<PlacementModifierV>, m: int)
    requires
        0 <= m < pms.len(),
    ensures
        total_placements(pms.take(m + 1)) == total_placements(pms.take(m)) + pms[m].placements.len(),
{
    assert(pms.take(m + 1).drop_last() =~= pms.take(m));
    assert(pms.take(m + 1).last() == pms[m]);
}

proof fn lemma_total_placements_nonneg(pms: Seq<PlacementModifierV>, m: int)
    requires
        0 <= m <= pms.len(),
    ensures
        0 <= total_placements(pms.take(m)),
    decreases m,
{
    if m > 0 {
        lemma_total_placements_nonneg(pms, m - 1);
        lemma_total_placements_take(pms, m - 1);
    } else {
        assert(pms.take(0) =~= Seq::<PlacementModifierV>::empty());
    }
}

proof fn lemma_total_placements_prefix(pms: Seq<PlacementModifierV>, m: int)
    requires
        0 <= m <= pms.len(),
    ensures
        total_placements(pms.take(m)) <= total_placements(pms),
    decreases pms.len() - m,
{
    if m < pms.len() {
        lemma_total_placements_take(pms, m);
        lemma_total_placements_prefix(pms, m + 1);
    } else {
        assert(pms.take(pms.len() as int) =~= pms);
    }
}

/// Applies the biome placement modifier strategy to one decoded map graph.
///
/// The per-mod patches are parsed and concatenated in priority order. Each
/// modifier whose planet has no voxel component export is skipped with a
/// warning; each anchored one gets one fresh two-step import chain per
/// placement path and one object reference per chain appended to the
/// placement-modifier array of the addressed biome layer. A missing biome,
/// layer or array inside a found voxel export is fatal for this target. On
/// any error the graph is left exactly as it was; on success the warnings
/// for the skipped modifiers come back in order.
pub fn handle_biome_placement_modifiers(g: &mut AssetGraph, patches: &Vec<Json>) -> (r: Result<
    Vec<String>,
    IntegratorError,
>)
    requires
        (match parse_all_modifiers(json_views(patches@), 0) {
            Some(pms) => old(g).imports@.len() + 2 * total_placements(pms) < 0x7fff_ffff,
            None => true,
        }),
    ensures
        ({
            let g0 = old(g).deep_view();
            let pms_o = parse_all_modifiers(json_views(patches@), 0);
            match r {
                Ok(warnings) => {
                    &&& pms_o is Some
                    &&& !scan_corrupt(g0, g0.exports.len() as int)
                    &&& first_fatal(g0, pms_o->Some_0, 0) is None
                    &&& final(g).deep_view() == apply_modifiers(g0, g0, pms_o->Some_0, 0)
                    &&& warnings.deep_view() == skip_warnings(g0, pms_o->Some_0, 0)
                },
                Err(e) => final(g).deep_view() == g0 && {
                    ||| (pms_o is None && e.deep_view() == (IntegratorErrorV::MalformedPatch {
                        handler: "biome_placement_modifiers"@,
                        detail: "Invalid placement modifiers"@,
                    }))
                    ||| (pms_o is Some && scan_corrupt(g0, g0.exports.len() as int)
                        && e.deep_view() == (IntegratorErrorV::CorruptBaseAsset {
                        detail: "Corrupted game installation"@,
                    }))
                    ||| (pms_o is Some && !scan_corrupt(g0, g0.exports.len() as int)
                        && first_fatal(g0, pms_o->Some_0, 0) == Some(e.deep_view()))
                },
            }
        }),
{
    let ghost g0 = old(g).deep_view();
    let modifiers = match parse_placement_modifiers(patches) {
        Some(v) => v,
        None => {
            return Err(
                IntegratorError::MalformedPatch {
                    handler: "biome_placement_modifiers".to_owned(),
                    detail: "Invalid placement modifiers".to_owned(),
                },
            );
        },
    };
    let ghost pms = modifiers.deep_view();
    match check_class_imports(g) {
        Ok(u) => {},
        Err(e) => {
            proof {
                assert(g.deep_view() == g0);
                assert(scan_corrupt(g0, g0.exports.len() as int));
                assert(parse_all_modifiers(json_views(patches@), 0) is Some);
                assert(e.deep_view() == (IntegratorErrorV::CorruptBaseAsset {
                    detail: "Corrupted game installation"@,
                }));
            }
            return Err(e);
        },
    }
    // Navigate every modifier before touching the graph.
    let mn = modifiers.len();
    let mut outcomes: Vec<Option<(usize, Vec<usize>)>> = Vec::new();
    let mut m: usize = 0;
    while m < mn
        invariant
            m <= mn,
            mn == modifiers@.len(),
            pms == modifiers.deep_view(),
            pms.len() == mn,
            parse_all_modifiers(json_views(patches@), 0) == Some(pms),
            g.deep_view() == g0,
            !scan_corrupt(g0, g0.exports.len() as int),
            outcomes@.len() == m,
            first_fatal(g0, pms, 0) == first_fatal(g0, pms, m as int),
            forall|x: int| 0 <= x < m ==> match #[trigger] outcomes@[x] {
                None => modifier_outcome(g0, pms[x]) is Skip,
                Some(p) => {
                    &&& modifier_outcome(g0, pms[x]) matches NavOutcome::Found { vi, path } && vi
                        == p.0 as int && path == idxs_of(p.1@)
                    &&& p.0 < g0.exports.len()
                    &&& path_valid(g0.exports[p.0 as int].properties, idxs_of(p.1@))
                },
            },
        decreases mn - m,
    {
        proof {
            assert(pms[m as int] == modifiers@[m as int].deep_view());
        }
        match navigate_modifier(g, &modifiers[m]) {
            Ok(o) => {
                outcomes.push(o);
            },
            Err(e) => {
                proof {
                    assert(first_fatal(g0, pms, m as int) == Some(e.deep_view()));
                }
                return Err(e);
            },
        }
        m = m + 1;
    }
    proof {
        assert(first_fatal(g0, pms, 0) is None);
    }
    // Apply.
    let mut warnings: Vec<String> = Vec::new();
    let mut m2: usize = 0;
    while m2 < mn
        invariant
            m2 <= mn,
            mn == modifiers@.len(),
            pms == modifiers.deep_view(),
            pms.len() == mn,
            parse_all_modifiers(json_views(patches@), 0) == Some(pms),
            !scan_corrupt(g0, g0.exports.len() as int),
            first_fatal(g0, pms, 0) is None,
            outcomes@.len() == mn,
            g0.imports.len() + 2 * total_placements(pms) < 0x7fff_ffff,
            forall|x: int| 0 <= x < mn ==> match #[trigger] outcomes@[x] {
                None => modifier_outcome(g0, pms[x]) is Skip,
                Some(p) => {
                    &&& modifier_outcome(g0, pms[x]) matches NavOutcome::Found { vi, path } && vi
                        == p.0 as int && path == idxs_of(p.1@)
                    &&& p.0 < g0.exports.len()
                    &&& path_valid(g0.exports[p.0 as int].properties, idxs_of(p.1@))
                },
            },
            g.deep_view().exports.len() == g0.exports.len(),
            forall|x: int|
                0 <= x < mn && #[trigger] outcomes@[x] is Some ==> path_valid(
                    g.deep_view().exports[outcomes@[x]->Some_0.0 as int].properties,
                    idxs_of(outcomes@[x]->Some_0.1@),
                ),
            g.deep_view().imports.len() <= g0.imports.len() + 2 * total_placements(
                pms.take(m2 as int),
            ),
            apply_modifiers(g0, g0, pms, 0) == apply_modifiers(g.deep_view(), g0, pms, m2 as int),
            skip_warnings(g0, pms, 0) == warnings.deep_view() + skip_warnings(g0, pms, m2 as int),
        decreases mn - m2,
    {
        let ghost gpre = g.deep_view();
        proof {
            assert(pms[m2 as int] == modifiers@[m2 as int].deep_view());
            lemma_total_placements_take(pms, m2 as int);
            lemma_total_placements_nonneg(pms, m2 as int);
            lemma_total_placements_nonneg(pms, m2 as int + 1);
            lemma_total_placements_prefix(pms, m2 as int + 1);
        }
        match &outcomes[m2] {
            None => {
                let w = concat_str(
                    "Failed to find voxel export ",
                    concat_str(modifiers[m2].planet_type.as_str(), "Voxels").as_str(),
                );
                let ghost wv = warnings.deep_view();
                warnings.push(w);
                proof {
                    assert(modifier_outcome(g0, pms[m2 as int]) is Skip);
                    assert(warnings.deep_view() =~= wv.push(
                        "Failed to find voxel export "@ + voxels_name(pms[m2 as int].planet_type),
                    ));
                    assert(wv + (seq![
                        "Failed to find voxel export "@ + voxels_name(pms[m2 as int].planet_type),
                    ] + skip_warnings(g0, pms, m2 as int + 1)) =~= warnings.deep_view()
                        + skip_warnings(g0, pms, m2 as int + 1));
                }
            },
            Some(anchor) => {
                let vi = anchor.0;
                let path = &anchor.1;
                let ghost pathv = idxs_of(path@);
                let ghost pmv = pms[m2 as int];
                let ghost plv = pmv.placements;
                proof {
                    assert(modifier_outcome(g0, pmv) matches NavOutcome::Found { vi: v, path: p }
                        && v == vi as int && p == pathv);
                    assert(modifier_outcome(g0, pmv) is Found ==> first_bad_stem(plv, 0) is None);
                    lemma_first_bad_stem_none(plv, 0);
                }
                let pl = &modifiers[m2].placements;
                let ghost base = gpre.imports.len() as int;
                let pn = pl.len();
                // Intern one chain per placement.
                let mut chains: Vec<i32> = Vec::new();
                let mut k: usize = 0;
                while k < pn
                    invariant
                        k <= pn,
                        pn == pl@.len(),
                        plv == pl.deep_view(),
                        plv.len() == pn,
                        forall|w: int| 0 <= w < pn ==> file_stem_spec(#[trigger] plv[w]) is Some,
                        base == gpre.imports.len(),
                        base + 2 * pn <= g0.imports.len() + 2 * total_placements(pms),
                        g0.imports.len() + 2 * total_placements(pms) < 0x7fff_ffff,
                        g.deep_view().imports.len() == base + 2 * k,
                        g.deep_view().exports == gpre.exports,
                        chains@.len() == k,
                        forall|w: int| 0 <= w < k ==> #[trigger] chains@[w] as int == -(base + 2
                            * w + 2),
                        intern_placements(gpre, plv, 0) == intern_placements(
                            g.deep_view(),
                            plv,
                            k as int,
                        ),
                    decreases pn - k,
                {
                    proof {
                        assert(plv[k as int] == pl@[k as int]@);
                    }
                    let stem = match file_stem_of(pl[k].as_str()) {
                        Some(st) => st,
                        None => {
                            proof {
                                assert(file_stem_spec(plv[k as int]) is Some);
                                assert(false);
                            }
                            String::new()
                        },
                    };
                    let mut steps: Vec<(String, String, String)> = Vec::new();
                    steps.push(
                        ("/Script/CoreUObject".to_owned(), "Package".to_owned(), pl[k].clone()),
                    );
                    steps.push(
                        ("/Script/Terrain2".to_owned(), "ProceduralModifier".to_owned(), stem),
                    );
                    proof {
                        assert(steps.deep_view() =~~= placement_chain_steps(
                            plv[k as int],
                            file_stem_spec(plv[k as int])->Some_0,
                        ));
                    }
                    let ghost gmid = g.deep_view();
                    let c = intern_import_chain(g, &steps);
                    chains.push(c);
                    proof {
                        assert(intern_placements(gmid, plv, k as int) == intern_placements(
                            g.deep_view(),
                            plv,
                            k as int + 1,
                        ));
                    }
                    k = k + 1;
                }
                proof {
                    assert(intern_placements(g.deep_view(), plv, pn as int) == g.deep_view());
                }
                // Push one reference per chain.
                let ghost ginterned = g.deep_view();
                let mut k2: usize = 0;
                while k2 < pn
                    invariant
                        k2 <= pn,
                        pn == pl@.len(),
                        plv == pl.deep_view(),
                        plv.len() == pn,
                        mn == modifiers@.len(),
                        pms.len() == mn,
                        m2 < mn,
                        outcomes@.len() == mn,
                        vi < g0.exports.len(),
                        base == gpre.imports.len(),
                        chains@.len() == pn,
                        forall|w: int| 0 <= w < pn ==> #[trigger] chains@[w] as int == -(base + 2
                            * w + 2),
                        g.deep_view().imports == ginterned.imports,
                        g.deep_view().exports.len() == g0.exports.len(),
                        forall|x: int| 0 <= x < mn ==> match #[trigger] outcomes@[x] {
                            None => modifier_outcome(g0, pms[x]) is Skip,
                            Some(p) => {
                                &&& modifier_outcome(g0, pms[x]) matches NavOutcome::Found {
                                    vi: v,
                                    path: pp,
                                } && v == p.0 as int && pp == idxs_of(p.1@)
                                &&& p.0 < g0.exports.len()
                                &&& path_valid(g0.exports[p.0 as int].properties, idxs_of(p.1@))
                            },
                        },
                        forall|x: int|
                            0 <= x < mn && #[trigger] outcomes@[x] is Some ==> path_valid(
                                g.deep_view().exports[outcomes@[x]->Some_0.0 as int].properties,
                                idxs_of(outcomes@[x]->Some_0.1@),
                            ),
                        outcomes@[m2 as int] matches Some(a) && a.0 == vi && idxs_of(a.1@)
                            == pathv,
                        path@ == outcomes@[m2 as int]->Some_0.1@,
                        push_placements(ginterned, vi as int, pathv, base, pn as int, 0)
                            == push_placements(
                            g.deep_view(),
                            vi as int,
                            pathv,
                            base,
                            pn as int,
                            k2 as int,
                        ),
                    decreases pn - k2,
                {
                    let ghost gpre_k = g.deep_view();
                    proof {
                        assert(outcomes@[m2 as int] is Some);
                        assert(idxs_of(path@) == pathv);
                        assert(path_valid(
                            g.deep_view().exports[vi as int].properties,
                            pathv,
                        ));
                        assert(pathv.len() > 0);
                        assert(idxs_of(path@).len() == path@.len());
                        assert(g.deep_view().exports[vi as int] == g.exports@[
                            vi as int].deep_view());
                        lemma_prop_views(g.exports@[vi as int].properties@);
                        assert(idxs_of(path@).skip(0) =~= idxs_of(path@));
                    }
                    let cur_len: usize = {
                        let e = &g.exports[vi];
                        len_at_path(&e.properties, path, 0)
                    };
                    let name_text = u64_to_string(cur_len as u64);
                    let newprop = Property::Object {
                        name: FName { text: name_text, number: 0 },
                        value: chains[k2],
                        has_guid: true,
                    };
                    let ghost npv = newprop.deep_view();
                    push_to_export_array(g, vi, path, newprop);
                    proof {
                        assert(npv == PropertyV::Object {
                            name: FNameV {
                                text: dec_str(
                                    tail_children(
                                        gpre_k.exports[vi as int].properties,
                                        pathv,
                                    ).len() as nat,
                                ),
                                number: 0,
                            },
                            value: -(base + 2 * (k2 as int) + 2),
                            has_guid: true,
                        });
                        assert(push_placements(gpre_k, vi as int, pathv, base, pn as int, k2 as int)
                            == push_placements(
                            g.deep_view(),
                            vi as int,
                            pathv,
                            base,
                            pn as int,
                            k2 as int + 1,
                        ));
                        assert forall|x: int|
                            0 <= x < mn && #[trigger] outcomes@[x] is Some implies path_valid(
                            g.deep_view().exports[outcomes@[x]->Some_0.0 as int].properties,
                            idxs_of(outcomes@[x]->Some_0.1@),
                        ) by {
                            let xi = outcomes@[x]->Some_0.0 as int;
                            let xp = idxs_of(outcomes@[x]->Some_0.1@);
                            if xi == vi as int {
                                lemma_push_preserves_path_valid(
                                    gpre_k.exports[vi as int].properties,
                                    pathv,
                                    xp,
                                    npv,
                                );
                            } else {
                                assert(g.deep_view().exports[xi] == gpre_k.exports[xi]);
                            }
                        }
                    }
                    k2 = k2 + 1;
                }
                proof {
                    assert(push_placements(g.deep_view(), vi as int, pathv, base, pn as int, pn as int)
                        == g.deep_view());
                    assert(apply_one_modifier(gpre, vi as int, pathv, plv) == g.deep_view());
                    assert(apply_modifiers(gpre, g0, pms, m2 as int) == apply_modifiers(
                        g.deep_view(),
                        g0,
                        pms,
                        m2 as int + 1,
                    ));
                    assert(skip_warnings(g0, pms, m2 as int) == skip_warnings(
                        g0,
                        pms,
                        m2 as int + 1,
                    ));
                    assert(g.deep_view().imports.len() == base + 2 * pn);
                    assert(g.deep_view().imports.len() <= g0.imports.len() + 2 * total_placements(
                        pms.take(m2 as int + 1),
                    ));
                }
            },
        }
        m2 = m2 + 1;
    }
    proof {
        assert(apply_modifiers(g.deep_view(), g0, pms, mn as int) == g.deep_view());
        assert(skip_warnings(g0, pms, mn as int) =~= Seq::<Seq<char>>::empty());
        assert(warnings.deep_view() + Seq::<Seq<char>>::empty() =~= warnings.deep_view());
    }
    Ok(warnings)
}


proof fn lemma_intern_placements_wf(g: GraphV, pl: Seq<Seq<char>>, k: int)
    requires
        crate::graph::graph_wf(g),
        0 <= k <= pl.len(),
    ensures
        ({
            let r = intern_placements(g, pl, k);
            &&& crate::graph::graph_wf(r)
            &&& r.exports == g.exports
            &&& r.imports.len() == g.imports.len() + 2 * (pl.len() - k)
        }),
    decreases pl.len() - k,
{
    if k < pl.len() {
        let steps = placement_chain_steps(pl[k], file_stem_spec(pl[k])->Some_0);
        let g1 = GraphV {
            imports: g.imports + crate::mutator::chain_views(g.imports.len() as int, steps),
            exports: g.exports,
        };
        assert(crate::graph::graph_extends(g1, g));
        assert forall|x: int| 0 <= x < g1.imports.len() implies crate::graph::import_valid(
            g1,
            #[trigger] g1.imports[x],
        ) by {
            if x < g.imports.len() {
                assert(g1.imports[x] == g.imports[x]);
                assert(crate::graph::import_valid(g, g.imports[x]));
            } else {
                crate::mutator::lemma_chain_views_valid(g, g1, g.imports.len() as int, steps);
                assert(crate::mutator::import_valid_at(g1, x));
            }
        }
        assert forall|x: int| 0 <= x < g1.exports.len() implies crate::graph::export_valid(
            g1,
            #[trigger] g1.exports[x],
        ) by {
            assert(g1.exports[x] == g.exports[x]);
            assert(crate::graph::export_valid(g, g.exports[x]));
            crate::graph::lemma_export_valid_mono(g, g1, g.exports[x]);
        }
        assert(crate::graph::graph_wf(g1));
        lemma_intern_placements_wf(g1, pl, k + 1);
    }
}

proof fn lemma_push_placements_wf(
    g: GraphV,
    vi: int,
    path: Seq<int>,
    base: int,
    count: int,
    k: int,
)
    requires
        crate::graph::graph_wf(g),
        0 <= vi < g.exports.len(),
        path_valid(g.exports[vi].properties, path),
        0 <= base,
        0 <= k <= count,
        base + 2 * count <= g.imports.len(),
    ensures
        ({
            let r = push_placements(g, vi, path, base, count, k);
            &&& crate::graph::graph_wf(r)
            &&& r.imports == g.imports
            &&& r.exports.len() == g.exports.len()
            &&& forall|x: int|
                0 <= x < g.exports.len() && x != vi ==> r.exports[x] == #[trigger] g.exports[x]
            &&& path_valid(r.exports[vi].properties, path)
        }),
    decreases count - k,
{
    if k < count {
        let props = g.exports[vi].properties;
        let newprop = PropertyV::Object {
            name: FNameV {
                text: dec_str(tail_children(props, path).len() as nat),
                number: 0,
            },
            value: -(base + 2 * k + 2),
            has_guid: true,
        };
        assert(crate::graph::prop_valid(g, newprop));
        let e2 = export_with_pushed(g.exports[vi], path, newprop);
        let g2 = GraphV { imports: g.imports, exports: g.exports.update(vi, e2) };
        assert(crate::graph::graph_extends(g2, g));
        assert forall|x: int| 0 <= x < g2.exports.len() implies crate::graph::export_valid(
            g2,
            #[trigger] g2.exports[x],
        ) by {
            assert(crate::graph::export_valid(g, g.exports[x]));
            crate::graph::lemma_export_valid_mono(g, g2, g.exports[x]);
            if x == vi {
                crate::mutator::lemma_export_with_pushed_path_valid(
                    g2,
                    g.exports[vi],
                    path,
                    newprop,
                );
            } else {
                assert(g2.exports[x] == g.exports[x]);
            }
        }
        assert forall|x: int| 0 <= x < g2.imports.len() implies crate::graph::import_valid(
            g2,
            #[trigger] g2.imports[x],
        ) by {
            assert(crate::graph::import_valid(g, g.imports[x]));
        }
        assert(crate::graph::graph_wf(g2));
        lemma_push_preserves_path_valid(g.exports[vi].properties, path, path, newprop);
        assert(g2.exports[vi].properties == props_pushed_at(
            g.exports[vi].properties,
            path,
            newprop,
        ));
        lemma_push_placements_wf(g2, vi, path, base, count, k + 1);
        assert forall|x: int|
            0 <= x < g.exports.len() && x != vi implies push_placements(
            g2,
            vi,
            path,
            base,
            count,
            k + 1,
        ).exports[x] == #[trigger] g.exports[x] by {
            assert(g2.exports[x] == g.exports[x]);
        }
    }
}

/// Index validity for this strategy: starting from a graph whose indices
/// all resolve, applying the placement modifiers keeps them resolving, and
/// every reference it adds — the interned chains and the appended array
/// elements — resolves too. The anchors must be the unpatched graph's, as
/// the handler finds them.
pub proof fn lemma_apply_modifiers_wf(
    g: GraphV,
    g0: GraphV,
    pms: Seq<PlacementModifierV>,
    m: int,
)
    requires
        crate::graph::graph_wf(g),
        g.exports.len() == g0.exports.len(),
        forall|x: int|
            0 <= x < pms.len() && modifier_outcome(g0, #[trigger] pms[x]) is Found ==> {
                let o = modifier_outcome(g0, pms[x]);
                &&& 0 <= o->Found_vi < g.exports.len()
                &&& path_valid(g.exports[o->Found_vi].properties, o->Found_path)
            },
    ensures
        crate::graph::graph_wf(apply_modifiers(g, g0, pms, m)),
    decreases pms.len() - m,
{
    if 0 <= m < pms.len() {
        match modifier_outcome(g0, pms[m]) {
            NavOutcome::Found { vi, path } => {
                let pl = pms[m].placements;
                lemma_intern_placements_wf(g, pl, 0);
                let g1 = intern_placements(g, pl, 0);
                assert(path_valid(g1.exports[vi].properties, path));
                lemma_push_placements_wf(
                    g1,
                    vi,
                    path,
                    g.imports.len() as int,
                    pl.len() as int,
                    0,
                );
                let g2 = apply_one_modifier(g, vi, path, pl);
                assert(g2 == push_placements(
                    g1,
                    vi,
                    path,
                    g.imports.len() as int,
                    pl.len() as int,
                    0,
                ));
                assert forall|x: int|
                    0 <= x < pms.len() && modifier_outcome(g0, #[trigger] pms[x]) is Found
                        implies {
                    let o = modifier_outcome(g0, pms[x]);
                    &&& 0 <= o->Found_vi < g2.exports.len()
                    &&& path_valid(g2.exports[o->Found_vi].properties, o->Found_path)
                } by {
                    let o = modifier_outcome(g0, pms[x]);
                    if o->Found_vi != vi {
                        assert(g2.exports[o->Found_vi] == g1.exports[o->Found_vi]);
                    } else {
                        lemma_paths_survive_pushes(
                            g1,
                            vi,
                            path,
                            o->Found_path,
                            g.imports.len() as int,
                            pl.len() as int,
                            0,
                        );
                    }
                }
                lemma_apply_modifiers_wf(g2, g0, pms, m + 1);
            },
            _ => {
                lemma_apply_modifiers_wf(g, g0, pms, m + 1);
            },
        }
    }
}

/// Every other valid path into the pushed export stays valid across a run
/// of pushes.
proof fn lemma_paths_survive_pushes(
    g: GraphV,
    vi: int,
    path: Seq<int>,
    other: Seq<int>,
    base: int,
    count: int,
    k: int,
)
    requires
        0 <= vi < g.exports.len(),
        path_valid(g.exports[vi].properties, path),
        path_valid(g.exports[vi].properties, other),
        0 <= k <= count,
    ensures
        path_valid(
            push_placements(g, vi, path, base, count, k).exports[vi].properties,
            other,
        ),
    decreases count - k,
{
    if k < count {
        let props = g.exports[vi].properties;
        let newprop = PropertyV::Object {
            name: FNameV {
                text: dec_str(tail_children(props, path).len() as nat),
                number: 0,
            },
            value: -(base + 2 * k + 2),
            has_guid: true,
        };
        let e2 = export_with_pushed(g.exports[vi], path, newprop);
        let g2 = GraphV { imports: g.imports, exports: g.exports.update(vi, e2) };
        lemma_push_preserves_path_valid(props, path, path, newprop);
        lemma_push_preserves_path_valid(props, path, other, newprop);
        lemma_paths_survive_pushes(g2, vi, path, other, base, count, k + 1);
    }
}


/// A skipped modifier changes nothing: when its planet has no voxel
/// component export, the fold hands the graph through untouched for that
/// entry — whatever other modifiers sit beside it — and the warning naming
/// the missing export is recorded in order, instead of an error.
pub proof fn lemma_skipped_modifier_changes_nothing(
    g: GraphV,
    g0: GraphV,
    pms: Seq<PlacementModifierV>,
    m: int,
)
    requires
        0 <= m < pms.len(),
        modifier_outcome(g0, pms[m]) is Skip,
    ensures
        apply_modifiers(g, g0, pms, m) == apply_modifiers(g, g0, pms, m + 1),
        first_fatal(g0, pms, m) == first_fatal(g0, pms, m + 1),
        skip_warnings(g0, pms, m) == seq![
            "Failed to find voxel export "@ + voxels_name(pms[m].planet_type),
        ] + skip_warnings(g0, pms, m + 1),
{
}

} // verus!
