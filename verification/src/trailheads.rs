//! The mission trailhead injection strategy: locates the settings export
//! whose `MissionData` array holds object references, and appends one
//! reference per trailhead asset path, each backed by a fresh two-step
//! import chain.

use vstd::prelude::*;
use crate::errors::{IntegratorError, IntegratorErrorV};
use crate::graph::{AssetGraph, ExportV, FName, FNameV, GraphV, Import, ImportV, Property, PropertyV};
use crate::json::{Json, json_views};
use crate::merger::{flatten_string_arrays, merge_string_lists};
use crate::mutator::{chain_views, export_with_pushed, intern_import_chain, push_to_export_array};
use crate::paths::{file_stem_spec, file_stem_of};
use crate::resolver::{import_at, get_import, find_property, scan_corrupt, lemma_scan_corrupt_mono};

verus! {

/// An export that is a plain instance or class, whose declared class is an
/// import resolving to the object name `cls`.
pub open spec fn export_has_import_class(g: GraphV, e: ExportV, cls: Seq<char>) -> bool {
    &&& e.has_properties()
    &&& e.class_index < 0
    &&& match import_at(g, e.class_index) {
        Some(im) => im.object_name.text == cls,
        None => false,
    }
}

/// An array property named `MissionData` whose declared element type is a
/// hard object reference.
pub open spec fn is_mission_array(p: PropertyV) -> bool {
    match p {
        PropertyV::Array { name, array_type, .. } => name.text == "MissionData"@ && match
            array_type {
            Some(t) => t.text == "ObjectProperty"@,
            None => false,
        },
        _ => false,
    }
}

/// The first mission array at or past `from`.
pub open spec fn first_mission_array(s: Seq<PropertyV>, from: int) -> Option<int>
    decreases s.len() - from,
{
    if from < 0 || from >= s.len() {
        None
    } else if is_mission_array(s[from]) {
        Some(from)
    } else {
        first_mission_array(s, from + 1)
    }
}

/// The anchor the strategy patches: among the first `upto` exports, the last
/// settings export that carries a mission array, together with that array's
/// position.
pub open spec fn mission_anchor_in(g: GraphV, upto: int) -> Option<(int, int)>
    decreases upto,
{
    if upto <= 0 {
        None
    } else {
        let prev = mission_anchor_in(g, upto - 1);
        let e = g.exports[upto - 1];
        if export_has_import_class(g, e, "AstroSettings"@) {
            match first_mission_array(e.properties, 0) {
                Some(j) => Some((upto - 1, j)),
                None => prev,
            }
        } else {
            prev
        }
    }
}

/// The two-step import chain backing one trailhead: its package, and the
/// mission data asset named by the path's file stem.
pub open spec fn trailhead_steps(path: Seq<char>, stem: Seq<char>) -> Seq<
    (Seq<char>, Seq<char>, Seq<char>),
> {
    seq![
        ("/Script/CoreUObject"@, "Package"@, path),
        ("/Script/Astro"@, "AstroMissionDataAsset"@, stem),
    ]
}

/// The graph after the trailheads at or past `from` are appended to the
/// mission array at `(i, j)`: per trailhead, two fresh imports and one
/// object property carrying the array's own name and referencing the chain.
pub open spec fn trailheads_result(
    g: GraphV,
    i: int,
    j: int,
    ts: Seq<Seq<char>>,
    from: int,
) -> GraphV
    decreases ts.len() - from,
{
    if from < 0 || from >= ts.len() {
        g
    } else {
        let path = ts[from];
        let stem = file_stem_spec(path)->Some_0;
        let imports2 = g.imports + chain_views(g.imports.len() as int, trailhead_steps(path, stem));
        let newprop = PropertyV::Object {
            name: g.exports[i].properties[j].name(),
            value: -(g.imports.len() + 2),
            has_guid: true,
        };
        let g2 = GraphV {
            imports: imports2,
            exports: g.exports.update(i, export_with_pushed(g.exports[i], seq![j], newprop)),
        };
        trailheads_result(g2, i, j, ts, from + 1)
    }
}

/// Every trailhead path has a usable file stem.
pub open spec fn stems_ok(ts: Seq<Seq<char>>) -> bool {
    forall|q: int| 0 <= q < ts.len() ==> file_stem_spec(#[trigger] ts[q]) is Some
}

/// Finds the mission anchor, scanning every export once; agrees with
/// [`mission_anchor_in`], and reports a corrupt asset when a declared class
/// import does not resolve.
fn find_mission_anchor(g: &AssetGraph) -> (r: Result<Option<(usize, usize)>, IntegratorError>)
    ensures
        ({
            let gv = g.deep_view();
            match r {
                Ok(o) => !scan_corrupt(gv, gv.exports.len() as int) && match o {
                    Some(p) => mission_anchor_in(gv, gv.exports.len() as int) == Some(
                        (p.0 as int, p.1 as int),
                    ) && p.0 < gv.exports.len(),
                    None => mission_anchor_in(gv, gv.exports.len() as int) is None,
                },
                Err(e) => scan_corrupt(gv, gv.exports.len() as int) && e.deep_view() == (
                IntegratorErrorV::CorruptBaseAsset { detail: "Invalid import"@ }),
            }
        }),
{
    let ghost gv = g.deep_view();
    let n = g.exports.len();
    let mut i: usize = 0;
    let mut found: Option<(usize, usize)> = None;
    while i < n
        invariant
            i <= n,
            n == g.exports@.len(),
            gv == g.deep_view(),
            gv.exports.len() == n,
            !scan_corrupt(gv, i as int),
            match found {
                Some(p) => mission_anchor_in(gv, i as int) == Some((p.0 as int, p.1 as int)) && p.0
                    < n,
                None => mission_anchor_in(gv, i as int) is None,
            },
        decreases n - i,
    {
        proof {
            assert(gv.exports[i as int] == g.exports@[i as int].deep_view());
        }
        let e = &g.exports[i];
        let normal_like = match &e.kind {
            crate::graph::ExportKind::Normal => true,
            crate::graph::ExportKind::Class { .. } => true,
            _ => false,
        };
        if normal_like && e.class_index < 0 {
            match get_import(g, e.class_index) {
                Some(im) => {
                    if crate::strutil::str_eq(im.object_name.text.as_str(), "AstroSettings") {
                        match find_mission_array(&e.properties) {
                            Some(j) => {
                                found = Some((i, j));
                            },
                            None => {},
                        }
                    }
                },
                None => {
                    proof {
                        assert(scan_corrupt(gv, i as int + 1));
                        lemma_scan_corrupt_mono(gv, i as int + 1, n as int);
                    }
                    return Err(
                        IntegratorError::CorruptBaseAsset { detail: "Invalid import".to_owned() },
                    );
                },
            }
        }
        i = i + 1;
    }
    Ok(found)
}

/// Whatever anchor the scan settles on is a real array position.
proof fn lemma_first_mission_array_props(s: Seq<PropertyV>, from: int)
    ensures
        match first_mission_array(s, from) {
            Some(j) => from <= j < s.len() && is_mission_array(s[j]) && s[j] is Array,
            None => true,
        },
    decreases s.len() - from,
{
    if 0 <= from < s.len() && !is_mission_array(s[from]) {
        lemma_first_mission_array_props(s, from + 1);
    }
}

/// The mission anchor names a real export and a real array property in it.
proof fn lemma_mission_anchor(g: GraphV, upto: int)
    requires
        upto <= g.exports.len(),
    ensures
        match mission_anchor_in(g, upto) {
            Some(p) => {
                &&& 0 <= p.0 < upto
                &&& 0 <= p.1 < g.exports[p.0].properties.len()
                &&& g.exports[p.0].properties[p.1] is Array
            },
            None => true,
        },
    decreases upto,
{
    if upto > 0 {
        lemma_mission_anchor(g, upto - 1);
        lemma_first_mission_array_props(g.exports[upto - 1].properties, 0);
    }
}

/// The first mission array of a property list; agrees with
/// [`first_mission_array`].
fn find_mission_array(props: &Vec<Property>) -> (r: Option<usize>)
    ensures
        match r {
            Some(j) => first_mission_array(crate::graph::prop_views(props@), 0) == Some(j as int)
                && j < props@.len(),
            None => first_mission_array(crate::graph::prop_views(props@), 0) is None,
        },
{
    let ghost s = crate::graph::prop_views(props@);
    let n = props.len();
    let mut i: usize = 0;
    proof {
        crate::graph::lemma_prop_views(props@);
    }
    while i < n
        invariant
            i <= n,
            n == props@.len(),
            s == crate::graph::prop_views(props@),
            s.len() == n,
            forall|j: int| 0 <= j < n ==> s[j] == #[trigger] props@[j].deep_view(),
            first_mission_array(s, 0) == first_mission_array(s, i as int),
        decreases n - i,
    {
        proof {
            assert(s[i as int] == props@[i as int].deep_view());
        }
        let hit = match &props[i] {
            Property::Array { name, array_type, .. } => {
                if crate::strutil::str_eq(name.text.as_str(), "MissionData") {
                    match array_type {
                        Some(t) => crate::strutil::str_eq(t.text.as_str(), "ObjectProperty"),
                        None => false,
                    }
                } else {
                    false
                }
            },
            _ => false,
        };
        if hit {
            proof {
                assert(is_mission_array(s[i as int]));
            }
            return Some(i);
        }
        proof {
            assert(!is_mission_array(s[i as int]));
        }
        i = i + 1;
    }
    None
}

/// How one trailheads invocation ended when it did not fail: either the
/// mission array was patched, or the graph holds no settings anchor and was
/// left untouched — a miss the caller is expected to log.
#[derive(Clone, Copy, PartialEq, Eq, Structural, Debug)]
pub enum TrailheadsOutcome {
    Applied,
    AnchorMissing,
}

/// Applies the mission trailhead strategy to one decoded map graph.
///
/// The per-mod patches (each a flat array of trailhead asset paths) are
/// concatenated in priority order. When the graph holds no settings export
/// with a mission array, it is left unchanged and the miss is handed back;
/// when the anchor exists, each trailhead gets a fresh package and
/// mission-data import pair and one object reference appended to the
/// mission array.
pub fn handle_mission_trailheads(g: &mut AssetGraph, patches: &Vec<Json>) -> (r: Result<
    TrailheadsOutcome,
    IntegratorError,
>)
    requires
        (match flatten_string_arrays(json_views(patches@), 0) {
            Some(ts) => old(g).imports@.len() + 2 * ts.len() < 0x7fff_ffff,
            None => true,
        }),
    ensures
        ({
            let g0 = old(g).deep_view();
            let ts = flatten_string_arrays(json_views(patches@), 0);
            match r {
                Ok(o) => ts is Some && match mission_anchor_in(g0, g0.exports.len() as int) {
                    Some(anchor) => o == TrailheadsOutcome::Applied && stems_ok(ts->Some_0)
                        && !scan_corrupt(g0, g0.exports.len() as int) && final(g).deep_view()
                        == trailheads_result(g0, anchor.0, anchor.1, ts->Some_0, 0),
                    None => o == TrailheadsOutcome::AnchorMissing && !scan_corrupt(
                        g0,
                        g0.exports.len() as int,
                    ) && final(g).deep_view() == g0,
                },
                Err(e) => final(g).deep_view() == g0 && match e.deep_view() {
                    IntegratorErrorV::MalformedPatch { handler, detail } => handler
                        == "mission_trailheads"@ && ((detail == "Invalid trailheads"@ && ts
                        is None) || (detail == "Invalid trailhead"@ && ts is Some && !stems_ok(
                        ts->Some_0,
                    ) && mission_anchor_in(g0, g0.exports.len() as int) is Some && !scan_corrupt(
                        g0,
                        g0.exports.len() as int,
                    ))),
                    IntegratorErrorV::CorruptBaseAsset { detail } => detail == "Invalid import"@
                        && ts is Some && scan_corrupt(g0, g0.exports.len() as int),
                    _ => false,
                },
            }
        }),
{
    let ghost g0 = old(g).deep_view();
    let trailheads = match merge_string_lists(patches) {
        Some(ts) => ts,
        None => {
            return Err(
                IntegratorError::MalformedPatch {
                    handler: "mission_trailheads".to_owned(),
                    detail: "Invalid trailheads".to_owned(),
                },
            );
        },
    };
    let ghost ts = trailheads.deep_view();
    let anchor = match find_mission_anchor(g) {
        Ok(o) => o,
        Err(e) => {
            return Err(e);
        },
    };
    let (ei, pj) = match anchor {
        Some(p) => p,
        None => {
            return Ok(TrailheadsOutcome::AnchorMissing);
        },
    };
    // Validate every path before touching the graph, so an error leaves the
    // graph exactly as it was.
    let mut stems: Vec<String> = Vec::new();
    let tn = trailheads.len();
    let mut q: usize = 0;
    while q < tn
        invariant
            q <= tn,
            tn == trailheads@.len(),
            ts == trailheads.deep_view(),
            ts.len() == tn,
            g.deep_view() == g0,
            flatten_string_arrays(json_views(patches@), 0) == Some(ts),
            mission_anchor_in(g0, g0.exports.len() as int) == Some((ei as int, pj as int)),
            !scan_corrupt(g0, g0.exports.len() as int),
            stems@.len() == q,
            forall|w: int| 0 <= w < q ==> file_stem_spec(#[trigger] ts[w]) == Some(
                stems@[w]@,
            ),
        decreases tn - q,
    {
        proof {
            assert(ts[q as int] == trailheads@[q as int]@);
        }
        match file_stem_of(trailheads[q].as_str()) {
            Some(st) => {
                stems.push(st);
            },
            None => {
                proof {
                    assert(file_stem_spec(ts[q as int]) is None);
                    assert(!stems_ok(ts));
                }
                return Err(
                    IntegratorError::MalformedPatch {
                        handler: "mission_trailheads".to_owned(),
                        detail: "Invalid trailhead".to_owned(),
                    },
                );
            },
        }
        q = q + 1;
    }
    proof {
        assert(stems_ok(ts));
        lemma_mission_anchor(g0, g0.exports.len() as int);
    }
    // Apply: per trailhead, intern the two-step chain and append an object
    // reference to the mission array.
    let mut w: usize = 0;
    while w < tn
        invariant
            w <= tn,
            tn == trailheads@.len(),
            ts == trailheads.deep_view(),
            ts.len() == tn,
            stems@.len() == tn,
            forall|v: int| 0 <= v < tn ==> file_stem_spec(#[trigger] ts[v]) == Some(stems@[v]@),
            ei < g.exports@.len(),
            pj < g.deep_view().exports[ei as int].properties.len(),
            g.deep_view().exports[ei as int].properties[pj as int] is Array,
            g.deep_view().exports.len() == g0.exports.len(),
            g.deep_view().imports.len() == g0.imports.len() + 2 * w,
            g0.imports.len() + 2 * tn < 0x7fff_ffff,
            trailheads_result(g0, ei as int, pj as int, ts, 0) == trailheads_result(
                g.deep_view(),
                ei as int,
                pj as int,
                ts,
                w as int,
            ),
        decreases tn - w,
    {
        let ghost gpre = g.deep_view();
        proof {
            assert(ts[w as int] == trailheads@[w as int]@);
            assert(g.deep_view().imports.len() == g.imports@.len());
        }
        let path = &trailheads[w];
        let stem = &stems[w];
        let mut steps: Vec<(String, String, String)> = Vec::new();
        steps.push(("/Script/CoreUObject".to_owned(), "Package".to_owned(), path.clone()));
        steps.push(("/Script/Astro".to_owned(), "AstroMissionDataAsset".to_owned(), stem.clone()));
        proof {
            assert(steps.deep_view() =~~= trailhead_steps(ts[w as int], stems@[w as int]@));
        }
        let chain = intern_import_chain(g, &steps);
        let ghost gmid = g.deep_view();
        proof {
            assert(gmid.exports == gpre.exports);
            assert(gmid.exports[ei as int] == g.exports@[ei as int].deep_view());
            crate::graph::lemma_prop_views(g.exports@[ei as int].properties@);
            assert(gmid.exports[ei as int].properties[pj as int] == g.exports@[
                ei as int].properties@[pj as int].deep_view());
        }
        let arr_name: FName = {
            let e = &g.exports[ei];
            match &e.properties[pj] {
                Property::Array { name, .. } => name.duplicate(),
                _ => FName::new(""),
            }
        };
        proof {
            assert(arr_name.deep_view() == gpre.exports[ei as int].properties[pj as int].name());
        }
        let newprop = Property::Object { name: arr_name, value: chain, has_guid: true };
        let ghost newprop_spec = PropertyV::Object {
            name: gpre.exports[ei as int].properties[pj as int].name(),
            value: -(gpre.imports.len() + 2),
            has_guid: true,
        };
        proof {
            assert(newprop.deep_view() == newprop_spec);
        }
        let mut path_idx: Vec<usize> = Vec::new();
        path_idx.push(pj);
        proof {
            assert(crate::mutator::idxs_of(path_idx@) =~= seq![pj as int]);
            assert(crate::mutator::path_valid(
                g.deep_view().exports[ei as int].properties,
                seq![pj as int],
            ));
        }
        push_to_export_array(g, ei, &path_idx, newprop);
        proof {
            let stepw = trailhead_steps(ts[w as int], file_stem_spec(ts[w as int])->Some_0);
            assert(stems@[w as int]@ == file_stem_spec(ts[w as int])->Some_0);
            assert(gmid.imports == gpre.imports + chain_views(gpre.imports.len() as int, stepw));
            let g2 = GraphV {
                imports: gpre.imports + chain_views(gpre.imports.len() as int, stepw),
                exports: gpre.exports.update(
                    ei as int,
                    export_with_pushed(gpre.exports[ei as int], seq![pj as int], newprop_spec),
                ),
            };
            assert(g.deep_view().imports == g2.imports);
            assert(g.deep_view().exports == g2.exports);
            assert(g.deep_view() == g2);
            assert(trailheads_result(gpre, ei as int, pj as int, ts, w as int)
                == trailheads_result(g2, ei as int, pj as int, ts, w as int + 1));
            assert(g.deep_view().exports[ei as int].properties[pj as int] is Array);
            assert(g.deep_view().exports[ei as int].properties.len() == gpre.exports[
                ei as int].properties.len());
            assert(g.exports@.len() == g.deep_view().exports.len());
            assert(g.deep_view().exports.len() == gpre.exports.len());
        }
        w = w + 1;
    }
    proof {
        assert(trailheads_result(g.deep_view(), ei as int, pj as int, ts, tn as int)
            == g.deep_view());
    }
    Ok(TrailheadsOutcome::Applied)
}


/// Index validity for this strategy: starting from a graph whose indices
/// all resolve, the trailhead surgery keeps them resolving, and everything
/// it adds — the two imports per trailhead and each appended object
/// reference — resolves as well.
pub proof fn lemma_trailheads_result_wf(g: GraphV, i: int, j: int, ts: Seq<Seq<char>>, from: int)
    requires
        crate::graph::graph_wf(g),
        0 <= i < g.exports.len(),
        0 <= j < g.exports[i].properties.len(),
        g.exports[i].properties[j] is Array,
    ensures
        crate::graph::graph_wf(trailheads_result(g, i, j, ts, from)),
        trailheads_result(g, i, j, ts, from).exports.len() == g.exports.len(),
        trailheads_result(g, i, j, ts, from).exports[i].properties.len()
            == g.exports[i].properties.len(),
        trailheads_result(g, i, j, ts, from).exports[i].properties[j] is Array,
    decreases ts.len() - from,
{
    if 0 <= from < ts.len() {
        let path = ts[from];
        let stem = file_stem_spec(path)->Some_0;
        let steps = trailhead_steps(path, stem);
        let imports2 = g.imports + crate::mutator::chain_views(g.imports.len() as int, steps);
        let newprop = PropertyV::Object {
            name: g.exports[i].properties[j].name(),
            value: -(g.imports.len() + 2),
            has_guid: true,
        };
        let e2 = crate::mutator::export_with_pushed(g.exports[i], seq![j], newprop);
        let g2 = GraphV { imports: imports2, exports: g.exports.update(i, e2) };
        assert(crate::graph::graph_extends(g2, g));
        assert(crate::graph::prop_valid(g2, newprop));
        assert forall|k: int| 0 <= k < g2.imports.len() implies crate::graph::import_valid(
            g2,
            #[trigger] g2.imports[k],
        ) by {
            if k < g.imports.len() {
                assert(g2.imports[k] == g.imports[k]);
                assert(crate::graph::import_valid(g, g.imports[k]));
            } else {
                crate::mutator::lemma_chain_views_valid(g, g2, g.imports.len() as int, steps);
                assert(crate::mutator::import_valid_at(g2, k));
            }
        }
        assert forall|k: int| 0 <= k < g2.exports.len() implies crate::graph::export_valid(
            g2,
            #[trigger] g2.exports[k],
        ) by {
            assert(crate::graph::export_valid(g, g.exports[k]));
            crate::graph::lemma_export_valid_mono(g, g2, g.exports[k]);
            if k == i {
                assert(g2.exports[k] == e2);
                crate::mutator::lemma_export_with_pushed_valid(g2, g.exports[i], j, newprop);
            } else {
                assert(g2.exports[k] == g.exports[k]);
            }
        }
        assert(crate::graph::graph_wf(g2));
        assert(g2.exports[i].properties == g.exports[i].properties.update(
            j,
            crate::mutator::array_pushed(g.exports[i].properties[j], newprop),
        ));
        lemma_trailheads_result_wf(g2, i, j, ts, from + 1);
    }
}


/// What the fold appends, element by element: the mission array grows by
/// exactly one object reference per trailhead, in patch order, dropping,
/// reordering and deduplicating nothing; the element for the k-th trailhead
/// carries the array's own name and references the second link of a fresh
/// two-step chain — a package import named by the trailhead path, and under
/// it a mission-data-asset import named by the path's file stem. Existing
/// imports and elements stay exactly where they were.
pub proof fn lemma_trailheads_append_in_order(
    g: GraphV,
    i: int,
    j: int,
    ts: Seq<Seq<char>>,
    from: int,
)
    requires
        0 <= i < g.exports.len(),
        0 <= j < g.exports[i].properties.len(),
        g.exports[i].properties[j] is Array,
        0 <= from <= ts.len(),
    ensures
        ({
            let r = trailheads_result(g, i, j, ts, from);
            let ch0 = crate::mutator::children_of(g.exports[i].properties[j]);
            let chr = crate::mutator::children_of(r.exports[i].properties[j]);
            let added = ts.len() - from;
            &&& r.imports.len() == g.imports.len() + 2 * added
            &&& (forall|k: int| 0 <= k < g.imports.len() ==> r.imports[k] == #[trigger] g.imports[k])
            &&& chr.len() == ch0.len() + added
            &&& (forall|k: int| 0 <= k < ch0.len() ==> chr[k] == #[trigger] ch0[k])
            &&& (forall|k: int|
                #![trigger chr[ch0.len() + k]]
                0 <= k < added ==> chr[ch0.len() + k] == (PropertyV::Object {
                    name: g.exports[i].properties[j].name(),
                    value: -(g.imports.len() + 2 * k + 2),
                    has_guid: true,
                }))
            &&& (forall|k: int|
                #![trigger r.imports[g.imports.len() + 2 * k]]
                0 <= k < added ==> r.imports[g.imports.len() + 2 * k] == (ImportV {
                    class_package: FNameV { text: "/Script/CoreUObject"@, number: 0 },
                    class_name: FNameV { text: "Package"@, number: 0 },
                    outer_index: 0,
                    object_name: FNameV { text: ts[from + k], number: 0 },
                }))
            &&& (forall|k: int|
                #![trigger r.imports[g.imports.len() + 2 * k + 1]]
                0 <= k < added ==> r.imports[g.imports.len() + 2 * k + 1] == (ImportV {
                    class_package: FNameV { text: "/Script/Astro"@, number: 0 },
                    class_name: FNameV { text: "AstroMissionDataAsset"@, number: 0 },
                    outer_index: -(g.imports.len() + 2 * k + 1),
                    object_name: FNameV {
                        text: file_stem_spec(ts[from + k])->Some_0,
                        number: 0,
                    },
                }))
        }),
    decreases ts.len() - from,
{
    if from < ts.len() {
        let path = ts[from];
        let stem = file_stem_spec(path)->Some_0;
        let steps = trailhead_steps(path, stem);
        let chain = chain_views(g.imports.len() as int, steps);
        let imports2 = g.imports + chain;
        let newprop = PropertyV::Object {
            name: g.exports[i].properties[j].name(),
            value: -(g.imports.len() + 2),
            has_guid: true,
        };
        let e2 = export_with_pushed(g.exports[i], seq![j], newprop);
        let g2 = GraphV { imports: imports2, exports: g.exports.update(i, e2) };
        assert(chain[0] == ImportV {
            class_package: FNameV { text: "/Script/CoreUObject"@, number: 0 },
            class_name: FNameV { text: "Package"@, number: 0 },
            outer_index: 0,
            object_name: FNameV { text: path, number: 0 },
        });
        assert(chain[1] == ImportV {
            class_package: FNameV { text: "/Script/Astro"@, number: 0 },
            class_name: FNameV { text: "AstroMissionDataAsset"@, number: 0 },
            outer_index: -(g.imports.len() + 1),
            object_name: FNameV { text: stem, number: 0 },
        });
        assert(g2.exports[i].properties == g.exports[i].properties.update(
            j,
            crate::mutator::array_pushed(g.exports[i].properties[j], newprop),
        ));
        let ch0 = crate::mutator::children_of(g.exports[i].properties[j]);
        let ch2 = crate::mutator::children_of(g2.exports[i].properties[j]);
        assert(ch2 == ch0.push(newprop));
        assert(g2.exports[i].properties[j].name() == g.exports[i].properties[j].name());
        assert(g2.exports[i].properties[j] is Array);
        lemma_trailheads_append_in_order(g2, i, j, ts, from + 1);
        let r = trailheads_result(g, i, j, ts, from);
        assert(r == trailheads_result(g2, i, j, ts, from + 1));
        let chr = crate::mutator::children_of(r.exports[i].properties[j]);
        let added = ts.len() - from;
        assert forall|k: int|
            0 <= k < g.imports.len() implies r.imports[k] == #[trigger] g.imports[k] by {
            assert(r.imports[k] == g2.imports[k]);
            assert(g2.imports[k] == g.imports[k]);
        }
        assert forall|k: int| 0 <= k < ch0.len() implies chr[k] == #[trigger] ch0[k] by {
            assert(chr[k] == ch2[k]);
            assert(ch2[k] == ch0[k]);
        }
        assert forall|k: int|
            #![trigger chr[ch0.len() + k]]
            0 <= k < added implies chr[ch0.len() + k] == (PropertyV::Object {
            name: g.exports[i].properties[j].name(),
            value: -(g.imports.len() + 2 * k + 2),
            has_guid: true,
        }) by {
            if k == 0 {
                assert(chr[ch2.len() - 1] == ch2[ch2.len() - 1]);
                assert(ch2[ch0.len() as int] == newprop);
            } else {
                assert(chr[ch2.len() + (k - 1)] == (PropertyV::Object {
                    name: g2.exports[i].properties[j].name(),
                    value: -(g2.imports.len() + 2 * (k - 1) + 2),
                    has_guid: true,
                }));
            }
        }
        assert forall|k: int|
            #![trigger r.imports[g.imports.len() + 2 * k]]
            0 <= k < added implies r.imports[g.imports.len() + 2 * k] == (ImportV {
            class_package: FNameV { text: "/Script/CoreUObject"@, number: 0 },
            class_name: FNameV { text: "Package"@, number: 0 },
            outer_index: 0,
            object_name: FNameV { text: ts[from + k], number: 0 },
        }) by {
            if k == 0 {
                assert(r.imports[g.imports.len() as int] == g2.imports[g.imports.len() as int]);
                assert(g2.imports[g.imports.len() as int] == chain[0]);
            } else {
                assert(r.imports[g2.imports.len() + 2 * (k - 1)] == (ImportV {
                    class_package: FNameV { text: "/Script/CoreUObject"@, number: 0 },
                    class_name: FNameV { text: "Package"@, number: 0 },
                    outer_index: 0,
                    object_name: FNameV { text: ts[from + 1 + (k - 1)], number: 0 },
                }));
            }
        }
        assert forall|k: int|
            #![trigger r.imports[g.imports.len() + 2 * k + 1]]
            0 <= k < added implies r.imports[g.imports.len() + 2 * k + 1] == (ImportV {
            class_package: FNameV { text: "/Script/Astro"@, number: 0 },
            class_name: FNameV { text: "AstroMissionDataAsset"@, number: 0 },
            outer_index: -(g.imports.len() + 2 * k + 1),
            object_name: FNameV { text: file_stem_spec(ts[from + k])->Some_0, number: 0 },
        }) by {
            if k == 0 {
                assert(r.imports[g.imports.len() as int + 1] == g2.imports[g.imports.len() as int
                    + 1]);
                assert(g2.imports[g.imports.len() as int + 1] == chain[1]);
            } else {
                assert(r.imports[g2.imports.len() + 2 * (k - 1) + 1] == (ImportV {
                    class_package: FNameV { text: "/Script/Astro"@, number: 0 },
                    class_name: FNameV { text: "AstroMissionDataAsset"@, number: 0 },
                    outer_index: -(g2.imports.len() + 2 * (k - 1) + 1),
                    object_name: FNameV {
                        text: file_stem_spec(ts[from + 1 + (k - 1)])->Some_0,
                        number: 0,
                    },
                }));
            }
        }
    }
}

} // verus!
