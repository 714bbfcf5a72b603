//! The item list entry injection strategy: finds every array property a
//! merged list name addresses (optionally qualified by the owning export's
//! class), and appends one reference per item path — a hard object
//! reference backed by a lazily interned class import chain for arrays of
//! object references, a soft path value for arrays of soft references.

use vstd::prelude::*;
use crate::errors::{IntegratorError, IntegratorErrorV};
use crate::graph::{
    AssetGraph, ExportV, FName, FNameV, GraphV, Property, PropertyV, prop_views, lemma_prop_views,
};
use crate::json::{Json, json_views};
use crate::merger::{fold_item_maps, merge_item_list_maps};
use crate::mutator::{chain_views, export_with_pushed, intern_import_chain, push_to_export_array};
use crate::paths::{item_path_parts, parse_item_path};
use crate::resolver::{import_at, get_import};
use crate::strutil::{contains_char, first_index_of, str_eq, index_of_char, substring, char_len};

verus! {

/// The owning-export class name a qualified list key demands, when the key
/// carries a `.`.
pub open spec fn key_export_name(key: Seq<char>) -> Option<Seq<char>> {
    if contains_char(key, '.') {
        Some(key.subrange(0, first_index_of(key, '.')))
    } else {
        None
    }
}

/// The array name a list key addresses: the key itself, or the token after
/// the first `.` of a qualified key (tokens past a second dot are dropped).
pub open spec fn key_array_name(key: Seq<char>) -> Seq<char> {
    if contains_char(key, '.') {
        let rest = key.subrange(first_index_of(key, '.') + 1, key.len() as int);
        if contains_char(rest, '.') {
            rest.subrange(0, first_index_of(rest, '.'))
        } else {
            rest
        }
    } else {
        key
    }
}

/// Whether an export satisfies the key's qualification: an unqualified key
/// matches every export; a qualified one only those whose declared class is
/// an import resolving to the demanded name.
pub open spec fn export_matches_key(g: GraphV, e: ExportV, key: Seq<char>) -> bool {
    match key_export_name(key) {
        None => true,
        Some(en) => e.class_index < 0 && match import_at(g, e.class_index) {
            Some(im) => im.object_name.text == en,
            None => false,
        },
    }
}

/// An array property named as the key demands.
pub open spec fn prop_matches_key(p: PropertyV, key: Seq<char>) -> bool {
    p is Array && p.name().text == key_array_name(key)
}

/// The declared element type of an array property.
pub open spec fn array_type_text(p: PropertyV) -> Option<Seq<char>> {
    match p {
        PropertyV::Array { array_type, .. } => match array_type {
            Some(t) => Some(t.text),
            None => None,
        },
        _ => None,
    }
}

/// The matches of one export's property list: `(export, property, declared
/// element type)` per array named as the key demands.
pub open spec fn scan_props(props: Seq<PropertyV>, i: int, key: Seq<char>, j: int) -> Seq<
    (int, int, Option<Seq<char>>),
>
    decreases props.len() - j,
{
    if j < 0 || j >= props.len() {
        Seq::empty()
    } else if prop_matches_key(props[j], key) {
        seq![(i, j, array_type_text(props[j]))] + scan_props(props, i, key, j + 1)
    } else {
        scan_props(props, i, key, j + 1)
    }
}

/// Every match of a list key across the whole graph, in export order then
/// declaration order.
pub open spec fn scan_exports(g: GraphV, key: Seq<char>, i: int) -> Seq<
    (int, int, Option<Seq<char>>),
>
    decreases g.exports.len() - i,
{
    if i < 0 || i >= g.exports.len() {
        Seq::empty()
    } else {
        let here = if g.exports[i].has_properties() && export_matches_key(g, g.exports[i], key) {
            scan_props(g.exports[i].properties, i, key, 0)
        } else {
            Seq::empty()
        };
        here + scan_exports(g, key, i + 1)
    }
}

/// A matched array without a declared element type: the asset is corrupt.
pub open spec fn scan_has_untyped(s: Seq<(int, int, Option<Seq<char>>)>) -> bool {
    exists|k: int| 0 <= k < s.len() && (#[trigger] s[k]).2 is None
}

/// The two-step import chain backing one item: its package, and the
/// blueprint-generated class named by the item's class name.
pub open spec fn item_chain_steps(asset: Seq<char>, cls: Seq<char>) -> Seq<
    (Seq<char>, Seq<char>, Seq<char>),
> {
    seq![("/Script/CoreUObject"@, "Package"@, asset), ("/Script/Engine"@, "BlueprintGeneratedClass"@, cls)]
}

/// One item appended to the matched arrays at or past `t`. `chain` is the
/// index of the item's class import chain, `0` while none has been interned
/// yet: the chain is interned at the first array of object references and
/// shared by the rest. Arrays of soft references get a soft path value and
/// no import; arrays of any other declared type are left alone.
pub open spec fn apply_item_triples(
    g: GraphV,
    triples: Seq<(int, int, Option<Seq<char>>)>,
    t: int,
    asset: Seq<char>,
    cls: Seq<char>,
    soft: Seq<char>,
    chain: int,
) -> (GraphV, int)
    decreases triples.len() - t,
{
    if t < 0 || t >= triples.len() {
        (g, chain)
    } else {
        let (i, j, ty) = triples[t];
        if ty == Some("ObjectProperty"@) {
            let c1 = if chain == 0 {
                -(g.imports.len() + 2)
            } else {
                chain
            };
            let g1 = if chain == 0 {
                GraphV {
                    imports: g.imports + chain_views(
                        g.imports.len() as int,
                        item_chain_steps(asset, cls),
                    ),
                    exports: g.exports,
                }
            } else {
                g
            };
            let newprop = PropertyV::Object {
                name: g1.exports[i].properties[j].name(),
                value: c1,
                has_guid: false,
            };
            let g2 = GraphV {
                imports: g1.imports,
                exports: g1.exports.update(i, export_with_pushed(g1.exports[i], seq![j], newprop)),
            };
            apply_item_triples(g2, triples, t + 1, asset, cls, soft, c1)
        } else if ty == Some("SoftObjectProperty"@) {
            let newprop = PropertyV::SoftObject {
                name: g.exports[i].properties[j].name(),
                asset_path: FNameV { text: asset, number: 0 },
                sub_path: Some(soft),
            };
            let g2 = GraphV {
                imports: g.imports,
                exports: g.exports.update(i, export_with_pushed(g.exports[i], seq![j], newprop)),
            };
            apply_item_triples(g2, triples, t + 1, asset, cls, soft, chain)
        } else {
            apply_item_triples(g, triples, t + 1, asset, cls, soft, chain)
        }
    }
}

/// The items of one list appended in order, each with a fresh lazy chain.
pub open spec fn apply_items(
    g: GraphV,
    triples: Seq<(int, int, Option<Seq<char>>)>,
    items: Seq<Seq<char>>,
    q: int,
) -> GraphV
    decreases items.len() - q,
{
    if q < 0 || q >= items.len() {
        g
    } else {
        match item_path_parts(items[q]) {
            Some(parts) => apply_items(
                apply_item_triples(g, triples, 0, parts.0, parts.1, parts.2, 0).0,
                triples,
                items,
                q + 1,
            ),
            None => g,
        }
    }
}

/// Every merged entry applied in order: entries whose key matches no array
/// in the graph are skipped. The scan positions come from the unpatched
/// graph `g0`; appending never moves them.
pub open spec fn apply_entries(
    g: GraphV,
    g0: GraphV,
    entries: Seq<(Seq<char>, Seq<Seq<char>>)>,
    e: int,
) -> GraphV
    decreases entries.len() - e,
{
    if e < 0 || e >= entries.len() {
        g
    } else {
        let triples = scan_exports(g0, entries[e].0, 0);
        let g2 = if triples.len() == 0 {
            g
        } else {
            apply_items(g, triples, entries[e].1, 0)
        };
        apply_entries(g2, g0, entries, e + 1)
    }
}

/// Every item path of an entry with at least one match parses.
pub open spec fn entry_items_ok(g0: GraphV, entries: Seq<(Seq<char>, Seq<Seq<char>>)>) -> bool {
    forall|e: int, q: int|
        0 <= e < entries.len() && 0 <= q < (#[trigger] entries[e]).1.len() && scan_exports(
            g0,
            entries[e].0,
            0,
        ).len() > 0 ==> item_path_parts(#[trigger] entries[e].1[q]) is Some
}

/// No entry's scan finds a matched array without a declared element type.
pub open spec fn entries_scan_ok(g0: GraphV, entries: Seq<(Seq<char>, Seq<Seq<char>>)>) -> bool {
    forall|e: int| 0 <= e < entries.len() ==> !scan_has_untyped(
        scan_exports(g0, (#[trigger] entries[e]).0, 0),
    )
}

/// The number of items over all entries, bounding how many imports one call
/// can intern.
pub open spec fn total_items(entries: Seq<(Seq<char>, Seq<Seq<char>>)>) -> int
    decreases entries.len(),
{
    if entries.len() == 0 {
        0
    } else {
        total_items(entries.drop_last()) + entries.last().1.len()
    }
}

/// Merges the per-mod item-list maps, reporting the strategy's malformed
/// patch error on a payload of the wrong shape.
pub fn merge_item_list_entries(patches: &Vec<Json>) -> (r: Result<
    Vec<(String, Vec<(String, Vec<String>)>)>,
    IntegratorError,
>)
    ensures
        match r {
            Ok(v) => fold_item_maps(Seq::empty(), json_views(patches@), 0) == Some(v.deep_view()),
            Err(e) => fold_item_maps(Seq::empty(), json_views(patches@), 0) is None
                && e.deep_view() == (IntegratorErrorV::MalformedPatch {
                handler: "item_list_entries"@,
                detail: "Invalid item_list_entries"@,
            }),
        },
{
    match merge_item_list_maps(patches) {
        Some(v) => Ok(v),
        None => Err(
            IntegratorError::MalformedPatch {
                handler: "item_list_entries".to_owned(),
                detail: "Invalid item_list_entries".to_owned(),
            },
        ),
    }
}

/// A triple list all of whose positions name live array properties of `g`.
pub open spec fn triples_ok(g: GraphV, s: Seq<(int, int, Option<Seq<char>>)>) -> bool {
    forall|k: int|
        0 <= k < s.len() ==> {
            let t = #[trigger] s[k];
            &&& 0 <= t.0 < g.exports.len()
            &&& 0 <= t.1 < g.exports[t.0].properties.len()
            &&& g.exports[t.0].properties[t.1] is Array
        }
}

proof fn lemma_scan_props_ok(g: GraphV, props: Seq<PropertyV>, i: int, key: Seq<char>, j: int)
    requires
        0 <= i < g.exports.len(),
        props == g.exports[i].properties,
    ensures
        triples_ok(g, scan_props(props, i, key, j)),
    decreases props.len() - j,
{
    if 0 <= j < props.len() {
        lemma_scan_props_ok(g, props, i, key, j + 1);
        if prop_matches_key(props[j], key) {
            let s = scan_props(props, i, key, j);
            let rest = scan_props(props, i, key, j + 1);
            assert forall|k: int| 0 <= k < s.len() implies {
                let t = #[trigger] s[k];
                &&& 0 <= t.0 < g.exports.len()
                &&& 0 <= t.1 < g.exports[t.0].properties.len()
                &&& g.exports[t.0].properties[t.1] is Array
            } by {
                if k > 0 {
                    assert(s[k] == rest[k - 1]);
                }
            }
        }
    }
}

proof fn lemma_scan_exports_ok(g: GraphV, key: Seq<char>, i: int)
    ensures
        triples_ok(g, scan_exports(g, key, i)),
    decreases g.exports.len() - i,
{
    if 0 <= i < g.exports.len() {
        lemma_scan_exports_ok(g, key, i + 1);
        let s = scan_exports(g, key, i);
        let rest = scan_exports(g, key, i + 1);
        if g.exports[i].has_properties() && export_matches_key(g, g.exports[i], key) {
            lemma_scan_props_ok(g, g.exports[i].properties, i, key, 0);
            let here = scan_props(g.exports[i].properties, i, key, 0);
            assert forall|k: int| 0 <= k < s.len() implies {
                let t = #[trigger] s[k];
                &&& 0 <= t.0 < g.exports.len()
                &&& 0 <= t.1 < g.exports[t.0].properties.len()
                &&& g.exports[t.0].properties[t.1] is Array
            } by {
                if k < here.len() {
                    assert(s[k] == here[k]);
                } else {
                    assert(s[k] == rest[k - here.len()]);
                }
            }
        } else {
            assert(s =~= rest);
        }
    }
}

/// Scans the graph for the arrays a list key addresses; agrees with
/// [`scan_exports`], and reports a corrupt asset on a matched array without
/// a declared element type.
fn scan_item_arrays(g: &AssetGraph, key: &str) -> (r: Result<
    Vec<(usize, usize, String)>,
    IntegratorError,
>)
    ensures
        ({
            let s = scan_exports(g.deep_view(), key@, 0);
            match r {
                Ok(v) => {
                    &&& !scan_has_untyped(s)
                    &&& v@.len() == s.len()
                    &&& forall|k: int| 0 <= k < s.len() ==> s[k] == (
                    #[trigger] v@[k].0 as int,
                    v@[k].1 as int,
                    Some(v@[k].2@),
                    )
                },
                Err(e) => scan_has_untyped(s) && e.deep_view()
                    == (IntegratorErrorV::CorruptBaseAsset { detail: "Invalid array_property"@ }),
            }
        }),
{
    let ghost gv = g.deep_view();
    let mut out: Vec<(usize, usize, String)> = Vec::new();
    let n = g.exports.len();
    let mut i: usize = 0;
    while i < n
        invariant
            i <= n,
            n == g.exports@.len(),
            gv == g.deep_view(),
            gv.exports.len() == n,
            ({
                let done = scan_exports(gv, key@, 0);
                let rest = scan_exports(gv, key@, i as int);
                &&& done =~= prefix_of(out@) + rest
                &&& out@.len() == done.len() - rest.len()
                &&& !scan_has_untyped(prefix_of(out@))
                &&& forall|k: int| 0 <= k < out@.len() ==> done[k] == (
                #[trigger] out@[k].0 as int,
                out@[k].1 as int,
                Some(out@[k].2@),
                )
            }),
        decreases n - i,
    {
        proof {
            assert(gv.exports[i as int] == g.exports@[i as int].deep_view());
        }
        let e = &g.exports[i];
        let normal_like = match &e.kind {
            crate::graph::ExportKind::Normal => true,
            crate::graph::ExportKind::Class { .. } => true,
            _ => false,
        };
        let class_ok = if normal_like {
            export_key_match(g, e, key)
        } else {
            false
        };
        if normal_like && class_ok {
            let ghost props = gv.exports[i as int].properties;
            let pn = e.properties.len();
            let mut j: usize = 0;
            proof {
                lemma_prop_views(e.properties@);
            }
            while j < pn
                invariant
                    j <= pn,
                    pn == e.properties@.len(),
                    props == prop_views(e.properties@),
                    props.len() == pn,
                    i < n,
                    gv == g.deep_view(),
                    gv.exports.len() == n,
                    props == gv.exports[i as int].properties,
                    forall|w: int| 0 <= w < pn ==> props[w]
                        == #[trigger] e.properties@[w].deep_view(),
                    ({
                        let done = scan_exports(gv, key@, 0);
                        let rest = scan_props(props, i as int, key@, j as int) + scan_exports(
                            gv,
                            key@,
                            i as int + 1,
                        );
                        &&& done =~= prefix_of(out@) + rest
                        &&& out@.len() == done.len() - rest.len()
                        &&& !scan_has_untyped(prefix_of(out@))
                        &&& forall|k: int| 0 <= k < out@.len() ==> done[k] == (
                        #[trigger] out@[k].0 as int,
                        out@[k].1 as int,
                        Some(out@[k].2@),
                        )
                    }),
                decreases pn - j,
            {
                proof {
                    assert(props[j as int] == e.properties@[j as int].deep_view());
                }
                let is_match = match &e.properties[j] {
                    Property::Array { name, .. } => key_array_match(name, key),
                    _ => false,
                };
                if is_match {
                    let ty: String = match &e.properties[j] {
                        Property::Array { array_type, .. } => match array_type {
                            Some(t) => t.text.clone(),
                            None => {
                                proof {
                                    let done = scan_exports(gv, key@, 0);
                                    let herek = prefix_of(out@).len() as int;
                                    assert(array_type_text(props[j as int]) is None);
                                    assert(scan_props(props, i as int, key@, j as int)[0] == (
                                    i as int,
                                    j as int,
                                    array_type_text(props[j as int]),
                                    ));
                                    assert(done[herek].2 is None);
                                    assert(scan_has_untyped(done));
                                }
                                return Err(
                                    IntegratorError::CorruptBaseAsset {
                                        detail: "Invalid array_property".to_owned(),
                                    },
                                );
                            },
                        },
                        _ => {
                            return Err(
                                IntegratorError::CorruptBaseAsset {
                                    detail: "Invalid array_property".to_owned(),
                                },
                            );
                        },
                    };
                    let ghost out0 = out@;
                    out.push((i, j, ty));
                    proof {
                        assert(prop_matches_key(props[j as int], key@));
                        assert(scan_props(props, i as int, key@, j as int) == seq![
                            (i as int, j as int, array_type_text(props[j as int])),
                        ] + scan_props(props, i as int, key@, j as int + 1));
                        assert(prefix_of(out@) =~= prefix_of(out0).push(
                            (i as int, j as int, Some(out@[out0.len() as int].2@)),
                        ));
                        assert(prefix_of(out@) + (scan_props(props, i as int, key@, j as int + 1)
                            + scan_exports(gv, key@, i as int + 1)) =~= prefix_of(out0) + (
                        scan_props(props, i as int, key@, j as int) + scan_exports(
                            gv,
                            key@,
                            i as int + 1,
                        )));
                    }
                } else {
                    proof {
                        assert(!prop_matches_key(props[j as int], key@));
                    }
                }
                j = j + 1;
            }
            proof {
                assert(scan_props(props, i as int, key@, pn as int) =~= Seq::<
                    (int, int, Option<Seq<char>>),
                >::empty());
                assert(scan_props(props, i as int, key@, pn as int) + scan_exports(
                    gv,
                    key@,
                    i as int + 1,
                ) =~= scan_exports(gv, key@, i as int + 1));
            }
        } else {
            proof {
                assert(scan_exports(gv, key@, i as int) =~= scan_exports(gv, key@, i as int + 1));
            }
        }
        i = i + 1;
    }
    proof {
        let done = scan_exports(gv, key@, 0);
        assert(scan_exports(gv, key@, n as int) =~= Seq::<(int, int, Option<Seq<char>>)>::empty());
        assert(prefix_of(out@) + Seq::<(int, int, Option<Seq<char>>)>::empty() =~= prefix_of(
            out@,
        ));
        assert(done =~= prefix_of(out@));
    }
    Ok(out)
}

/// The triples an output vector stands for.
pub open spec fn prefix_of(v: Seq<(usize, usize, String)>) -> Seq<(int, int, Option<Seq<char>>)> {
    Seq::new(v.len(), |k: int| (v[k].0 as int, v[k].1 as int, Some(v[k].2@)))
}

/// The graph keeps its export count, every property list its length, and
/// every array property stays an array: what the append-only surgery
/// guarantees, and what keeps scan positions valid while patching.
pub open spec fn shape_preserved(g0: GraphV, g: GraphV) -> bool {
    &&& g.exports.len() == g0.exports.len()
    &&& forall|i: int| 0 <= i < g0.exports.len() ==> (#[trigger] g.exports[i]).properties.len()
        == g0.exports[i].properties.len()
    &&& forall|i: int, j: int|
        0 <= i < g0.exports.len() && 0 <= j < g0.exports[i].properties.len() && (
        #[trigger] g0.exports[i].properties[j]) is Array ==> (#[trigger] g.exports[i].properties[j])
            is Array
}

proof fn lemma_shape_preserved_step(g0: GraphV, g: GraphV, g2: GraphV, i: int, j: int, p: PropertyV)
    requires
        shape_preserved(g0, g),
        0 <= i < g.exports.len(),
        0 <= j < g.exports[i].properties.len(),
        g.exports[i].properties[j] is Array,
        g2.exports == g.exports.update(i, export_with_pushed(g.exports[i], seq![j], p)),
    ensures
        shape_preserved(g0, g2),
{
    let e2 = export_with_pushed(g.exports[i], seq![j], p);
    assert(e2.properties == g.exports[i].properties.update(
        j,
        crate::mutator::array_pushed(g.exports[i].properties[j], p),
    ));
    assert forall|x: int|
        0 <= x < g0.exports.len() implies (#[trigger] g2.exports[x]).properties.len()
        == g0.exports[x].properties.len() by {
        if x != i {
            assert(g2.exports[x] == g.exports[x]);
        }
    }
    assert forall|x: int, y: int|
        0 <= x < g0.exports.len() && 0 <= y < g0.exports[x].properties.len() && (
        #[trigger] g0.exports[x].properties[y]) is Array implies (
    #[trigger] g2.exports[x].properties[y]) is Array by {
        if x == i {
            if y == j {
                assert(g2.exports[x].properties[y] == crate::mutator::array_pushed(
                    g.exports[i].properties[j],
                    p,
                ));
            } else {
                assert(g2.exports[x].properties[y] == g.exports[x].properties[y]);
            }
        } else {
            assert(g2.exports[x] == g.exports[x]);
        }
    }
}

/// Applies one merged item-list structure to one decoded asset graph.
///
/// Every entry whose key addresses at least one array property in the graph
/// gets each of its item paths appended to each addressed array: arrays of
/// object references share one lazily interned class import chain per item,
/// arrays of soft references get a soft path value, arrays of other
/// declared types are left alone. Entries addressing nothing are skipped.
/// On any error the graph is left exactly as it was.
pub fn handle_item_list_entries_for_asset(
    g: &mut AssetGraph,
    entries: &Vec<(String, Vec<String>)>,
) -> (r: Result<(), IntegratorError>)
    requires
        old(g).imports@.len() + 2 * total_items(entries.deep_view()) < 0x7fff_ffff,
    ensures
        ({
            let g0 = old(g).deep_view();
            let ev = entries.deep_view();
            match r {
                Ok(u) => entries_scan_ok(g0, ev) && entry_items_ok(g0, ev) && final(g).deep_view()
                    == apply_entries(g0, g0, ev, 0),
                Err(e) => final(g).deep_view() == g0 && match e.deep_view() {
                    IntegratorErrorV::CorruptBaseAsset { detail } => detail
                        == "Invalid array_property"@ && !entries_scan_ok(g0, ev),
                    IntegratorErrorV::MalformedPatch { handler, detail } => handler
                        == "item_list_entries"@ && detail == "Invalid item_path"@
                        && entries_scan_ok(g0, ev) && !entry_items_ok(g0, ev),
                    _ => false,
                },
            }
        }),
{
    let ghost g0 = old(g).deep_view();
    let ghost ev = entries.deep_view();
    let en = entries.len();
    // Scan and parse everything up front, so an error leaves the graph
    // exactly as it was; every key is scanned before any item is parsed, as
    // a corrupt array outranks a malformed item path.
    let mut all_triples: Vec<Vec<(usize, usize, String)>> = Vec::new();
    let mut e: usize = 0;
    while e < en
        invariant
            e <= en,
            en == entries@.len(),
            ev == entries.deep_view(),
            ev.len() == en,
            g.deep_view() == g0,
            all_triples@.len() == e,
            forall|x: int| 0 <= x < e ==> {
                &&& prefix_of((#[trigger] all_triples@[x])@) == scan_exports(g0, ev[x].0, 0)
                &&& !scan_has_untyped(scan_exports(g0, ev[x].0, 0))
            },
        decreases en - e,
    {
        proof {
            assert(ev[e as int] == (entries@[e as int].0@, entries@[e as int].1.deep_view()));
        }
        let triples = match scan_item_arrays(g, entries[e].0.as_str()) {
            Ok(t) => t,
            Err(err) => {
                proof {
                    assert(scan_has_untyped(scan_exports(g0, ev[e as int].0, 0)));
                    assert(!entries_scan_ok(g0, ev));
                }
                return Err(err);
            },
        };
        all_triples.push(triples);
        e = e + 1;
    }
    proof {
        assert forall|x: int|
            0 <= x < ev.len() implies !scan_has_untyped(
            scan_exports(g0, (#[trigger] ev[x]).0, 0),
        ) by {
            assert(prefix_of(all_triples@[x]@) == scan_exports(g0, ev[x].0, 0));
        }
        assert(entries_scan_ok(g0, ev));
    }
    let mut all_parts: Vec<Vec<(String, String, String)>> = Vec::new();
    let mut e1: usize = 0;
    while e1 < en
        invariant
            e1 <= en,
            en == entries@.len(),
            ev == entries.deep_view(),
            ev.len() == en,
            g.deep_view() == g0,
            entries_scan_ok(g0, ev),
            all_triples@.len() == en,
            forall|x: int| 0 <= x < en ==> {
                &&& prefix_of((#[trigger] all_triples@[x])@) == scan_exports(g0, ev[x].0, 0)
                &&& !scan_has_untyped(scan_exports(g0, ev[x].0, 0))
            },
            all_parts@.len() == e1,
            forall|x: int| 0 <= x < e1 ==> (#[trigger] all_parts@[x])@.len() == (
            if scan_exports(g0, ev[x].0, 0).len() > 0 {
                ev[x].1.len()
            } else {
                0
            }),
            forall|x: int, q: int|
                0 <= x < e1 && scan_exports(g0, (#[trigger] ev[x]).0, 0).len() > 0 && 0 <= q
                    < ev[x].1.len() ==> item_path_parts(ev[x].1[q]) == Some(
                    ((#[trigger] all_parts@[x]@[q]).0@, all_parts@[x]@[q].1@, all_parts@[x]@[q].2@),
                ),
        decreases en - e1,
    {
        proof {
            assert(ev[e1 as int] == (entries@[e1 as int].0@, entries@[e1 as int].1.deep_view()));
        }
        let triples = &all_triples[e1];
        let mut parts: Vec<(String, String, String)> = Vec::new();
        if triples.len() > 0 {
            proof {
                assert(prefix_of(triples@) == scan_exports(g0, ev[e1 as int].0, 0));
                assert(scan_exports(g0, ev[e1 as int].0, 0).len() > 0);
            }
            let items = &entries[e1].1;
            let ghost itemsv = ev[e1 as int].1;
            proof {
                assert(itemsv == entries@[e1 as int].1.deep_view());
            }
            let qn = items.len();
            let mut q: usize = 0;
            while q < qn
                invariant
                    q <= qn,
                    qn == items@.len(),
                    itemsv == items.deep_view(),
                    itemsv.len() == qn,
                    e1 < en,
                    ev == entries.deep_view(),
                    ev.len() == en,
                    g.deep_view() == g0,
                    entries_scan_ok(g0, ev),
                    itemsv == ev[e1 as int].1,
                    scan_exports(g0, ev[e1 as int].0, 0).len() > 0,
                    parts@.len() == q,
                    forall|w: int| 0 <= w < q ==> item_path_parts(itemsv[w]) == Some(
                        ((#[trigger] parts@[w]).0@, parts@[w].1@, parts@[w].2@),
                    ),
                decreases qn - q,
            {
                proof {
                    assert(itemsv[q as int] == items@[q as int]@);
                }
                match parse_item_path(items[q].as_str()) {
                    Some(p) => {
                        parts.push(p);
                    },
                    None => {
                        proof {
                            assert(item_path_parts(itemsv[q as int]) is None);
                            assert(!entry_items_ok(g0, ev));
                        }
                        return Err(
                            IntegratorError::MalformedPatch {
                                handler: "item_list_entries".to_owned(),
                                detail: "Invalid item_path".to_owned(),
                            },
                        );
                    },
                }
                q = q + 1;
            }
        }
        all_parts.push(parts);
        e1 = e1 + 1;
    }
    proof {
        assert(entry_items_ok(g0, ev)) by {
            assert forall|x: int, q: int|
                0 <= x < ev.len() && 0 <= q < (#[trigger] ev[x]).1.len() && scan_exports(
                    g0,
                    ev[x].0,
                    0,
                ).len() > 0 implies item_path_parts(#[trigger] ev[x].1[q]) is Some by {
                assert(all_parts@[x]@.len() == ev[x].1.len());
                assert(item_path_parts(ev[x].1[q]) == Some(
                    (all_parts@[x]@[q].0@, all_parts@[x]@[q].1@, all_parts@[x]@[q].2@),
                ));
            }
        }
    }
    // Apply.
    let mut e2: usize = 0;
    while e2 < en
        invariant
            e2 <= en,
            en == entries@.len(),
            ev == entries.deep_view(),
            ev.len() == en,
            all_triples@.len() == en,
            all_parts@.len() == en,
            forall|x: int| 0 <= x < en ==> {
                &&& prefix_of((#[trigger] all_triples@[x])@) == scan_exports(g0, ev[x].0, 0)
                &&& !scan_has_untyped(scan_exports(g0, ev[x].0, 0))
            },
            forall|x: int| 0 <= x < en ==> (#[trigger] all_parts@[x])@.len() == (
            if scan_exports(g0, ev[x].0, 0).len() > 0 {
                ev[x].1.len()
            } else {
                0
            }),
            forall|x: int, q: int|
                0 <= x < en && scan_exports(g0, (#[trigger] ev[x]).0, 0).len() > 0 && 0 <= q
                    < ev[x].1.len() ==> item_path_parts(ev[x].1[q]) == Some(
                    ((#[trigger] all_parts@[x]@[q]).0@, all_parts@[x]@[q].1@, all_parts@[x]@[q].2@),
                ),
            shape_preserved(g0, g.deep_view()),
            g.deep_view().imports.len() <= g0.imports.len() + 2 * total_items(
                ev.take(e2 as int),
            ),
            g0.imports.len() + 2 * total_items(ev) < 0x7fff_ffff,
            apply_entries(g0, g0, ev, 0) == apply_entries(g.deep_view(), g0, ev, e2 as int),
        decreases en - e2,
    {
        let ghost gpre_e = g.deep_view();
        let triples = &all_triples[e2];
        proof {
            lemma_total_items_take(ev, e2 as int);
            lemma_total_items_nonneg(ev, e2 as int);
            lemma_total_items_nonneg(ev, e2 as int + 1);
            lemma_total_items_prefix_bound(ev, e2 as int + 1);
        }
        if triples.len() > 0 {
            let ghost sv = scan_exports(g0, ev[e2 as int].0, 0);
            proof {
                lemma_scan_exports_ok(g0, ev[e2 as int].0, 0);
            }
            let parts = &all_parts[e2];
            proof {
                assert(all_parts@[e2 as int]@.len() == ev[e2 as int].1.len());
                assert forall|w: int|
                    0 <= w < ev[e2 as int].1.len() implies item_path_parts(
                    ev[e2 as int].1[w],
                ) == Some(((#[trigger] parts@[w]).0@, parts@[w].1@, parts@[w].2@)) by {
                    assert(item_path_parts(ev[e2 as int].1[w]) == Some(
                        (
                        all_parts@[e2 as int]@[w].0@,
                        all_parts@[e2 as int]@[w].1@,
                        all_parts@[e2 as int]@[w].2@,
                        ),
                    ));
                }
            }
            let qn = parts.len();
            let mut q: usize = 0;
            while q < qn
                invariant
                    q <= qn,
                    qn == parts@.len(),
                    e2 < en,
                    en == entries@.len(),
                    ev == entries.deep_view(),
                    ev.len() == en,
                    prefix_of(triples@) == sv,
                    sv == scan_exports(g0, ev[e2 as int].0, 0),
                    triples@.len() > 0,
                    triples_ok(g0, sv),
                    !scan_has_untyped(sv),
                    qn == ev[e2 as int].1.len(),
                    forall|w: int| 0 <= w < qn ==> item_path_parts(ev[e2 as int].1[w]) == Some(
                        ((#[trigger] parts@[w]).0@, parts@[w].1@, parts@[w].2@),
                    ),
                    shape_preserved(g0, g.deep_view()),
                    g.deep_view().imports.len() <= g0.imports.len() + 2 * (total_items(
                        ev.take(e2 as int),
                    ) + q),
                    g0.imports.len() + 2 * total_items(ev) < 0x7fff_ffff,
                    total_items(ev.take(e2 as int)) + qn <= total_items(ev.take(e2 as int + 1)),
                    0 <= total_items(ev.take(e2 as int)),
                    total_items(ev.take(e2 as int + 1)) <= total_items(ev),
                    apply_items(gpre_e, sv, ev[e2 as int].1, 0) == apply_items(
                        g.deep_view(),
                        sv,
                        ev[e2 as int].1,
                        q as int,
                    ),
                decreases qn - q,
            {
                let ghost gpre_q = g.deep_view();
                let asset = &parts[q].0;
                let cls = &parts[q].1;
                let soft = &parts[q].2;
                let tn = triples.len();
                let mut t: usize = 0;
                let mut chain: i32 = 0;
                while t < tn
                    invariant
                        t <= tn,
                        tn == triples@.len(),
                        prefix_of(triples@) == sv,
                        sv.len() == tn,
                        triples_ok(g0, sv),
                        !scan_has_untyped(sv),
                        shape_preserved(g0, g.deep_view()),
                        chain == 0 ==> g.deep_view().imports.len() == gpre_q.imports.len(),
                        chain != 0 ==> g.deep_view().imports.len() == gpre_q.imports.len() + 2,
                        gpre_q.imports.len() <= g0.imports.len() + 2 * (total_items(
                            ev.take(e2 as int),
                        ) + q),
                        g0.imports.len() + 2 * total_items(ev) < 0x7fff_ffff,
                        total_items(ev.take(e2 as int)) + q < total_items(ev),
                        0 <= total_items(ev.take(e2 as int)),
                        apply_item_triples(gpre_q, sv, 0, asset@, cls@, soft@, 0)
                            == apply_item_triples(
                            g.deep_view(),
                            sv,
                            t as int,
                            asset@,
                            cls@,
                            soft@,
                            chain as int,
                        ),
                    decreases tn - t,
                {
                    let ghost gpre_t = g.deep_view();
                    let ghost chain_pre = chain as int;
                    proof {
                        assert(sv[t as int] == (
                        triples@[t as int].0 as int,
                        triples@[t as int].1 as int,
                        Some(triples@[t as int].2@),
                        ));
                        assert(0 <= sv[t as int].0 < g0.exports.len());
                        assert(0 <= sv[t as int].1 < g0.exports[sv[t as int].0].properties.len());
                        assert(g0.exports[sv[t as int].0].properties[sv[t as int].1] is Array);
                    }
                    let ei = triples[t].0;
                    let pj = triples[t].1;
                    let is_obj = str_eq(triples[t].2.as_str(), "ObjectProperty");
                    let is_soft = if is_obj {
                        false
                    } else {
                        str_eq(triples[t].2.as_str(), "SoftObjectProperty")
                    };
                    if is_obj {
                        if chain == 0 {
                            let mut steps: Vec<(String, String, String)> = Vec::new();
                            steps.push(
                                (
                                    "/Script/CoreUObject".to_owned(),
                                    "Package".to_owned(),
                                    asset.clone(),
                                ),
                            );
                            steps.push(
                                (
                                    "/Script/Engine".to_owned(),
                                    "BlueprintGeneratedClass".to_owned(),
                                    cls.clone(),
                                ),
                            );
                            proof {
                                assert(steps.deep_view() =~~= item_chain_steps(asset@, cls@));
                            }
                            chain = intern_import_chain(g, &steps);
                        }
                        let arr_name: FName = read_array_name(g, ei, pj);
                        let newprop = Property::Object {
                            name: arr_name,
                            value: chain,
                            has_guid: false,
                        };
                        let mut path_idx: Vec<usize> = Vec::new();
                        path_idx.push(pj);
                        proof {
                            assert(crate::mutator::idxs_of(path_idx@) =~= seq![pj as int]);
                            assert(g.deep_view().exports[ei as int].properties[pj as int]
                                is Array);
                            assert(crate::mutator::path_valid(
                                g.deep_view().exports[ei as int].properties,
                                seq![pj as int],
                            ));
                        }
                        let ghost gmid = g.deep_view();
                        push_to_export_array(g, ei, &path_idx, newprop);
                        proof {
                            lemma_shape_preserved_step(
                                g0,
                                gmid,
                                g.deep_view(),
                                ei as int,
                                pj as int,
                                newprop.deep_view(),
                            );
                            assert(apply_item_triples(
                                gpre_t,
                                sv,
                                t as int,
                                asset@,
                                cls@,
                                soft@,
                                chain_pre,
                            ) == apply_item_triples(
                                g.deep_view(),
                                sv,
                                t as int + 1,
                                asset@,
                                cls@,
                                soft@,
                                chain as int,
                            )) by {
                                assert(sv[t as int].2 == Some("ObjectProperty"@));
                                assert(gmid.exports == gpre_t.exports);
                                if chain_pre == 0 {
                                    assert(chain as int == -(gpre_t.imports.len() + 2));
                                    assert(gmid.imports == gpre_t.imports + chain_views(
                                        gpre_t.imports.len() as int,
                                        item_chain_steps(asset@, cls@),
                                    ));
                                } else {
                                    assert(gmid == gpre_t);
                                    assert(chain as int == chain_pre);
                                }
                                assert(newprop.deep_view() == PropertyV::Object {
                                    name: gmid.exports[ei as int].properties[pj as int].name(),
                                    value: chain as int,
                                    has_guid: false,
                                });
                                assert(g.deep_view().imports == gmid.imports);
                                assert(g.deep_view().exports == gmid.exports.update(
                                    ei as int,
                                    export_with_pushed(
                                        gmid.exports[ei as int],
                                        seq![pj as int],
                                        newprop.deep_view(),
                                    ),
                                ));
                            }
                        }
                    } else if is_soft {
                        let arr_name: FName = read_array_name(g, ei, pj);
                        let newprop = Property::SoftObject {
                            name: arr_name,
                            asset_path: FName::new(asset.as_str()),
                            sub_path: Some(soft.clone()),
                        };
                        let mut path_idx: Vec<usize> = Vec::new();
                        path_idx.push(pj);
                        proof {
                            assert(crate::mutator::idxs_of(path_idx@) =~= seq![pj as int]);
                            assert(g.deep_view().exports[ei as int].properties[pj as int]
                                is Array);
                            assert(crate::mutator::path_valid(
                                g.deep_view().exports[ei as int].properties,
                                seq![pj as int],
                            ));
                        }
                        let ghost gmid = g.deep_view();
                        push_to_export_array(g, ei, &path_idx, newprop);
                        proof {
                            lemma_shape_preserved_step(
                                g0,
                                gmid,
                                g.deep_view(),
                                ei as int,
                                pj as int,
                                newprop.deep_view(),
                            );
                            assert(apply_item_triples(
                                gpre_t,
                                sv,
                                t as int,
                                asset@,
                                cls@,
                                soft@,
                                chain_pre,
                            ) == apply_item_triples(
                                g.deep_view(),
                                sv,
                                t as int + 1,
                                asset@,
                                cls@,
                                soft@,
                                chain as int,
                            )) by {
                                assert(sv[t as int].2 == Some("SoftObjectProperty"@));
                                assert(sv[t as int].2 != Some("ObjectProperty"@));
                                assert(newprop.deep_view() == PropertyV::SoftObject {
                                    name: gpre_t.exports[ei as int].properties[pj as int].name(),
                                    asset_path: FNameV { text: asset@, number: 0 },
                                    sub_path: Some(soft@),
                                });
                                assert(g.deep_view().imports == gmid.imports);
                                assert(g.deep_view().exports == gmid.exports.update(
                                    ei as int,
                                    export_with_pushed(
                                        gmid.exports[ei as int],
                                        seq![pj as int],
                                        newprop.deep_view(),
                                    ),
                                ));
                            }
                        }
                    } else {
                        proof {
                            assert(sv[t as int].2 != Some("ObjectProperty"@));
                            assert(sv[t as int].2 != Some("SoftObjectProperty"@));
                            assert(apply_item_triples(
                                gpre_t,
                                sv,
                                t as int,
                                asset@,
                                cls@,
                                soft@,
                                chain_pre,
                            ) == apply_item_triples(
                                g.deep_view(),
                                sv,
                                t as int + 1,
                                asset@,
                                cls@,
                                soft@,
                                chain as int,
                            ));
                        }
                    }
                    t = t + 1;
                }
                proof {
                    assert(apply_item_triples(
                        g.deep_view(),
                        sv,
                        tn as int,
                        asset@,
                        cls@,
                        soft@,
                        chain as int,
                    ) == (g.deep_view(), chain as int));
                    assert(item_path_parts(ev[e2 as int].1[q as int]) == Some(
                        (asset@, cls@, soft@),
                    ));
                    assert(apply_items(gpre_q, sv, ev[e2 as int].1, q as int) == apply_items(
                        g.deep_view(),
                        sv,
                        ev[e2 as int].1,
                        q as int + 1,
                    ));
                }
                q = q + 1;
            }
            proof {
                assert(apply_items(g.deep_view(), sv, ev[e2 as int].1, qn as int)
                    == g.deep_view());
                assert(apply_entries(gpre_e, g0, ev, e2 as int) == apply_entries(
                    g.deep_view(),
                    g0,
                    ev,
                    e2 as int + 1,
                ));
                assert(g.deep_view().imports.len() <= g0.imports.len() + 2 * total_items(
                    ev.take(e2 as int + 1),
                ));
            }
        } else {
            proof {
                assert(scan_exports(g0, ev[e2 as int].0, 0).len() == 0);
                assert(apply_entries(gpre_e, g0, ev, e2 as int) == apply_entries(
                    g.deep_view(),
                    g0,
                    ev,
                    e2 as int + 1,
                ));
                assert(total_items(ev.take(e2 as int)) <= total_items(ev.take(e2 as int + 1)));
            }
        }
        e2 = e2 + 1;
    }
    proof {
        assert(apply_entries(g.deep_view(), g0, ev, en as int) == g.deep_view());
        lemma_take_all(ev);
    }
    Ok(())
}

/// A duplicate of the name of the array property at `(ei, pj)`.
fn read_array_name(g: &AssetGraph, ei: usize, pj: usize) -> (r: FName)
    requires
        ei < g.exports@.len(),
        pj < g.deep_view().exports[ei as int].properties.len(),
    ensures
        r.deep_view() == g.deep_view().exports[ei as int].properties[pj as int].name(),
{
    proof {
        assert(g.deep_view().exports[ei as int] == g.exports@[ei as int].deep_view());
        lemma_prop_views(g.exports@[ei as int].properties@);
    }
    let e = &g.exports[ei];
    e.properties[pj].get_name().duplicate()
}

proof fn lemma_total_items_take(ev: Seq<(Seq<char>, Seq<Seq<char>>)>, e: int)
    requires
        0 <= e < ev.len(),
    ensures
        total_items(ev.take(e + 1)) == total_items(ev.take(e)) + ev[e].1.len(),
{
    assert(ev.take(e + 1).drop_last() =~= ev.take(e));
    assert(ev.take(e + 1).last() == ev[e]);
}

proof fn lemma_total_items_nonneg(ev: Seq<(Seq<char>, Seq<Seq<char>>)>, e: int)
    requires
        0 <= e <= ev.len(),
    ensures
        0 <= total_items(ev.take(e)),
    decreases e,
{
    if e > 0 {
        lemma_total_items_nonneg(ev, e - 1);
        lemma_total_items_take(ev, e - 1);
    } else {
        assert(ev.take(0) =~= Seq::<(Seq<char>, Seq<Seq<char>>)>::empty());
    }
}

proof fn lemma_total_items_prefix_bound(ev: Seq<(Seq<char>, Seq<Seq<char>>)>, e: int)
    requires
        0 <= e <= ev.len(),
    ensures
        total_items(ev.take(e)) <= total_items(ev),
    decreases ev.len() - e,
{
    if e < ev.len() {
        lemma_total_items_take(ev, e);
        lemma_total_items_prefix_bound(ev, e + 1);
    } else {
        lemma_take_all(ev);
    }
}

proof fn lemma_take_all(ev: Seq<(Seq<char>, Seq<Seq<char>>)>)
    ensures
        total_items(ev.take(ev.len() as int)) == total_items(ev),
{
    assert(ev.take(ev.len() as int) =~= ev);
}

/// Whether the export's declared class satisfies the key's qualification.
fn export_key_match(g: &AssetGraph, e: &crate::graph::Export, key: &str) -> (r: bool)
    ensures
        r == export_matches_key(g.deep_view(), e.deep_view(), key@),
{
    let n = char_len(key);
    match index_of_char(key, '.') {
        None => true,
        Some(d) => {
            let en = substring(key, 0, d);
            if e.class_index < 0 {
                match get_import(g, e.class_index) {
                    Some(im) => str_eq(im.object_name.text.as_str(), en.as_str()),
                    None => false,
                }
            } else {
                false
            }
        },
    }
}

/// Whether an array property's name is the one the key addresses.
fn key_array_match(name: &FName, key: &str) -> (r: bool)
    ensures
        r == (name.deep_view().text == key_array_name(key@)),
{
    let n = char_len(key);
    match index_of_char(key, '.') {
        None => str_eq(name.text.as_str(), key),
        Some(d) => {
            let rest = substring(key, d + 1, n);
            let rn = char_len(rest.as_str());
            let arr = match index_of_char(rest.as_str(), '.') {
                Some(d2) => substring(rest.as_str(), 0, d2),
                None => rest,
            };
            str_eq(name.text.as_str(), arr.as_str())
        },
    }
}


/// Index validity for one item: every reference the routing appends — the
/// lazily interned chain and each array element — resolves, and the graph
/// keeps every index it already resolved.
proof fn lemma_apply_item_triples_wf(
    g: GraphV,
    triples: Seq<(int, int, Option<Seq<char>>)>,
    t: int,
    asset: Seq<char>,
    cls: Seq<char>,
    soft: Seq<char>,
    chain: int,
)
    requires
        crate::graph::graph_wf(g),
        triples_ok(g, triples),
        chain == 0 || crate::graph::live_ref(g, chain),
    ensures
        ({
            let r = apply_item_triples(g, triples, t, asset, cls, soft, chain);
            &&& crate::graph::graph_wf(r.0)
            &&& shape_preserved(g, r.0)
            &&& r.0.imports.len() >= g.imports.len()
            &&& (r.1 == 0 || crate::graph::live_ref(r.0, r.1))
        }),
    decreases triples.len() - t,
{
    if 0 <= t < triples.len() {
        let (i, j, ty) = triples[t];
        assert(0 <= i < g.exports.len());
        assert(0 <= j < g.exports[i].properties.len());
        assert(g.exports[i].properties[j] is Array);
        if ty == Some("ObjectProperty"@) {
            let c1 = if chain == 0 {
                -(g.imports.len() as int + 2)
            } else {
                chain
            };
            let steps = item_chain_steps(asset, cls);
            let g1 = if chain == 0 {
                GraphV {
                    imports: g.imports + crate::mutator::chain_views(
                        g.imports.len() as int,
                        steps,
                    ),
                    exports: g.exports,
                }
            } else {
                g
            };
            assert(crate::graph::graph_extends(g1, g));
            assert forall|k: int| 0 <= k < g1.imports.len() implies crate::graph::import_valid(
                g1,
                #[trigger] g1.imports[k],
            ) by {
                if k < g.imports.len() {
                    assert(g1.imports[k] == g.imports[k]);
                    assert(crate::graph::import_valid(g, g.imports[k]));
                } else {
                    crate::mutator::lemma_chain_views_valid(g, g1, g.imports.len() as int, steps);
                    assert(crate::mutator::import_valid_at(g1, k));
                }
            }
            assert forall|k: int| 0 <= k < g1.exports.len() implies crate::graph::export_valid(
                g1,
                #[trigger] g1.exports[k],
            ) by {
                assert(g1.exports[k] == g.exports[k]);
                assert(crate::graph::export_valid(g, g.exports[k]));
                crate::graph::lemma_export_valid_mono(g, g1, g.exports[k]);
            }
            assert(crate::graph::graph_wf(g1));
            let newprop = PropertyV::Object {
                name: g1.exports[i].properties[j].name(),
                value: c1,
                has_guid: false,
            };
            assert(crate::graph::live_ref(g1, c1));
            let e2 = export_with_pushed(g1.exports[i], seq![j], newprop);
            let g2 = GraphV { imports: g1.imports, exports: g1.exports.update(i, e2) };
            assert(crate::graph::graph_extends(g2, g1));
            assert forall|k: int| 0 <= k < g2.exports.len() implies crate::graph::export_valid(
                g2,
                #[trigger] g2.exports[k],
            ) by {
                crate::graph::lemma_export_valid_mono(g1, g2, g1.exports[k]);
                if k == i {
                    crate::mutator::lemma_export_with_pushed_valid(g2, g1.exports[i], j, newprop);
                } else {
                    assert(g2.exports[k] == g1.exports[k]);
                }
            }
            assert forall|k: int| 0 <= k < g2.imports.len() implies crate::graph::import_valid(
                g2,
                #[trigger] g2.imports[k],
            ) by {
                assert(crate::graph::import_valid(g1, g1.imports[k]));
            }
            assert(crate::graph::graph_wf(g2));
            assert(g2.exports[i].properties == g1.exports[i].properties.update(
                j,
                crate::mutator::array_pushed(g1.exports[i].properties[j], newprop),
            ));
            assert(shape_preserved(g, g2));
            assert(triples_ok(g2, triples));
            lemma_apply_item_triples_wf(g2, triples, t + 1, asset, cls, soft, c1);
            lemma_shape_preserved_trans(
                g,
                g2,
                apply_item_triples(g2, triples, t + 1, asset, cls, soft, c1).0,
            );
        } else if ty == Some("SoftObjectProperty"@) {
            let newprop = PropertyV::SoftObject {
                name: g.exports[i].properties[j].name(),
                asset_path: FNameV { text: asset, number: 0 },
                sub_path: Some(soft),
            };
            let e2 = export_with_pushed(g.exports[i], seq![j], newprop);
            let g2 = GraphV { imports: g.imports, exports: g.exports.update(i, e2) };
            assert(crate::graph::graph_extends(g2, g));
            assert forall|k: int| 0 <= k < g2.exports.len() implies crate::graph::export_valid(
                g2,
                #[trigger] g2.exports[k],
            ) by {
                assert(crate::graph::export_valid(g, g.exports[k]));
                crate::graph::lemma_export_valid_mono(g, g2, g.exports[k]);
                if k == i {
                    assert(crate::graph::prop_valid(g2, newprop));
                    crate::mutator::lemma_export_with_pushed_valid(g2, g.exports[i], j, newprop);
                } else {
                    assert(g2.exports[k] == g.exports[k]);
                }
            }
            assert forall|k: int| 0 <= k < g2.imports.len() implies crate::graph::import_valid(
                g2,
                #[trigger] g2.imports[k],
            ) by {
                assert(crate::graph::import_valid(g, g.imports[k]));
            }
            assert(crate::graph::graph_wf(g2));
            assert(g2.exports[i].properties == g.exports[i].properties.update(
                j,
                crate::mutator::array_pushed(g.exports[i].properties[j], newprop),
            ));
            assert(shape_preserved(g, g2));
            assert(triples_ok(g2, triples));
            lemma_apply_item_triples_wf(g2, triples, t + 1, asset, cls, soft, chain);
            lemma_shape_preserved_trans(
                g,
                g2,
                apply_item_triples(g2, triples, t + 1, asset, cls, soft, chain).0,
            );
        } else {
            lemma_apply_item_triples_wf(g, triples, t + 1, asset, cls, soft, chain);
        }
    } else {
        assert(shape_preserved(g, g));
    }
}

proof fn lemma_shape_preserved_trans(a: GraphV, b: GraphV, c: GraphV)
    requires
        shape_preserved(a, b),
        shape_preserved(b, c),
    ensures
        shape_preserved(a, c),
{
    assert forall|x: int, y: int|
        0 <= x < a.exports.len() && 0 <= y < a.exports[x].properties.len() && (
        #[trigger] a.exports[x].properties[y]) is Array implies (
    #[trigger] c.exports[x].properties[y]) is Array by {
        assert(b.exports[x].properties[y] is Array);
    }
}

proof fn lemma_triples_ok_transfer(
    g0: GraphV,
    g: GraphV,
    s: Seq<(int, int, Option<Seq<char>>)>,
)
    requires
        triples_ok(g0, s),
        shape_preserved(g0, g),
    ensures
        triples_ok(g, s),
{
    assert forall|k: int| 0 <= k < s.len() implies {
        let t = #[trigger] s[k];
        &&& 0 <= t.0 < g.exports.len()
        &&& 0 <= t.1 < g.exports[t.0].properties.len()
        &&& g.exports[t.0].properties[t.1] is Array
    } by {
        let t = s[k];
        assert(g0.exports[t.0].properties[t.1] is Array);
    }
}

/// Index validity for a whole entry's items.
proof fn lemma_apply_items_wf(
    g: GraphV,
    g0: GraphV,
    triples: Seq<(int, int, Option<Seq<char>>)>,
    items: Seq<Seq<char>>,
    q: int,
)
    requires
        crate::graph::graph_wf(g),
        triples_ok(g0, triples),
        shape_preserved(g0, g),
    ensures
        crate::graph::graph_wf(apply_items(g, triples, items, q)),
        shape_preserved(g0, apply_items(g, triples, items, q)),
    decreases items.len() - q,
{
    if 0 <= q < items.len() {
        match item_path_parts(items[q]) {
            Some(parts) => {
                lemma_triples_ok_transfer(g0, g, triples);
                lemma_apply_item_triples_wf(g, triples, 0, parts.0, parts.1, parts.2, 0);
                let g2 = apply_item_triples(g, triples, 0, parts.0, parts.1, parts.2, 0).0;
                lemma_shape_preserved_trans(g0, g, g2);
                lemma_apply_items_wf(g2, g0, triples, items, q + 1);
            },
            None => {
                lemma_apply_items_wf(g, g0, triples, items, q + 1);
            },
        }
    }
}

/// Index validity for this strategy: starting from a graph whose indices
/// all resolve, appending the merged item lists keeps them resolving, and
/// every reference it adds resolves too.
pub proof fn lemma_apply_entries_wf(
    g: GraphV,
    g0: GraphV,
    entries: Seq<(Seq<char>, Seq<Seq<char>>)>,
    e: int,
)
    requires
        crate::graph::graph_wf(g),
        shape_preserved(g0, g),
    ensures
        crate::graph::graph_wf(apply_entries(g, g0, entries, e)),
        shape_preserved(g0, apply_entries(g, g0, entries, e)),
    decreases entries.len() - e,
{
    if 0 <= e < entries.len() {
        let triples = scan_exports(g0, entries[e].0, 0);
        if triples.len() == 0 {
            lemma_apply_entries_wf(g, g0, entries, e + 1);
        } else {
            lemma_scan_exports_ok(g0, entries[e].0, 0);
            lemma_apply_items_wf(g, g0, triples, entries[e].1, 0);
            let g2 = apply_items(g, triples, entries[e].1, 0);
            lemma_apply_entries_wf(g2, g0, entries, e + 1);
        }
    }
}


/// Soft versus hard reference routing, as one appended item shows it: an
/// array of object references gets an object property backed by a fresh
/// two-step class import chain, while an array of soft references gets a
/// soft path value carrying the asset path and the soft class name, with no
/// import interned at all.
pub proof fn lemma_reference_routing(
    g: GraphV,
    i: int,
    j: int,
    asset: Seq<char>,
    cls: Seq<char>,
    soft: Seq<char>,
)
    requires
        0 <= i < g.exports.len(),
        0 <= j < g.exports[i].properties.len(),
        g.exports[i].properties[j] is Array,
    ensures
        ({
            let hard = apply_item_triples(
                g,
                seq![(i, j, Some("ObjectProperty"@))],
                0,
                asset,
                cls,
                soft,
                0,
            );
            &&& hard.0.imports == g.imports + chain_views(
                g.imports.len() as int,
                item_chain_steps(asset, cls),
            )
            &&& hard.1 == -(g.imports.len() + 2)
            &&& hard.0.exports[i].properties[j] == crate::mutator::array_pushed(
                g.exports[i].properties[j],
                PropertyV::Object {
                    name: g.exports[i].properties[j].name(),
                    value: -(g.imports.len() + 2),
                    has_guid: false,
                },
            )
        }),
        ({
            let softr = apply_item_triples(
                g,
                seq![(i, j, Some("SoftObjectProperty"@))],
                0,
                asset,
                cls,
                soft,
                0,
            );
            &&& softr.0.imports == g.imports
            &&& softr.0.exports[i].properties[j] == crate::mutator::array_pushed(
                g.exports[i].properties[j],
                PropertyV::SoftObject {
                    name: g.exports[i].properties[j].name(),
                    asset_path: FNameV { text: asset, number: 0 },
                    sub_path: Some(soft),
                },
            )
        }),
{
    let sh = seq![(i, j, Some("ObjectProperty"@))];
    assert(sh[0] == (i, j, Some("ObjectProperty"@)));
    assert(sh.len() == 1);
    let ss = seq![(i, j, Some("SoftObjectProperty"@))];
    assert(ss[0] == (i, j, Some("SoftObjectProperty"@)));
    assert(ss.len() == 1);
    assert(Some("SoftObjectProperty"@) != Some("ObjectProperty"@)) by {
        reveal_strlit("SoftObjectProperty");
        reveal_strlit("ObjectProperty");
        assert("SoftObjectProperty"@.len() != "ObjectProperty"@.len());
    }
    let c1 = -(g.imports.len() as int + 2);
    let g1 = GraphV {
        imports: g.imports + chain_views(g.imports.len() as int, item_chain_steps(asset, cls)),
        exports: g.exports,
    };
    let nph = PropertyV::Object {
        name: g.exports[i].properties[j].name(),
        value: c1,
        has_guid: false,
    };
    let gh = GraphV {
        imports: g1.imports,
        exports: g1.exports.update(i, export_with_pushed(g1.exports[i], seq![j], nph)),
    };
    assert(apply_item_triples(gh, sh, 1, asset, cls, soft, c1) == (gh, c1));
    assert(apply_item_triples(g, sh, 0, asset, cls, soft, 0) == (gh, c1));
    assert(crate::mutator::props_pushed_at(g.exports[i].properties, seq![j], nph)
        == g.exports[i].properties.update(
        j,
        crate::mutator::array_pushed(g.exports[i].properties[j], nph),
    ));
    assert(gh.exports[i] == export_with_pushed(g.exports[i], seq![j], nph));
    assert(gh.exports[i].properties[j] == crate::mutator::array_pushed(
        g.exports[i].properties[j],
        nph,
    ));
    let nps = PropertyV::SoftObject {
        name: g.exports[i].properties[j].name(),
        asset_path: FNameV { text: asset, number: 0 },
        sub_path: Some(soft),
    };
    let gs = GraphV {
        imports: g.imports,
        exports: g.exports.update(i, export_with_pushed(g.exports[i], seq![j], nps)),
    };
    assert(apply_item_triples(gs, ss, 1, asset, cls, soft, 0) == (gs, 0int));
    assert(apply_item_triples(g, ss, 0, asset, cls, soft, 0) == (gs, 0int));
    assert(crate::mutator::props_pushed_at(g.exports[i].properties, seq![j], nps)
        == g.exports[i].properties.update(
        j,
        crate::mutator::array_pushed(g.exports[i].properties[j], nps),
    ));
    assert(gs.exports[i] == export_with_pushed(g.exports[i], seq![j], nps));
    assert(gs.exports[i].properties[j] == crate::mutator::array_pushed(
        g.exports[i].properties[j],
        nps,
    ));
}

} // verus!
