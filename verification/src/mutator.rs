//! Write operations on a graph: interning import chains, pushing values
//! into (possibly nested) array properties, extending dependency lists and
//! class child lists, and computing name disambiguators.

use vstd::prelude::*;
use crate::graph::{
    AssetGraph, Export, ExportV, ExportKind, ExportKindV, FName, FNameV, GraphV, Import, ImportV,
    Property, PropertyV, prop_views, lemma_prop_views, lemma_prop_views_push,
    lemma_prop_views_update, lemma_export_views_update, export_views, ints_of, export_valid,
    prop_valid, props_valid, valid_ref, import_valid,
};
use crate::strutil::str_eq;

verus! {

/// Indices as mathematical integers.
pub open spec fn idxs_of(s: Seq<usize>) -> Seq<int> {
    s.map_values(|x: usize| x as int)
}

/// The imports an import chain interns: one record per step, the first
/// rooted at null, each later one nested under its predecessor. `start` is
/// how many imports the graph held before the chain.
pub open spec fn chain_views(start: int, steps: Seq<(Seq<char>, Seq<char>, Seq<char>)>) -> Seq<
    ImportV,
> {
    Seq::new(
        steps.len(),
        |i: int|
            ImportV {
                class_package: FNameV { text: steps[i].0, number: 0 },
                class_name: FNameV { text: steps[i].1, number: 0 },
                outer_index: if i == 0 {
                    0
                } else {
                    -(start + i)
                },
                object_name: FNameV { text: steps[i].2, number: 0 },
            },
    )
}

/// Interns one fresh import per step `(class_package, class_name,
/// object_name)`, chaining each step's outer reference to the previous
/// step's new index, and returns the final index (`0` for an empty chain).
/// Never reuses an equivalent existing record.
pub fn intern_import_chain(g: &mut AssetGraph, steps: &Vec<(String, String, String)>) -> (idx: i32)
    requires
        old(g).imports@.len() + steps@.len() < 0x7fff_ffff,
    ensures
        final(g).deep_view().imports == old(g).deep_view().imports + chain_views(
            old(g).deep_view().imports.len() as int,
            steps.deep_view(),
        ),
        final(g).deep_view().exports == old(g).deep_view().exports,
        steps@.len() == 0 ==> idx == 0,
        steps@.len() > 0 ==> idx as int == -(old(g).deep_view().imports.len() + steps@.len()),
{
    let ghost start = old(g).deep_view().imports.len() as int;
    let n = steps.len();
    let mut i: usize = 0;
    let mut prev: i32 = 0;
    while i < n
        invariant
            i <= n,
            n == steps@.len(),
            old(g).imports@.len() + steps@.len() < 0x7fff_ffff,
            start == old(g).deep_view().imports.len(),
            g.imports@.len() == start + i,
            g.deep_view().imports == old(g).deep_view().imports + chain_views(
                start,
                steps.deep_view(),
            ).take(i as int),
            g.deep_view().exports == old(g).deep_view().exports,
            i == 0 ==> prev == 0,
            i > 0 ==> prev as int == -(start + i),
        decreases n - i,
    {
        let imp = Import {
            class_package: FName::new(steps[i].0.as_str()),
            class_name: FName::new(steps[i].1.as_str()),
            outer_index: prev,
            object_name: FName::new(steps[i].2.as_str()),
        };
        let ghost pre = g.deep_view().imports;
        prev = g.add_import(imp);
        proof {
            assert(steps.deep_view()[i as int] == (steps@[i as int].0@, steps@[i as int].1@, steps@[
                i as int].2@));
            assert(chain_views(start, steps.deep_view())[i as int] == imp.deep_view());
            assert(g.deep_view().imports =~= old(g).deep_view().imports + chain_views(
                start,
                steps.deep_view(),
            ).take(i as int + 1));
        }
        i = i + 1;
    }
    proof {
        assert(chain_views(start, steps.deep_view()).take(n as int) =~= chain_views(
            start,
            steps.deep_view(),
        ));
    }
    prev
}

/// The nested elements of an array or struct property.
pub open spec fn children_of(p: PropertyV) -> Seq<PropertyV> {
    match p {
        PropertyV::Array { value, .. } => value,
        PropertyV::Struct { value, .. } => value,
        _ => Seq::empty(),
    }
}

/// A path of element positions descending through arrays and structs and
/// ending at an array property.
pub open spec fn path_valid(props: Seq<PropertyV>, path: Seq<int>) -> bool
    decreases path.len(),
{
    if path.len() == 0 {
        false
    } else {
        let j = path[0];
        &&& 0 <= j < props.len()
        &&& if path.len() == 1 {
            props[j] is Array
        } else {
            (props[j] is Array || props[j] is Struct) && path_valid(
                children_of(props[j]),
                path.drop_first(),
            )
        }
    }
}

/// The array property with `item` appended to its elements.
pub open spec fn array_pushed(p: PropertyV, item: PropertyV) -> PropertyV {
    match p {
        PropertyV::Array { name, array_type, value } => PropertyV::Array {
            name,
            array_type,
            value: value.push(item),
        },
        _ => p,
    }
}

/// The container property with its elements replaced.
pub open spec fn with_children(p: PropertyV, cs: Seq<PropertyV>) -> PropertyV {
    match p {
        PropertyV::Array { name, array_type, .. } => PropertyV::Array {
            name,
            array_type,
            value: cs,
        },
        PropertyV::Struct { name, struct_type, .. } => PropertyV::Struct {
            name,
            struct_type,
            value: cs,
        },
        _ => p,
    }
}

/// The property list after `item` is pushed onto the array property reached
/// by `path`.
pub open spec fn props_pushed_at(props: Seq<PropertyV>, path: Seq<int>, item: PropertyV) -> Seq<
    PropertyV,
>
    decreases path.len(),
{
    let j = path[0];
    if path.len() <= 1 {
        props.update(j, array_pushed(props[j], item))
    } else {
        props.update(
            j,
            with_children(
                props[j],
                props_pushed_at(children_of(props[j]), path.drop_first(), item),
            ),
        )
    }
}

/// Pushes `item` onto the array property reached by `path[k..]` within
/// `props`.
pub fn push_into_props(props: &mut Vec<Property>, path: &Vec<usize>, k: usize, item: Property)
    requires
        k < path@.len(),
        path_valid(prop_views(old(props)@), idxs_of(path@).skip(k as int)),
    ensures
        prop_views(final(props)@) == props_pushed_at(
            prop_views(old(props)@),
            idxs_of(path@).skip(k as int),
            item.deep_view(),
        ),
    decreases path@.len() - k,
{
    let ghost subpath = idxs_of(path@).skip(k as int);
    let ghost oldviews = prop_views(old(props)@);
    proof {
        assert(subpath[0] == path@[k as int] as int);
        lemma_prop_views(old(props)@);
    }
    let plen = path.len();
    let j = path[k];
    let ghost p0 = old(props)@[j as int];
    let p = props.remove(j);
    proof {
        assert(p.deep_view() == oldviews[j as int]);
    }
    if k + 1 == plen {
        let p2 = match p {
            Property::Array { name, array_type, mut value } => {
                let ghost oldval = value@;
                value.push(item);
                proof {
                    lemma_prop_views_push(oldval, item);
                }
                Property::Array { name, array_type, value }
            },
            other => other,
        };
        proof {
            assert(subpath.len() == 1);
            assert(p2.deep_view() == array_pushed(oldviews[j as int], item.deep_view()));
        }
        props.insert(j, p2);
        proof {
            assert(props@ =~= old(props)@.update(j as int, p2));
            lemma_prop_views_update(old(props)@, j as int, p2);
        }
    } else {
        proof {
            assert(idxs_of(path@).skip(k as int + 1) =~= subpath.drop_first());
            assert(path_valid(children_of(oldviews[j as int]), subpath.drop_first()));
        }
        let p2 = match p {
            Property::Array { name, array_type, mut value } => {
                proof {
                    assert(children_of(oldviews[j as int]) == prop_views(value@));
                }
                push_into_props(&mut value, path, k + 1, item);
                Property::Array { name, array_type, value }
            },
            Property::Struct { name, struct_type, mut value } => {
                proof {
                    assert(children_of(oldviews[j as int]) == prop_views(value@));
                }
                push_into_props(&mut value, path, k + 1, item);
                Property::Struct { name, struct_type, value }
            },
            other => other,
        };
        proof {
            assert(p2.deep_view() == with_children(
                oldviews[j as int],
                props_pushed_at(
                    children_of(oldviews[j as int]),
                    subpath.drop_first(),
                    item.deep_view(),
                ),
            ));
        }
        props.insert(j, p2);
        proof {
            assert(props@ =~= old(props)@.update(j as int, p2));
            lemma_prop_views_update(old(props)@, j as int, p2);
        }
    }
}

/// The elements of the array property a path ends at.
pub open spec fn tail_children(props: Seq<PropertyV>, path: Seq<int>) -> Seq<PropertyV>
    decreases path.len(),
{
    if path.len() <= 1 {
        children_of(props[path[0]])
    } else {
        tail_children(children_of(props[path[0]]), path.drop_first())
    }
}

/// Pushing at a path extends exactly that path's array.
pub proof fn lemma_tail_children_after_push(props: Seq<PropertyV>, path: Seq<int>, item: PropertyV)
    requires
        path_valid(props, path),
    ensures
        tail_children(props_pushed_at(props, path, item), path) == tail_children(
            props,
            path,
        ).push(item),
    decreases path.len(),
{
    let j = path[0];
    if path.len() <= 1 {
        assert(props_pushed_at(props, path, item)[j] == array_pushed(props[j], item));
    } else {
        lemma_tail_children_after_push(children_of(props[j]), path.drop_first(), item);
        assert(props_pushed_at(props, path, item)[j] == with_children(
            props[j],
            props_pushed_at(children_of(props[j]), path.drop_first(), item),
        ));
    }
}

/// Pushing at one valid path keeps every valid path valid: the surgery only
/// appends to an array, it never moves or retypes anything.
pub proof fn lemma_push_preserves_path_valid(
    props: Seq<PropertyV>,
    p: Seq<int>,
    p2: Seq<int>,
    item: PropertyV,
)
    requires
        path_valid(props, p),
        path_valid(props, p2),
    ensures
        path_valid(props_pushed_at(props, p, item), p2),
    decreases p2.len(),
{
    let res = props_pushed_at(props, p, item);
    let j = p[0];
    let j2 = p2[0];
    assert(res.len() == props.len());
    if j2 != j {
        assert(res[j2] == props[j2]);
    } else {
        if p.len() == 1 {
            assert(res[j] == array_pushed(props[j], item));
            if p2.len() > 1 {
                let cs = children_of(props[j]);
                let cs2 = children_of(res[j]);
                assert(cs2 == cs.push(item));
                assert(path_valid(cs, p2.drop_first()));
                assert(0 <= p2.drop_first()[0] < cs.len());
                assert(cs2[p2.drop_first()[0]] == cs[p2.drop_first()[0]]);
                lemma_path_valid_same_head(cs, cs2, p2.drop_first());
            }
        } else {
            assert(res[j] == with_children(
                props[j],
                props_pushed_at(children_of(props[j]), p.drop_first(), item),
            ));
            if p2.len() == 1 {
                assert(res[j] is Array);
            } else {
                lemma_push_preserves_path_valid(
                    children_of(props[j]),
                    p.drop_first(),
                    p2.drop_first(),
                    item,
                );
            }
        }
    }
}

/// Path validity only reads the element the path's head names.
proof fn lemma_path_valid_same_head(cs: Seq<PropertyV>, cs2: Seq<PropertyV>, q: Seq<int>)
    requires
        path_valid(cs, q),
        cs2.len() >= cs.len(),
        cs2[q[0]] == cs[q[0]],
    ensures
        path_valid(cs2, q),
{
}

/// The array elements reached by `path[k..]` within `props`.
pub fn len_at_path(props: &Vec<Property>, path: &Vec<usize>, k: usize) -> (r: usize)
    requires
        k < path@.len(),
        path_valid(prop_views(props@), idxs_of(path@).skip(k as int)),
    ensures
        r == tail_children(prop_views(props@), idxs_of(path@).skip(k as int)).len(),
    decreases path@.len() - k,
{
    let ghost subpath = idxs_of(path@).skip(k as int);
    proof {
        assert(subpath[0] == path@[k as int] as int);
        lemma_prop_views(props@);
        assert(prop_views(props@)[path@[k as int] as int] == props@[path@[
            k as int] as int].deep_view());
    }
    let plen = path.len();
    let j = path[k];
    if k + 1 == plen {
        proof {
            assert(subpath.len() == 1);
        }
        match &props[j] {
            Property::Array { value, .. } => {
                proof {
                    lemma_prop_views(value@);
                }
                value.len()
            },
            _ => 0,
        }
    } else {
        proof {
            assert(idxs_of(path@).skip(k as int + 1) =~= subpath.drop_first());
        }
        match &props[j] {
            Property::Array { value, .. } => {
                proof {
                    assert(children_of(prop_views(props@)[j as int]) == prop_views(value@));
                }
                len_at_path(value, path, k + 1)
            },
            Property::Struct { value, .. } => {
                proof {
                    assert(children_of(prop_views(props@)[j as int]) == prop_views(value@));
                }
                len_at_path(value, path, k + 1)
            },
            _ => 0,
        }
    }
}

/// The export with `item` pushed onto the array property its `path`
/// reaches.
pub open spec fn export_with_pushed(e: ExportV, path: Seq<int>, item: PropertyV) -> ExportV {
    ExportV { properties: props_pushed_at(e.properties, path, item), ..e }
}

/// Pushes `item` onto the array property reached by `path` within export
/// `eidx`; everything else in the graph stays as it was.
pub fn push_to_export_array(g: &mut AssetGraph, eidx: usize, path: &Vec<usize>, item: Property)
    requires
        eidx < old(g).exports@.len(),
        path@.len() >= 1,
        path_valid(old(g).deep_view().exports[eidx as int].properties, idxs_of(path@)),
    ensures
        final(g).deep_view().imports == old(g).deep_view().imports,
        final(g).deep_view().exports == old(g).deep_view().exports.update(
            eidx as int,
            export_with_pushed(
                old(g).deep_view().exports[eidx as int],
                idxs_of(path@),
                item.deep_view(),
            ),
        ),
{
    let mut ex = g.exports.remove(eidx);
    proof {
        assert(ex.deep_view() == old(g).deep_view().exports[eidx as int]);
        assert(idxs_of(path@).skip(0) =~= idxs_of(path@));
    }
    push_into_props(&mut ex.properties, path, 0, item);
    proof {
        assert(ex.deep_view() == export_with_pushed(
            old(g).deep_view().exports[eidx as int],
            idxs_of(path@),
            item.deep_view(),
        ));
    }
    g.exports.insert(eidx, ex);
    proof {
        assert(g.exports@ =~= old(g).exports@.update(eidx as int, ex));
        lemma_export_views_update(old(g).exports@, eidx as int, ex);
        assert(crate::graph::import_views(g.imports@) =~= crate::graph::import_views(
            old(g).imports@,
        ));
    }
}

/// Which of the four dependency lists an index is pushed onto.
pub enum DepKind {
    CreateBeforeSerialization,
    CreateBeforeCreate,
    SerializationBeforeSerialization,
    SerializationBeforeCreate,
}

/// The export with `v` appended to the chosen dependency list.
pub open spec fn export_with_dep_pushed(e: ExportV, which: DepKind, v: int) -> ExportV {
    match which {
        DepKind::CreateBeforeSerialization => ExportV {
            create_before_serialization: e.create_before_serialization.push(v),
            ..e
        },
        DepKind::CreateBeforeCreate => ExportV {
            create_before_create: e.create_before_create.push(v),
            ..e
        },
        DepKind::SerializationBeforeSerialization => ExportV {
            serialization_before_serialization: e.serialization_before_serialization.push(v),
            ..e
        },
        DepKind::SerializationBeforeCreate => ExportV {
            serialization_before_create: e.serialization_before_create.push(v),
            ..e
        },
    }
}

/// Appends `value` to one dependency list of export `eidx`; everything else
/// in the graph stays as it was.
pub fn push_dependency(g: &mut AssetGraph, eidx: usize, which: DepKind, value: i32)
    requires
        eidx < old(g).exports@.len(),
    ensures
        final(g).deep_view().imports == old(g).deep_view().imports,
        final(g).deep_view().exports == old(g).deep_view().exports.update(
            eidx as int,
            export_with_dep_pushed(old(g).deep_view().exports[eidx as int], which, value as int),
        ),
{
    let mut ex = g.exports.remove(eidx);
    proof {
        assert(ex.deep_view() == old(g).deep_view().exports[eidx as int]);
    }
    let ghost prev = ex;
    match which {
        DepKind::CreateBeforeSerialization => ex.create_before_serialization.push(value),
        DepKind::CreateBeforeCreate => ex.create_before_create.push(value),
        DepKind::SerializationBeforeSerialization => ex.serialization_before_serialization.push(
            value,
        ),
        DepKind::SerializationBeforeCreate => ex.serialization_before_create.push(value),
    }
    proof {
        assert(ints_of(prev.create_before_serialization@.push(value)) =~= ints_of(
            prev.create_before_serialization@,
        ).push(value as int));
        assert(ints_of(prev.create_before_create@.push(value)) =~= ints_of(
            prev.create_before_create@,
        ).push(value as int));
        assert(ints_of(prev.serialization_before_serialization@.push(value)) =~= ints_of(
            prev.serialization_before_serialization@,
        ).push(value as int));
        assert(ints_of(prev.serialization_before_create@.push(value)) =~= ints_of(
            prev.serialization_before_create@,
        ).push(value as int));
        assert(ex.deep_view() == export_with_dep_pushed(prev.deep_view(), which, value as int));
    }
    g.exports.insert(eidx, ex);
    proof {
        assert(g.exports@ =~= old(g).exports@.update(eidx as int, ex));
        lemma_export_views_update(old(g).exports@, eidx as int, ex);
        assert(crate::graph::import_views(g.imports@) =~= crate::graph::import_views(
            old(g).imports@,
        ));
    }
}

/// The export with `v` appended to its class child list.
pub open spec fn export_with_child_pushed(e: ExportV, v: int) -> ExportV {
    match e.kind {
        ExportKindV::Class { children } => ExportV {
            kind: ExportKindV::Class { children: children.push(v) },
            ..e
        },
        _ => e,
    }
}

/// Appends `value` to the child list of the class export `eidx`; everything
/// else in the graph stays as it was.
pub fn push_class_child(g: &mut AssetGraph, eidx: usize, value: i32)
    requires
        eidx < old(g).exports@.len(),
        old(g).deep_view().exports[eidx as int].kind is Class,
    ensures
        final(g).deep_view().imports == old(g).deep_view().imports,
        final(g).deep_view().exports == old(g).deep_view().exports.update(
            eidx as int,
            export_with_child_pushed(old(g).deep_view().exports[eidx as int], value as int),
        ),
{
    let mut ex = g.exports.remove(eidx);
    proof {
        assert(ex.deep_view() == old(g).deep_view().exports[eidx as int]);
    }
    let ghost prev = ex;
    let kind = match ex.kind {
        ExportKind::Class { mut children } => {
            children.push(value);
            proof {
                assert(ints_of(prev.kind->Class_children@.push(value)) =~= ints_of(
                    prev.kind->Class_children@,
                ).push(value as int));
            }
            ExportKind::Class { children }
        },
        other => other,
    };
    ex.kind = kind;
    proof {
        assert(ex.deep_view() == export_with_child_pushed(prev.deep_view(), value as int));
    }
    g.exports.insert(eidx, ex);
    proof {
        assert(g.exports@ =~= old(g).exports@.update(eidx as int, ex));
        lemma_export_views_update(old(g).exports@, eidx as int, ex);
        assert(crate::graph::import_views(g.imports@) =~= crate::graph::import_views(
            old(g).imports@,
        ));
    }
}

/// The largest numeric disambiguator carried by an export named `base`
/// among the first `upto` exports, or `0` when none is.
pub open spec fn max_export_name_number(exports: Seq<ExportV>, base: Seq<char>, upto: int) -> int
    decreases upto,
{
    if upto <= 0 {
        0
    } else {
        let rest = max_export_name_number(exports, base, upto - 1);
        let e = exports[upto - 1];
        if e.object_name.text == base && e.object_name.number > rest {
            e.object_name.number
        } else {
            rest
        }
    }
}

/// One more than the largest numeric disambiguator among exports named
/// `base`: the number a fresh sibling of that name must carry. `None` when
/// the numbers are exhausted.
pub fn next_disambiguating_number(g: &AssetGraph, base: &str) -> (r: Option<i32>)
    ensures
        ({
            let m = max_export_name_number(
                g.deep_view().exports,
                base@,
                g.deep_view().exports.len() as int,
            );
            match r {
                Some(n) => n as int == m + 1,
                None => m == 0x7fff_ffff,
            }
        }),
{
    let n = g.exports.len();
    let mut i: usize = 0;
    let mut best: i32 = 0;
    while i < n
        invariant
            i <= n,
            n == g.exports@.len(),
            g.deep_view().exports.len() == n,
            best as int == max_export_name_number(g.deep_view().exports, base@, i as int),
        decreases n - i,
    {
        let e = &g.exports[i];
        proof {
            assert(g.deep_view().exports[i as int] == g.exports@[i as int].deep_view());
        }
        if e.object_name.number > best && str_eq(e.object_name.text.as_str(), base) {
            best = e.object_name.number;
        } else {
            proof {
                assert(max_export_name_number(g.deep_view().exports, base@, i as int + 1) == best);
            }
        }
        i = i + 1;
    }
    if best == 0x7fff_ffff {
        None
    } else {
        Some(best + 1)
    }
}

/// The largest numeric disambiguator carried by the names of the first
/// `upto` properties, or `0` when none is.
pub open spec fn max_prop_name_number(props: Seq<PropertyV>, upto: int) -> int
    decreases upto,
{
    if upto <= 0 {
        0
    } else {
        let rest = max_prop_name_number(props, upto - 1);
        if props[upto - 1].name().number > rest {
            props[upto - 1].name().number
        } else {
            rest
        }
    }
}

/// The largest numeric disambiguator among the element names of a property
/// list, or `0` when none is.
pub fn max_element_name_number(props: &Vec<Property>) -> (r: i32)
    ensures
        r as int == max_prop_name_number(prop_views(props@), props@.len() as int),
        r >= 0,
{
    let n = props.len();
    let mut i: usize = 0;
    let mut best: i32 = 0;
    proof {
        lemma_prop_views(props@);
    }
    while i < n
        invariant
            i <= n,
            n == props@.len(),
            best >= 0,
            prop_views(props@).len() == props@.len(),
            forall|j: int| 0 <= j < props@.len() ==> prop_views(props@)[j]
                == #[trigger] props@[j].deep_view(),
            best as int == max_prop_name_number(prop_views(props@), i as int),
        decreases n - i,
    {
        let nm = props[i].get_name();
        if nm.number > best {
            best = nm.number;
        }
        i = i + 1;
    }
    best
}


/// Appending a valid reference to a valid array keeps it valid.
pub proof fn lemma_array_pushed_valid(g: GraphV, p: PropertyV, np: PropertyV)
    requires
        prop_valid(g, p),
        prop_valid(g, np),
    ensures
        prop_valid(g, array_pushed(p, np)),
{
    match p {
        PropertyV::Array { value, .. } => {
            crate::graph::lemma_props_valid_push(g, value, np);
        },
        _ => {},
    }
}

/// Pushing a valid reference onto an array of a valid export keeps the
/// export valid.
pub proof fn lemma_export_with_pushed_valid(g: GraphV, e: ExportV, j: int, np: PropertyV)
    requires
        export_valid(g, e),
        0 <= j < e.properties.len(),
        prop_valid(g, np),
    ensures
        export_valid(g, export_with_pushed(e, seq![j], np)),
{
    crate::graph::lemma_props_valid(g, e.properties);
    assert(prop_valid(g, e.properties[j]));
    lemma_array_pushed_valid(g, e.properties[j], np);
    assert(props_pushed_at(e.properties, seq![j], np) == e.properties.update(
        j,
        array_pushed(e.properties[j], np),
    ));
    crate::graph::lemma_props_valid_update(g, e.properties, j, array_pushed(e.properties[j], np));
}

/// Appending a dependency that resolves keeps the export valid.
pub proof fn lemma_export_with_dep_pushed_valid(g: GraphV, e: ExportV, which: DepKind, v: int)
    requires
        export_valid(g, e),
        valid_ref(g, v),
    ensures
        export_valid(g, export_with_dep_pushed(e, which, v)),
{
    let e2 = export_with_dep_pushed(e, which, v);
    match which {
        DepKind::CreateBeforeSerialization => {
            assert forall|k: int| 0 <= k < e2.create_before_serialization.len() implies valid_ref(
                g,
                #[trigger] e2.create_before_serialization[k],
            ) by {
                if k < e.create_before_serialization.len() {
                    assert(e2.create_before_serialization[k] == e.create_before_serialization[k]);
                }
            }
        },
        DepKind::CreateBeforeCreate => {
            assert forall|k: int| 0 <= k < e2.create_before_create.len() implies valid_ref(
                g,
                #[trigger] e2.create_before_create[k],
            ) by {
                if k < e.create_before_create.len() {
                    assert(e2.create_before_create[k] == e.create_before_create[k]);
                }
            }
        },
        DepKind::SerializationBeforeSerialization => {
            assert forall|k: int|
                0 <= k < e2.serialization_before_serialization.len() implies valid_ref(
                g,
                #[trigger] e2.serialization_before_serialization[k],
            ) by {
                if k < e.serialization_before_serialization.len() {
                    assert(e2.serialization_before_serialization[k]
                        == e.serialization_before_serialization[k]);
                }
            }
        },
        DepKind::SerializationBeforeCreate => {
            assert forall|k: int| 0 <= k < e2.serialization_before_create.len() implies valid_ref(
                g,
                #[trigger] e2.serialization_before_create[k],
            ) by {
                if k < e.serialization_before_create.len() {
                    assert(e2.serialization_before_create[k] == e.serialization_before_create[k]);
                }
            }
        },
    }
}

/// The imports an interned chain appends all resolve: each outer reference
/// names the previous link.
pub proof fn lemma_chain_views_valid(g: GraphV, g2: GraphV, start: int, steps: Seq<
    (Seq<char>, Seq<char>, Seq<char>),
>)
    requires
        start == g.imports.len(),
        g2.imports == g.imports + chain_views(start, steps),
        g2.exports.len() >= g.exports.len(),
    ensures
        forall|k: int| g.imports.len() <= k < g2.imports.len() ==> import_valid_at(g2, k),
{
    assert forall|k: int| g.imports.len() <= k < g2.imports.len() implies import_valid_at(
        g2,
        k,
    ) by {
        let im = g2.imports[k];
        assert(im == chain_views(start, steps)[k - start]);
        if k == start {
            assert(im.outer_index == 0);
        } else {
            assert(im.outer_index == -(k));
            assert(0 < k <= g2.imports.len());
        }
    }
}

/// Validity of the import at one position.
pub open spec fn import_valid_at(g: GraphV, k: int) -> bool {
    crate::graph::import_valid(g, g.imports[k])
}


/// Pushing a valid reference at a valid path keeps the whole property tree
/// valid.
pub proof fn lemma_props_pushed_at_valid(
    g: GraphV,
    props: Seq<PropertyV>,
    path: Seq<int>,
    np: PropertyV,
)
    requires
        props_valid(g, props),
        path_valid(props, path),
        prop_valid(g, np),
    ensures
        props_valid(g, props_pushed_at(props, path, np)),
    decreases path.len(),
{
    let j = path[0];
    crate::graph::lemma_props_valid(g, props);
    assert(prop_valid(g, props[j]));
    if path.len() <= 1 {
        lemma_array_pushed_valid(g, props[j], np);
        crate::graph::lemma_props_valid_update(g, props, j, array_pushed(props[j], np));
    } else {
        let cs = children_of(props[j]);
        assert(props_valid(g, cs));
        lemma_props_pushed_at_valid(g, cs, path.drop_first(), np);
        let p2 = with_children(props[j], props_pushed_at(cs, path.drop_first(), np));
        assert(prop_valid(g, p2));
        crate::graph::lemma_props_valid_update(g, props, j, p2);
    }
}

/// Pushing a valid reference onto the array a valid path reaches keeps the
/// export valid.
pub proof fn lemma_export_with_pushed_path_valid(g: GraphV, e: ExportV, path: Seq<int>, np: PropertyV)
    requires
        export_valid(g, e),
        path_valid(e.properties, path),
        prop_valid(g, np),
    ensures
        export_valid(g, export_with_pushed(e, path, np)),
{
    lemma_props_pushed_at_valid(g, e.properties, path, np);
}


/// Appending a child that resolves keeps the class export valid.
pub proof fn lemma_export_with_child_pushed_valid(g: GraphV, e: ExportV, v: int)
    requires
        export_valid(g, e),
        valid_ref(g, v),
    ensures
        export_valid(g, export_with_child_pushed(e, v)),
{
    match e.kind {
        ExportKindV::Class { children } => {
            let e2 = export_with_child_pushed(e, v);
            assert(e2.kind->Class_children == children.push(v));
            assert forall|k: int| 0 <= k < children.push(v).len() implies valid_ref(
                g,
                #[trigger] children.push(v)[k],
            ) by {
                if k < children.len() {
                    assert(children.push(v)[k] == children[k]);
                }
            }
        },
        _ => {},
    }
}

} // verus!
