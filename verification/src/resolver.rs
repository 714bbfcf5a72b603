//! Read-only anchor queries over a decoded graph: resolving import indices,
//! finding properties by name, finding struct elements by the name values
//! they carry, and looking up well-known imports.
//!
//! Every query is total: absence comes back as `None`, never as a crash.

use vstd::prelude::*;
use crate::graph::{
    AssetGraph, GraphV, Import, ImportV, Property, PropertyV, prop_views, lemma_prop_views,
};
use crate::strutil::str_eq;

verus! {

/// The import a (negative) index names, if it is live.
pub open spec fn import_at(g: GraphV, idx: int) -> Option<ImportV> {
    if idx < 0 && -idx <= g.imports.len() {
        Some(g.imports[-idx - 1])
    } else {
        None
    }
}

/// Resolves a negative index to its import record.
pub fn get_import<'a>(g: &'a AssetGraph, idx: i32) -> (r: Option<&'a Import>)
    ensures
        match r {
            Some(im) => import_at(g.deep_view(), idx as int) == Some(im.deep_view()),
            None => import_at(g.deep_view(), idx as int) is None,
        },
{
    if idx >= 0 {
        return None;
    }
    let pos_wide: i64 = -(idx as i64) - 1;
    let pos: usize = pos_wide as usize;
    if pos < g.imports.len() {
        Some(&g.imports[pos])
    } else {
        None
    }
}

/// Some scanned export declares its class through an import index that does
/// not resolve: the asset is corrupt.
pub open spec fn scan_corrupt(g: GraphV, upto: int) -> bool
    decreases upto,
{
    if upto <= 0 {
        false
    } else {
        let e = g.exports[upto - 1];
        (e.has_properties() && e.class_index < 0 && import_at(g, e.class_index) is None)
            || scan_corrupt(g, upto - 1)
    }
}

/// Corruption seen early is still seen by the full scan.
pub proof fn lemma_scan_corrupt_mono(g: GraphV, a: int, b: int)
    requires
        0 <= a <= b,
        scan_corrupt(g, a),
    ensures
        scan_corrupt(g, b),
    decreases b - a,
{
    if a < b {
        lemma_scan_corrupt_mono(g, a, b - 1);
    }
}

/// The position of the first property at or past `from` whose name text is
/// `name`.
pub open spec fn first_prop_named(s: Seq<PropertyV>, name: Seq<char>, from: int) -> Option<int>
    decreases s.len() - from,
{
    if from < 0 || from >= s.len() {
        None
    } else if s[from].name().text == name {
        Some(from)
    } else {
        first_prop_named(s, name, from + 1)
    }
}

/// The first property in `props` whose name text is `name`; declaration
/// order decides ties.
pub fn find_property(props: &Vec<Property>, name: &str) -> (r: Option<usize>)
    ensures
        match r {
            Some(j) => first_prop_named(prop_views(props@), name@, 0) == Some(j as int) && j
                < props@.len(),
            None => first_prop_named(prop_views(props@), name@, 0) is None,
        },
{
    let n = props.len();
    let mut i: usize = 0;
    proof {
        lemma_prop_views(props@);
    }
    while i < n
        invariant
            i <= n,
            n == props@.len(),
            prop_views(props@).len() == props@.len(),
            forall|j: int| 0 <= j < props@.len() ==> prop_views(props@)[j]
                == #[trigger] props@[j].deep_view(),
            first_prop_named(prop_views(props@), name@, 0) == first_prop_named(
                prop_views(props@),
                name@,
                i as int,
            ),
        decreases n - i,
    {
        if str_eq(props[i].get_name().text.as_str(), name) {
            return Some(i);
        }
        i = i + 1;
    }
    None
}

/// Whether some property at or past `from` is a name property carrying the
/// text `target` as its value.
pub open spec fn has_name_value(s: Seq<PropertyV>, target: Seq<char>, from: int) -> bool
    decreases s.len() - from,
{
    if from < 0 || from >= s.len() {
        false
    } else if s[from] matches PropertyV::Name { value, .. } && value.text == target {
        true
    } else {
        has_name_value(s, target, from + 1)
    }
}

/// A struct-valued element one of whose name properties carries `target`.
pub open spec fn elem_carries_name(p: PropertyV, target: Seq<char>) -> bool {
    match p {
        PropertyV::Struct { value, .. } => has_name_value(value, target, 0),
        _ => false,
    }
}

/// The position of the first element at or past `from` that is a struct
/// carrying `target` as a name value.
pub open spec fn first_elem_carrying_name(s: Seq<PropertyV>, target: Seq<char>, from: int) -> Option<
    int,
>
    decreases s.len() - from,
{
    if from < 0 || from >= s.len() {
        None
    } else if elem_carries_name(s[from], target) {
        Some(from)
    } else {
        first_elem_carrying_name(s, target, from + 1)
    }
}

/// Whatever position the first-named search settles on carries the name.
pub proof fn lemma_first_prop_named_props(s: Seq<PropertyV>, name: Seq<char>, from: int)
    ensures
        match first_prop_named(s, name, from) {
            Some(j) => from <= j < s.len() && s[j].name().text == name,
            None => true,
        },
    decreases s.len() - from,
{
    if 0 <= from < s.len() && s[from].name().text != name {
        lemma_first_prop_named_props(s, name, from + 1);
    }
}

/// Whatever element the carrying-name search settles on is a struct that
/// carries the name.
pub proof fn lemma_first_elem_carrying_name_props(s: Seq<PropertyV>, target: Seq<char>, from: int)
    ensures
        match first_elem_carrying_name(s, target, from) {
            Some(j) => from <= j < s.len() && elem_carries_name(s[j], target) && s[j] is Struct,
            None => true,
        },
    decreases s.len() - from,
{
    if 0 <= from < s.len() && !elem_carries_name(s[from], target) {
        lemma_first_elem_carrying_name_props(s, target, from + 1);
    }
}

/// Whether `props` holds a name property whose value text is `target`.
fn props_carry_name_value(props: &Vec<Property>, target: &str) -> (r: bool)
    ensures
        r == has_name_value(prop_views(props@), target@, 0),
{
    let n = props.len();
    let mut i: usize = 0;
    proof {
        lemma_prop_views(props@);
    }
    while i < n
        invariant
            i <= n,
            n == props@.len(),
            prop_views(props@).len() == props@.len(),
            forall|j: int| 0 <= j < props@.len() ==> prop_views(props@)[j]
                == #[trigger] props@[j].deep_view(),
            has_name_value(prop_views(props@), target@, 0) == has_name_value(
                prop_views(props@),
                target@,
                i as int,
            ),
        decreases n - i,
    {
        let hit = match &props[i] {
            Property::Name { value, .. } => str_eq(value.text.as_str(), target),
            _ => false,
        };
        proof {
            assert(prop_views(props@)[i as int] == props@[i as int].deep_view());
        }
        if hit {
            proof {
                assert(has_name_value(prop_views(props@), target@, i as int));
            }
            return true;
        }
        proof {
            assert(has_name_value(prop_views(props@), target@, i as int) == has_name_value(
                prop_views(props@),
                target@,
                i as int + 1,
            ));
        }
        i = i + 1;
    }
    false
}

/// The first struct element of `items` that carries `target` as the value
/// of one of its name properties: how biomes and layers are addressed.
pub fn find_struct_elem_carrying_name(items: &Vec<Property>, target: &str) -> (r: Option<usize>)
    ensures
        match r {
            Some(j) => first_elem_carrying_name(prop_views(items@), target@, 0) == Some(j as int)
                && j < items@.len(),
            None => first_elem_carrying_name(prop_views(items@), target@, 0) is None,
        },
{
    let n = items.len();
    let mut i: usize = 0;
    proof {
        lemma_prop_views(items@);
    }
    while i < n
        invariant
            i <= n,
            n == items@.len(),
            prop_views(items@).len() == items@.len(),
            forall|j: int| 0 <= j < items@.len() ==> prop_views(items@)[j]
                == #[trigger] items@[j].deep_view(),
            first_elem_carrying_name(prop_views(items@), target@, 0) == first_elem_carrying_name(
                prop_views(items@),
                target@,
                i as int,
            ),
        decreases n - i,
    {
        let hit = match &items[i] {
            Property::Struct { value, .. } => props_carry_name_value(value, target),
            _ => false,
        };
        proof {
            assert(prop_views(items@)[i as int] == items@[i as int].deep_view());
        }
        if hit {
            proof {
                assert(elem_carries_name(prop_views(items@)[i as int], target@));
            }
            return Some(i);
        }
        proof {
            assert(first_elem_carrying_name(prop_views(items@), target@, i as int)
                == first_elem_carrying_name(prop_views(items@), target@, i as int + 1));
        }
        i = i + 1;
    }
    None
}

/// Whether the import matches a (class package, class name, object name)
/// probe, every part compared as an undisambiguated name.
pub open spec fn import_matches(im: ImportV, cp: Seq<char>, cn: Seq<char>, on: Seq<char>) -> bool {
    &&& im.class_package.text == cp && im.class_package.number == 0
    &&& im.class_name.text == cn && im.class_name.number == 0
    &&& im.object_name.text == on && im.object_name.number == 0
}

/// The position of the first import at or past `from` matching the probe.
pub open spec fn first_import_matching(
    g: GraphV,
    cp: Seq<char>,
    cn: Seq<char>,
    on: Seq<char>,
    from: int,
) -> Option<int>
    decreases g.imports.len() - from,
{
    if from < 0 || from >= g.imports.len() {
        None
    } else if import_matches(g.imports[from], cp, cn, on) {
        Some(from)
    } else {
        first_import_matching(g, cp, cn, on, from + 1)
    }
}

fn fname_is_plain(n: &crate::graph::FName, text: &str) -> (r: bool)
    ensures
        r == (n.deep_view().text == text@ && n.deep_view().number == 0),
{
    n.number == 0 && str_eq(n.text.as_str(), text)
}

/// Finds the well-known import with the given class package, class name and
/// object name, and returns the negative index that names it.
pub fn find_import_no_index(
    g: &AssetGraph,
    class_package: &str,
    class_name: &str,
    object_name: &str,
) -> (r: Option<i32>)
    requires
        g.imports@.len() < 0x8000_0000,
    ensures
        match r {
            Some(idx) => {
                &&& first_import_matching(
                    g.deep_view(),
                    class_package@,
                    class_name@,
                    object_name@,
                    0,
                ) == Some(-(idx as int) - 1)
                &&& idx < 0
                &&& import_at(g.deep_view(), idx as int) is Some
            },
            None => first_import_matching(
                g.deep_view(),
                class_package@,
                class_name@,
                object_name@,
                0,
            ) is None,
        },
{
    let n = g.imports.len();
    let mut i: usize = 0;
    while i < n
        invariant
            i <= n,
            n == g.imports@.len(),
            n < 0x8000_0000,
            g.deep_view().imports.len() == n,
            forall|j: int| 0 <= j < n ==> g.deep_view().imports[j]
                == #[trigger] g.imports@[j].deep_view(),
            first_import_matching(g.deep_view(), class_package@, class_name@, object_name@, 0)
                == first_import_matching(
                g.deep_view(),
                class_package@,
                class_name@,
                object_name@,
                i as int,
            ),
        decreases n - i,
    {
        let im = &g.imports[i];
        if fname_is_plain(&im.class_package, class_package) && fname_is_plain(
            &im.class_name,
            class_name,
        ) && fname_is_plain(&im.object_name, object_name) {
            return Some(-(i as i32) - 1);
        }
        i = i + 1;
    }
    None
}

} // verus!
