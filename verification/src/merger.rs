//! The patch request merger: consolidates the JSON fragments of N installed
//! mods, addressed to the same logical target, into one ordered structure
//! per strategy, in mod priority order. Lists from different mods
//! targeting the same key are concatenated, never deduplicated; keys keep
//! the order of their first appearance.

use vstd::prelude::*;
use crate::json::{Json, JsonV, json_views, json_entry_views, lemma_json_views,
    lemma_json_entry_views, assoc_lookup, assoc_contains};
use crate::strutil::str_eq;

verus! {

/// The texts of a JSON array when every element is a string.
pub open spec fn strings_of(s: Seq<JsonV>, from: int) -> Option<Seq<Seq<char>>>
    decreases s.len() - from,
{
    if from < 0 || from >= s.len() {
        Some(Seq::empty())
    } else {
        match s[from] {
            JsonV::Str(t) => match strings_of(s, from + 1) {
                Some(rest) => Some(seq![t] + rest),
                None => None,
            },
            _ => None,
        }
    }
}

/// The texts of the elements of `arr`, when all of them are strings.
pub fn json_strings_of(arr: &Vec<Json>) -> (r: Option<Vec<String>>)
    ensures
        match r {
            Some(v) => strings_of(json_views(arr@), 0) == Some(v.deep_view()),
            None => strings_of(json_views(arr@), 0) is None,
        },
{
    let ghost s = json_views(arr@);
    let n = arr.len();
    let mut out: Vec<String> = Vec::new();
    let mut i: usize = 0;
    proof {
        lemma_json_views(arr@);
    }
    while i < n
        invariant
            i <= n,
            n == arr@.len(),
            s == json_views(arr@),
            s.len() == n,
            forall|j: int| 0 <= j < n ==> s[j] == #[trigger] arr@[j].deep_view(),
            out.deep_view().len() == i,
            match strings_of(s, i as int) {
                Some(rest) => strings_of(s, 0) == Some(out.deep_view() + rest),
                None => strings_of(s, 0) is None,
            },
        decreases n - i,
    {
        proof {
            assert(s[i as int] == arr@[i as int].deep_view());
        }
        match &arr[i] {
            Json::Str(t) => {
                let ghost before = out.deep_view();
                out.push(t.clone());
                proof {
                    assert(s[i as int] == JsonV::Str(t@));
                    assert(out.deep_view() =~= before.push(t@));
                    if strings_of(s, i as int + 1) is Some {
                        assert(strings_of(s, i as int) == Some(
                            seq![t@] + strings_of(s, i as int + 1)->Some_0,
                        ));
                        assert(strings_of(s, 0) == Some(
                            before + (seq![t@] + strings_of(s, i as int + 1)->Some_0),
                        ));
                        assert(before + (seq![t@] + strings_of(s, i as int + 1)->Some_0)
                            =~= before.push(t@) + strings_of(s, i as int + 1)->Some_0);
                    } else {
                        assert(strings_of(s, i as int) is None);
                    }
                }
            },
            _ => {
                proof {
                    assert(!(s[i as int] is Str));
                    assert(strings_of(s, i as int) is None);
                }
                return None;
            },
        }
        i = i + 1;
    }
    proof {
        assert(strings_of(s, n as int) == Some(Seq::<Seq<char>>::empty()));
        assert(out.deep_view() + Seq::<Seq<char>>::empty() =~= out.deep_view());
    }
    Some(out)
}

/// The concatenation, in order, of several JSON arrays of strings.
pub open spec fn flatten_string_arrays(ps: Seq<JsonV>, from: int) -> Option<Seq<Seq<char>>>
    decreases ps.len() - from,
{
    if from < 0 || from >= ps.len() {
        Some(Seq::empty())
    } else {
        match ps[from] {
            JsonV::Arr(a) => match (strings_of(a, 0), flatten_string_arrays(ps, from + 1)) {
                (Some(x), Some(rest)) => Some(x + rest),
                _ => None,
            },
            _ => None,
        }
    }
}

/// Merges one flat string list per mod into a single ordered list: simple
/// concatenation in mod priority order.
pub fn merge_string_lists(patches: &Vec<Json>) -> (r: Option<Vec<String>>)
    ensures
        match r {
            Some(v) => flatten_string_arrays(json_views(patches@), 0) == Some(v.deep_view()),
            None => flatten_string_arrays(json_views(patches@), 0) is None,
        },
{
    let ghost ps = json_views(patches@);
    let n = patches.len();
    let mut out: Vec<String> = Vec::new();
    let mut i: usize = 0;
    proof {
        lemma_json_views(patches@);
    }
    while i < n
        invariant
            i <= n,
            n == patches@.len(),
            ps == json_views(patches@),
            ps.len() == n,
            forall|j: int| 0 <= j < n ==> ps[j] == #[trigger] patches@[j].deep_view(),
            match flatten_string_arrays(ps, i as int) {
                Some(rest) => flatten_string_arrays(ps, 0) == Some(out.deep_view() + rest),
                None => flatten_string_arrays(ps, 0) is None,
            },
        decreases n - i,
    {
        match arr_of(&patches[i]) {
            Some(a) => {
                match json_strings_of(a) {
                    Some(mut part) => {
                        let ghost before = out.deep_view();
                        let ghost partview = part.deep_view();
                        out.append(&mut part);
                        proof {
                            assert(out.deep_view() =~= before + partview);
                            if flatten_string_arrays(ps, i as int + 1) is Some {
                                assert(before + (partview + flatten_string_arrays(
                                    ps,
                                    i as int + 1,
                                )->Some_0) =~= (before + partview) + flatten_string_arrays(
                                    ps,
                                    i as int + 1,
                                )->Some_0);
                            }
                        }
                    },
                    None => {
                        return None;
                    },
                }
            },
            None => {
                return None;
            },
        }
        i = i + 1;
    }
    proof {
        assert(out.deep_view() + Seq::<Seq<char>>::empty() =~= out.deep_view());
    }
    Some(out)
}

/// The elements when `j` is an array, with the view connection stated over
/// `json_views`.
fn arr_of(j: &Json) -> (r: Option<&Vec<Json>>)
    ensures
        match r {
            Some(v) => j.deep_view() == JsonV::Arr(json_views(v@)),
            None => !(j.deep_view() is Arr),
        },
{
    j.as_arr()
}

/// The association list with `items` appended to the list at `key`; a
/// missing key is added at the end.
pub open spec fn upsert_concat(
    acc: Seq<(Seq<char>, Seq<Seq<char>>)>,
    key: Seq<char>,
    items: Seq<Seq<char>>,
) -> Seq<(Seq<char>, Seq<Seq<char>>)>
    decreases acc.len(),
{
    if acc.len() == 0 {
        seq![(key, items)]
    } else if acc[0].0 == key {
        seq![(acc[0].0, acc[0].1 + items)] + acc.drop_first()
    } else {
        seq![acc[0]] + upsert_concat(acc.drop_first(), key, items)
    }
}

/// Appends `items` to the entry of `key`, adding the entry at the end when
/// it is missing.
pub fn vec_upsert_concat(acc: &mut Vec<(String, Vec<String>)>, key: &str, items: Vec<String>)
    ensures
        final(acc).deep_view() == upsert_concat(old(acc).deep_view(), key@, items.deep_view()),
{
    let n = acc.len();
    let mut i: usize = 0;
    while i < n
        invariant
            i <= n,
            n == acc@.len(),
            acc == old(acc),
            forall|j: int| 0 <= j < i ==> #[trigger] acc.deep_view()[j].0 != key@,
        decreases n - i,
    {
        if str_eq(acc[i].0.as_str(), key) {
            let entry = acc.remove(i);
            let (k0, mut lst) = entry;
            let ghost lst0 = lst.deep_view();
            let mut items2 = items;
            out_append(&mut lst, &mut items2);
            let ghost newentry = (k0@, lst.deep_view());
            acc.insert(i, (k0, lst));
            proof {
                assert(acc.deep_view() =~= old(acc).deep_view().update(i as int, newentry));
                lemma_upsert_concat_found(old(acc).deep_view(), key@, items.deep_view(), i as int);
            }
            return ;
        }
        i = i + 1;
    }
    let ko: String = key.to_owned();
    acc.push((ko, items));
    proof {
        assert(acc.deep_view() =~= old(acc).deep_view().push((key@, items.deep_view())));
        lemma_upsert_concat_missing(old(acc).deep_view(), key@, items.deep_view());
    }
}

fn out_append(dst: &mut Vec<String>, src: &mut Vec<String>)
    ensures
        final(dst).deep_view() == old(dst).deep_view() + old(src).deep_view(),
{
    let ghost d0 = dst.deep_view();
    let ghost s0 = src.deep_view();
    dst.append(src);
    proof {
        assert(dst.deep_view() =~= d0 + s0);
    }
}

/// When `key` sits first at position `i`, upserting appends there.
pub proof fn lemma_upsert_concat_found(
    acc: Seq<(Seq<char>, Seq<Seq<char>>)>,
    key: Seq<char>,
    items: Seq<Seq<char>>,
    i: int,
)
    requires
        0 <= i < acc.len(),
        acc[i].0 == key,
        forall|j: int| 0 <= j < i ==> #[trigger] acc[j].0 != key,
    ensures
        upsert_concat(acc, key, items) == acc.update(i, (acc[i].0, acc[i].1 + items)),
    decreases i,
{
    if i == 0 {
        assert(upsert_concat(acc, key, items) =~= acc.update(0, (acc[0].0, acc[0].1 + items)));
    } else {
        assert(acc[0].0 != key);
        assert(acc.drop_first()[i - 1] == acc[i]);
        assert forall|j: int| 0 <= j < i - 1 implies #[trigger] acc.drop_first()[j].0 != key by {
            assert(acc.drop_first()[j] == acc[j + 1]);
        }
        lemma_upsert_concat_found(acc.drop_first(), key, items, i - 1);
        assert(upsert_concat(acc, key, items) =~= acc.update(i, (acc[i].0, acc[i].1 + items)));
    }
}

/// When `key` is absent, upserting adds a fresh entry at the end.
pub proof fn lemma_upsert_concat_missing(
    acc: Seq<(Seq<char>, Seq<Seq<char>>)>,
    key: Seq<char>,
    items: Seq<Seq<char>>,
)
    requires
        forall|j: int| 0 <= j < acc.len() ==> #[trigger] acc[j].0 != key,
    ensures
        upsert_concat(acc, key, items) == acc.push((key, items)),
    decreases acc.len(),
{
    if acc.len() == 0 {
        assert(upsert_concat(acc, key, items) =~= acc.push((key, items)));
    } else {
        assert forall|j: int|
            0 <= j < acc.drop_first().len() implies #[trigger] acc.drop_first()[j].0 != key by {
            assert(acc.drop_first()[j] == acc[j + 1]);
        }
        lemma_upsert_concat_missing(acc.drop_first(), key, items);
        assert(upsert_concat(acc, key, items) =~= acc.push((key, items)));
    }
}

/// One mod's object of `name -> [paths]` folded into the accumulator.
pub open spec fn fold_entries(
    acc: Seq<(Seq<char>, Seq<Seq<char>>)>,
    entries: Seq<(Seq<char>, JsonV)>,
    from: int,
) -> Option<Seq<(Seq<char>, Seq<Seq<char>>)>>
    decreases entries.len() - from,
{
    if from < 0 || from >= entries.len() {
        Some(acc)
    } else {
        match entries[from].1 {
            JsonV::Arr(a) => match strings_of(a, 0) {
                Some(items) => fold_entries(
                    upsert_concat(acc, entries[from].0, items),
                    entries,
                    from + 1,
                ),
                None => None,
            },
            _ => None,
        }
    }
}

/// All mods' objects folded in priority order.
pub open spec fn fold_actor_maps(
    acc: Seq<(Seq<char>, Seq<Seq<char>>)>,
    ps: Seq<JsonV>,
    from: int,
) -> Option<Seq<(Seq<char>, Seq<Seq<char>>)>>
    decreases ps.len() - from,
{
    if from < 0 || from >= ps.len() {
        Some(acc)
    } else {
        match ps[from] {
            JsonV::Obj(m) => match fold_entries(acc, m, 0) {
                Some(acc2) => fold_actor_maps(acc2, ps, from + 1),
                None => None,
            },
            _ => None,
        }
    }
}

/// Merges the per-mod objects mapping a target name to a list of paths:
/// lists for the same name are concatenated in mod priority order, names
/// keep first-appearance order.
pub fn merge_name_list_maps(patches: &Vec<Json>) -> (r: Option<Vec<(String, Vec<String>)>>)
    ensures
        match r {
            Some(v) => fold_actor_maps(Seq::empty(), json_views(patches@), 0) == Some(
                v.deep_view(),
            ),
            None => fold_actor_maps(Seq::empty(), json_views(patches@), 0) is None,
        },
{
    let ghost ps = json_views(patches@);
    let n = patches.len();
    let mut acc: Vec<(String, Vec<String>)> = Vec::new();
    let mut i: usize = 0;
    proof {
        lemma_json_views(patches@);
        assert(acc.deep_view() =~= Seq::<(Seq<char>, Seq<Seq<char>>)>::empty());
    }
    while i < n
        invariant
            i <= n,
            n == patches@.len(),
            ps == json_views(patches@),
            ps.len() == n,
            forall|j: int| 0 <= j < n ==> ps[j] == #[trigger] patches@[j].deep_view(),
            fold_actor_maps(Seq::empty(), ps, 0) == fold_actor_maps(acc.deep_view(), ps, i as int),
        decreases n - i,
    {
        proof {
            assert(ps[i as int] == patches@[i as int].deep_view());
        }
        match obj_of(&patches[i]) {
            Some(m) => {
                let ghost entries = json_entry_views(m@);
                let ghost acc_enter = acc.deep_view();
                let mn = m.len();
                let mut k: usize = 0;
                proof {
                    lemma_json_entry_views(m@);
                    assert(ps[i as int] == JsonV::Obj(entries));
                    assert(fold_actor_maps(acc_enter, ps, i as int) == match fold_entries(
                        acc_enter,
                        entries,
                        0,
                    ) {
                        Some(a2) => fold_actor_maps(a2, ps, i as int + 1),
                        None => None,
                    });
                }
                while k < mn
                    invariant
                        k <= mn,
                        mn == m@.len(),
                        i < n,
                        n == patches@.len(),
                        ps == json_views(patches@),
                        ps.len() == n,
                        entries == json_entry_views(m@),
                        entries.len() == mn,
                        forall|j: int| 0 <= j < mn ==> entries[j] == (
                        #[trigger] m@[j].0@,
                        m@[j].1.deep_view(),
                        ),
                        fold_actor_maps(Seq::empty(), ps, 0) == fold_actor_maps(
                            acc_enter,
                            ps,
                            i as int,
                        ),
                        fold_actor_maps(acc_enter, ps, i as int) == match fold_entries(
                            acc_enter,
                            entries,
                            0,
                        ) {
                            Some(a2) => fold_actor_maps(a2, ps, i as int + 1),
                            None => None,
                        },
                        fold_entries(acc_enter, entries, 0) == fold_entries(
                            acc.deep_view(),
                            entries,
                            k as int,
                        ),
                    decreases mn - k,
                {
                    proof {
                        assert(entries[k as int] == (m@[k as int].0@, m@[k as int].1.deep_view()));
                    }
                    match arr_of(&m[k].1) {
                        Some(a) => {
                            match json_strings_of(a) {
                                Some(items) => {
                                    proof {
                                        assert(entries[k as int].1 == JsonV::Arr(json_views(a@)));
                                        assert(fold_entries(acc.deep_view(), entries, k as int)
                                            == fold_entries(
                                            upsert_concat(
                                                acc.deep_view(),
                                                entries[k as int].0,
                                                items.deep_view(),
                                            ),
                                            entries,
                                            k as int + 1,
                                        ));
                                    }
                                    vec_upsert_concat(&mut acc, m[k].0.as_str(), items);
                                },
                                None => {
                                    proof {
                                        assert(fold_entries(acc.deep_view(), entries, k as int)
                                            is None);
                                    }
                                    return None;
                                },
                            }
                        },
                        None => {
                            proof {
                                assert(!(entries[k as int].1 is Arr));
                                assert(fold_entries(acc.deep_view(), entries, k as int) is None);
                            }
                            return None;
                        },
                    }
                    k = k + 1;
                }
                proof {
                    assert(fold_entries(acc.deep_view(), entries, mn as int) == Some(
                        acc.deep_view(),
                    ));
                }
            },
            None => {
                proof {
                    assert(!(ps[i as int] is Obj));
                    assert(fold_actor_maps(acc.deep_view(), ps, i as int) is None);
                }
                return None;
            },
        }
        i = i + 1;
    }
    Some(acc)
}

/// The association list with the entry at `k` set to `v`; a missing key is
/// added at the end.
pub open spec fn assoc_set<V>(s: Seq<(Seq<char>, V)>, k: Seq<char>, v: V) -> Seq<(Seq<char>, V)>
    decreases s.len(),
{
    if s.len() == 0 {
        seq![(k, v)]
    } else if s[0].0 == k {
        seq![(s[0].0, v)] + s.drop_first()
    } else {
        seq![s[0]] + assoc_set(s.drop_first(), k, v)
    }
}

pub proof fn lemma_assoc_set_found<V>(s: Seq<(Seq<char>, V)>, k: Seq<char>, v: V, i: int)
    requires
        0 <= i < s.len(),
        s[i].0 == k,
        forall|j: int| 0 <= j < i ==> #[trigger] s[j].0 != k,
    ensures
        assoc_set(s, k, v) == s.update(i, (s[i].0, v)),
    decreases i,
{
    if i == 0 {
        assert(assoc_set(s, k, v) =~= s.update(0, (s[0].0, v)));
    } else {
        assert(s[0].0 != k);
        assert(s.drop_first()[i - 1] == s[i]);
        assert forall|j: int| 0 <= j < i - 1 implies #[trigger] s.drop_first()[j].0 != k by {
            assert(s.drop_first()[j] == s[j + 1]);
        }
        lemma_assoc_set_found(s.drop_first(), k, v, i - 1);
        assert(assoc_set(s, k, v) =~= s.update(i, (s[i].0, v)));
    }
}

pub proof fn lemma_assoc_set_missing<V>(s: Seq<(Seq<char>, V)>, k: Seq<char>, v: V)
    requires
        forall|j: int| 0 <= j < s.len() ==> #[trigger] s[j].0 != k,
    ensures
        assoc_set(s, k, v) == s.push((k, v)),
    decreases s.len(),
{
    if s.len() > 0 {
        assert forall|j: int|
            0 <= j < s.drop_first().len() implies #[trigger] s.drop_first()[j].0 != k by {
            assert(s.drop_first()[j] == s[j + 1]);
        }
        lemma_assoc_set_missing(s.drop_first(), k, v);
        assert(assoc_set(s, k, v) =~= s.push((k, v)));
    } else {
        assert(assoc_set(s, k, v) =~= s.push((k, v)));
    }
}

/// An identical copy of a string list.
fn dup_strings(v: &Vec<String>) -> (r: Vec<String>)
    ensures
        r.deep_view() == v.deep_view(),
{
    let mut r: Vec<String> = Vec::new();
    let n = v.len();
    let mut i: usize = 0;
    while i < n
        invariant
            i <= n,
            n == v@.len(),
            r@.len() == i,
            forall|j: int| 0 <= j < i ==> #[trigger] r.deep_view()[j] == v.deep_view()[j],
        decreases n - i,
    {
        let ghost rv0 = r@;
        let ghost r0 = r.deep_view();
        r.push(v[i].clone());
        proof {
            assert forall|j: int|
                0 <= j < i + 1 implies #[trigger] r.deep_view()[j] == v.deep_view()[j] by {
                assert(r.deep_view()[j] == r@[j].deep_view());
                assert(v.deep_view()[j] == v@[j].deep_view());
                if j < i {
                    assert(r@[j] == rv0[j]);
                    assert(r0[j] == rv0[j].deep_view());
                    assert(r0[j] == v.deep_view()[j]);
                } else {
                    assert(r@[j] == v@[j]);
                }
            }
        }
        i = i + 1;
    }
    proof {
        assert(r.deep_view() =~= v.deep_view());
    }
    r
}

/// An identical copy of a name-to-list map.
fn dup_string_map(m: &Vec<(String, Vec<String>)>) -> (r: Vec<(String, Vec<String>)>)
    ensures
        r.deep_view() == m.deep_view(),
{
    let mut r: Vec<(String, Vec<String>)> = Vec::new();
    let n = m.len();
    let mut i: usize = 0;
    while i < n
        invariant
            i <= n,
            n == m@.len(),
            r@.len() == i,
            forall|j: int| 0 <= j < i ==> #[trigger] r.deep_view()[j] == m.deep_view()[j],
        decreases n - i,
    {
        let lst = dup_strings(&m[i].1);
        let ghost rv0 = r@;
        let ghost r0 = r.deep_view();
        let ghost lstv = lst.deep_view();
        r.push((m[i].0.clone(), lst));
        proof {
            assert forall|j: int|
                0 <= j < i + 1 implies #[trigger] r.deep_view()[j] == m.deep_view()[j] by {
                assert(r.deep_view()[j] == r@[j].deep_view());
                assert(m.deep_view()[j] == m@[j].deep_view());
                if j < i {
                    assert(r@[j] == rv0[j]);
                    assert(r0[j] == rv0[j].deep_view());
                    assert(r0[j] == m.deep_view()[j]);
                } else {
                    assert(r@[j].0 == m@[j].0);
                    assert(r@[j].1.deep_view() == lstv);
                    assert(r@[j].deep_view() == (m@[j].0@, m@[j].1.deep_view()));
                    assert(m@[j].deep_view() == (m@[j].0@, m@[j].1.deep_view()));
                }
            }
        }
        i = i + 1;
    }
    proof {
        assert(r.deep_view() =~= m.deep_view());
    }
    r
}

/// The key of the master item list, whose merged entries are duplicated
/// into the initially-known list for older mods.
pub open spec fn master_list_key() -> Seq<char> {
    "/Game/Items/ItemTypes/MasterItemList"@
}

/// The key whose explicit presence in a mod's map suppresses the
/// duplication.
pub open spec fn known_list_key() -> Seq<char> {
    "/Game/Items/ItemTypes/BaseGameInitialKnownItemList"@
}

/// The inner map at `k`, or an empty one.
pub open spec fn lookup_or_empty<V>(s: Seq<(Seq<char>, Seq<(Seq<char>, V)>)>, k: Seq<char>) -> Seq<
    (Seq<char>, V),
> {
    match assoc_lookup(s, k) {
        Some(m) => m,
        None => Seq::empty(),
    }
}

/// `dst` with every entry of `src` written over it, in order: existing keys
/// are replaced, new keys appended.
pub open spec fn assoc_set_all(
    dst: Seq<(Seq<char>, Seq<Seq<char>>)>,
    src: Seq<(Seq<char>, Seq<Seq<char>>)>,
    from: int,
) -> Seq<(Seq<char>, Seq<Seq<char>>)>
    decreases src.len() - from,
{
    if from < 0 || from >= src.len() {
        dst
    } else {
        assoc_set_all(assoc_set(dst, src[from].0, src[from].1), src, from + 1)
    }
}

/// The merged item-list structure: target name to item-list name to paths.
pub type ItemMapV = Seq<(Seq<char>, Seq<(Seq<char>, Seq<Seq<char>>)>)>;

/// The accumulator with target `name` present (an empty inner map is added
/// when the name is new).
pub open spec fn outer_ensure(acc: ItemMapV, name: Seq<char>) -> ItemMapV {
    if assoc_contains(acc, name) {
        acc
    } else {
        acc.push((name, Seq::empty()))
    }
}

/// One item list concatenated into the inner map of target `name`.
pub open spec fn outer_concat_item(
    acc: ItemMapV,
    name: Seq<char>,
    iname: Seq<char>,
    items: Seq<Seq<char>>,
) -> ItemMapV {
    assoc_set(acc, name, upsert_concat(lookup_or_empty(acc, name), iname, items))
}

/// The merged master item list written over the initially-known list, key
/// by key.
pub open spec fn legacy_duplicate(acc: ItemMapV) -> ItemMapV {
    assoc_set(
        acc,
        known_list_key(),
        assoc_set_all(
            lookup_or_empty(acc, known_list_key()),
            lookup_or_empty(acc, master_list_key()),
            0,
        ),
    )
}

/// One target's object of `item-list name -> [paths]` folded into the
/// accumulator.
pub open spec fn fold_item_lists(
    acc: ItemMapV,
    name: Seq<char>,
    lists: Seq<(Seq<char>, JsonV)>,
    from: int,
) -> Option<ItemMapV>
    decreases lists.len() - from,
{
    if from < 0 || from >= lists.len() {
        Some(acc)
    } else {
        match lists[from].1 {
            JsonV::Arr(a) => match strings_of(a, 0) {
                Some(items) => fold_item_lists(
                    outer_concat_item(acc, name, lists[from].0, items),
                    name,
                    lists,
                    from + 1,
                ),
                None => None,
            },
            _ => None,
        }
    }
}

/// One mod's map folded in: every target's lists are concatenated in, and a
/// master-item-list entry is duplicated into the initially-known list
/// unless this mod carries an explicit entry for it.
pub open spec fn fold_item_map_entries(
    acc: ItemMapV,
    m: Seq<(Seq<char>, JsonV)>,
    has_known: bool,
    from: int,
) -> Option<ItemMapV>
    decreases m.len() - from,
{
    if from < 0 || from >= m.len() {
        Some(acc)
    } else {
        match m[from].1 {
            JsonV::Obj(lists) => match fold_item_lists(
                outer_ensure(acc, m[from].0),
                m[from].0,
                lists,
                0,
            ) {
                Some(acc2) => {
                    let acc3 = if m[from].0 == master_list_key() && !has_known {
                        legacy_duplicate(acc2)
                    } else {
                        acc2
                    };
                    fold_item_map_entries(acc3, m, has_known, from + 1)
                },
                None => None,
            },
            _ => None,
        }
    }
}

/// All mods' item-list maps folded in priority order.
pub open spec fn fold_item_maps(acc: ItemMapV, ps: Seq<JsonV>, from: int) -> Option<ItemMapV>
    decreases ps.len() - from,
{
    if from < 0 || from >= ps.len() {
        Some(acc)
    } else {
        match ps[from] {
            JsonV::Obj(m) => match fold_item_map_entries(acc, m, assoc_contains(m, known_list_key()), 0) {
                Some(acc2) => fold_item_maps(acc2, ps, from + 1),
                None => None,
            },
            _ => None,
        }
    }
}

/// The entry of `key`, when present.
fn get_inner<'a>(acc: &'a Vec<(String, Vec<(String, Vec<String>)>)>, key: &str) -> (r: Option<
    &'a Vec<(String, Vec<String>)>,
>)
    ensures
        match r {
            Some(m) => assoc_lookup(acc.deep_view(), key@) == Some(m.deep_view()),
            None => assoc_lookup(acc.deep_view(), key@) is None,
        },
{
    let n = acc.len();
    let mut i: usize = 0;
    while i < n
        invariant
            i <= n,
            n == acc@.len(),
            acc.deep_view().len() == n,
            forall|j: int| 0 <= j < i ==> #[trigger] acc.deep_view()[j].0 != key@,
        decreases n - i,
    {
        if str_eq(acc[i].0.as_str(), key) {
            proof {
                crate::json::lemma_assoc_lookup_found(acc.deep_view(), key@, i as int);
            }
            return Some(&acc[i].1);
        }
        i = i + 1;
    }
    proof {
        crate::json::lemma_assoc_lookup_none(acc.deep_view(), key@);
    }
    None
}

/// Sets the entry of `key` to `v`, adding it at the end when missing.
fn vec_assoc_set(
    acc: &mut Vec<(String, Vec<(String, Vec<String>)>)>,
    key: &str,
    v: Vec<(String, Vec<String>)>,
)
    ensures
        final(acc).deep_view() == assoc_set(old(acc).deep_view(), key@, v.deep_view()),
{
    let n = acc.len();
    let mut i: usize = 0;
    while i < n
        invariant
            i <= n,
            n == acc@.len(),
            acc == old(acc),
            forall|j: int| 0 <= j < i ==> #[trigger] acc.deep_view()[j].0 != key@,
        decreases n - i,
    {
        if str_eq(acc[i].0.as_str(), key) {
            let entry = acc.remove(i);
            let (k0, _) = entry;
            let ghost newentry = (k0@, v.deep_view());
            acc.insert(i, (k0, v));
            proof {
                assert(acc.deep_view() =~= old(acc).deep_view().update(i as int, newentry));
                lemma_assoc_set_found(old(acc).deep_view(), key@, v.deep_view(), i as int);
            }
            return ;
        }
        i = i + 1;
    }
    let ko: String = key.to_owned();
    acc.push((ko, v));
    proof {
        assert(acc.deep_view() =~= old(acc).deep_view().push((key@, v.deep_view())));
        lemma_assoc_set_missing(old(acc).deep_view(), key@, v.deep_view());
    }
}

/// Sets the entry of `key` to `v` in a name-to-list map.
fn vec_assoc_set_inner(acc: &mut Vec<(String, Vec<String>)>, key: &str, v: Vec<String>)
    ensures
        final(acc).deep_view() == assoc_set(old(acc).deep_view(), key@, v.deep_view()),
{
    let n = acc.len();
    let mut i: usize = 0;
    while i < n
        invariant
            i <= n,
            n == acc@.len(),
            acc == old(acc),
            forall|j: int| 0 <= j < i ==> #[trigger] acc.deep_view()[j].0 != key@,
        decreases n - i,
    {
        if str_eq(acc[i].0.as_str(), key) {
            let entry = acc.remove(i);
            let (k0, _) = entry;
            let ghost newentry = (k0@, v.deep_view());
            acc.insert(i, (k0, v));
            proof {
                assert(acc.deep_view() =~= old(acc).deep_view().update(i as int, newentry));
                lemma_assoc_set_found(old(acc).deep_view(), key@, v.deep_view(), i as int);
            }
            return ;
        }
        i = i + 1;
    }
    let ko: String = key.to_owned();
    acc.push((ko, v));
    proof {
        assert(acc.deep_view() =~= old(acc).deep_view().push((key@, v.deep_view())));
        lemma_assoc_set_missing(old(acc).deep_view(), key@, v.deep_view());
    }
}

/// Merges the per-mod maps of `target -> item-list name -> [paths]`,
/// applying the legacy master-list duplication per mod.
pub fn merge_item_list_maps(patches: &Vec<Json>) -> (r: Option<
    Vec<(String, Vec<(String, Vec<String>)>)>,
>)
    ensures
        match r {
            Some(v) => fold_item_maps(Seq::empty(), json_views(patches@), 0) == Some(v.deep_view()),
            None => fold_item_maps(Seq::empty(), json_views(patches@), 0) is None,
        },
{
    let ghost ps = json_views(patches@);
    let n = patches.len();
    let mut acc: Vec<(String, Vec<(String, Vec<String>)>)> = Vec::new();
    let mut i: usize = 0;
    proof {
        lemma_json_views(patches@);
        assert(acc.deep_view() =~= Seq::<(Seq<char>, Seq<(Seq<char>, Seq<Seq<char>>)>)>::empty());
    }
    while i < n
        invariant
            i <= n,
            n == patches@.len(),
            ps == json_views(patches@),
            ps.len() == n,
            forall|j: int| 0 <= j < n ==> ps[j] == #[trigger] patches@[j].deep_view(),
            fold_item_maps(Seq::empty(), ps, 0) == fold_item_maps(acc.deep_view(), ps, i as int),
        decreases n - i,
    {
        proof {
            assert(ps[i as int] == patches@[i as int].deep_view());
        }
        match obj_of(&patches[i]) {
            Some(m) => {
                let ghost entries = json_entry_views(m@);
                let ghost acc_enter = acc.deep_view();
                let has_known = obj_contains_key_local(
                    m,
                    "/Game/Items/ItemTypes/BaseGameInitialKnownItemList",
                );
                let mn = m.len();
                let mut k: usize = 0;
                proof {
                    lemma_json_entry_views(m@);
                    assert(ps[i as int] == JsonV::Obj(entries));
                    assert(has_known == assoc_contains(entries, known_list_key()));
                }
                while k < mn
                    invariant
                        k <= mn,
                        mn == m@.len(),
                        i < n,
                        n == patches@.len(),
                        ps == json_views(patches@),
                        ps.len() == n,
                        entries == json_entry_views(m@),
                        entries.len() == mn,
                        has_known == assoc_contains(entries, known_list_key()),
                        forall|j: int| 0 <= j < mn ==> entries[j] == (
                        #[trigger] m@[j].0@,
                        m@[j].1.deep_view(),
                        ),
                        fold_item_maps(Seq::empty(), ps, 0) == fold_item_maps(
                            acc_enter,
                            ps,
                            i as int,
                        ),
                        fold_item_maps(acc_enter, ps, i as int) == match fold_item_map_entries(
                            acc_enter,
                            entries,
                            has_known,
                            0,
                        ) {
                            Some(a2) => fold_item_maps(a2, ps, i as int + 1),
                            None => None,
                        },
                        fold_item_map_entries(acc_enter, entries, has_known, 0)
                            == fold_item_map_entries(acc.deep_view(), entries, has_known, k as int),
                    decreases mn - k,
                {
                    proof {
                        assert(entries[k as int] == (m@[k as int].0@, m@[k as int].1.deep_view()));
                    }
                    let ghost acc_k = acc.deep_view();
                    let name = &m[k].0;
                    match obj_of(&m[k].1) {
                        Some(lists) => {
                            let ghost lentries = json_entry_views(lists@);
                            proof {
                                lemma_json_entry_views(lists@);
                                assert(entries[k as int].1 == JsonV::Obj(lentries));
                            }
                            ensure_target(&mut acc, name.as_str());
                            let ghost acc_list_enter = acc.deep_view();
                            let ln = lists.len();
                            let mut q: usize = 0;
                            while q < ln
                                invariant
                                    q <= ln,
                                    ln == lists@.len(),
                                    i < n,
                                    k < mn,
                                    n == patches@.len(),
                                    mn == m@.len(),
                                    ps == json_views(patches@),
                                    ps.len() == n,
                                    entries == json_entry_views(m@),
                                    entries.len() == mn,
                                    entries[k as int] == (m@[k as int].0@, m@[
                                        k as int].1.deep_view()),
                                    entries[k as int].1 == JsonV::Obj(lentries),
                                    name@ == m@[k as int].0@,
                                    has_known == assoc_contains(entries, known_list_key()),
                                    lentries == json_entry_views(lists@),
                                    lentries.len() == ln,
                                    forall|j: int| 0 <= j < ln ==> lentries[j] == (
                                    #[trigger] lists@[j].0@,
                                    lists@[j].1.deep_view(),
                                    ),
                                    fold_item_maps(Seq::empty(), ps, 0) == fold_item_maps(
                                        acc_enter,
                                        ps,
                                        i as int,
                                    ),
                                    fold_item_maps(acc_enter, ps, i as int) == match
                                        fold_item_map_entries(acc_enter, entries, has_known, 0) {
                                        Some(a2) => fold_item_maps(a2, ps, i as int + 1),
                                        None => None,
                                    },
                                    fold_item_map_entries(acc_enter, entries, has_known, 0)
                                        == fold_item_map_entries(
                                        acc_k,
                                        entries,
                                        has_known,
                                        k as int,
                                    ),
                                    acc_list_enter == outer_ensure(acc_k, m@[k as int].0@),
                                    fold_item_lists(acc_list_enter, m@[k as int].0@, lentries, 0)
                                        == fold_item_lists(
                                        acc.deep_view(),
                                        m@[k as int].0@,
                                        lentries,
                                        q as int,
                                    ),
                                decreases ln - q,
                            {
                                proof {
                                    assert(lentries[q as int] == (
                                    lists@[q as int].0@,
                                    lists@[q as int].1.deep_view(),
                                    ));
                                }
                                let ghost acc_q = acc.deep_view();
                                match arr_of(&lists[q].1) {
                                    Some(a) => {
                                        match json_strings_of(a) {
                                            Some(items) => {
                                                proof {
                                                    assert(lentries[q as int].1 == JsonV::Arr(
                                                        json_views(a@),
                                                    ));
                                                }
                                                concat_target_item(
                                                    &mut acc,
                                                    name.as_str(),
                                                    lists[q].0.as_str(),
                                                    items,
                                                );
                                                proof {
                                                    assert(fold_item_lists(
                                                        acc_q,
                                                        m@[k as int].0@,
                                                        lentries,
                                                        q as int,
                                                    ) == fold_item_lists(
                                                        acc.deep_view(),
                                                        m@[k as int].0@,
                                                        lentries,
                                                        q as int + 1,
                                                    ));
                                                }
                                            },
                                            None => {
                                                proof {
                                                    assert(fold_item_lists(
                                                        acc_q,
                                                        m@[k as int].0@,
                                                        lentries,
                                                        q as int,
                                                    ) is None);
                                                    assert(fold_item_map_entries(
                                                        acc_k,
                                                        entries,
                                                        has_known,
                                                        k as int,
                                                    ) is None);
                                                    assert(fold_item_maps(
                                                        acc_enter,
                                                        ps,
                                                        i as int,
                                                    ) is None);
                                                }
                                                return None;
                                            },
                                        }
                                    },
                                    None => {
                                        proof {
                                            assert(!(lentries[q as int].1 is Arr));
                                            assert(fold_item_lists(
                                                acc_q,
                                                m@[k as int].0@,
                                                lentries,
                                                q as int,
                                            ) is None);
                                            assert(fold_item_map_entries(
                                                acc_k,
                                                entries,
                                                has_known,
                                                k as int,
                                            ) is None);
                                            assert(fold_item_maps(acc_enter, ps, i as int)
                                                is None);
                                        }
                                        return None;
                                    },
                                }
                                q = q + 1;
                            }
                            proof {
                                assert(fold_item_lists(
                                    acc.deep_view(),
                                    m@[k as int].0@,
                                    lentries,
                                    ln as int,
                                ) == Some(acc.deep_view()));
                            }
                            if !has_known && str_eq(
                                name.as_str(),
                                "/Game/Items/ItemTypes/MasterItemList",
                            ) {
                                apply_legacy_duplicate(&mut acc);
                            }
                            proof {
                                assert(fold_item_map_entries(acc_k, entries, has_known, k as int)
                                    == fold_item_map_entries(
                                    acc.deep_view(),
                                    entries,
                                    has_known,
                                    k as int + 1,
                                ));
                            }
                        },
                        None => {
                            proof {
                                assert(!(entries[k as int].1 is Obj));
                                assert(fold_item_map_entries(
                                    acc.deep_view(),
                                    entries,
                                    has_known,
                                    k as int,
                                ) is None);
                            }
                            return None;
                        },
                    }
                    k = k + 1;
                }
                proof {
                    assert(fold_item_map_entries(acc.deep_view(), entries, has_known, mn as int)
                        == Some(acc.deep_view()));
                }
            },
            None => {
                proof {
                    assert(!(ps[i as int] is Obj));
                    assert(fold_item_maps(acc.deep_view(), ps, i as int) is None);
                }
                return None;
            },
        }
        i = i + 1;
    }
    Some(acc)
}

/// Whether an object's entry list holds `key`; stated over the entry views.
fn obj_contains_key_local(entries: &Vec<(String, Json)>, key: &str) -> (r: bool)
    ensures
        r == assoc_contains(json_entry_views(entries@), key@),
{
    crate::json::obj_contains_key(entries, key)
}

/// Makes sure target `name` is present, with an empty inner map when new.
fn ensure_target(acc: &mut Vec<(String, Vec<(String, Vec<String>)>)>, name: &str)
    ensures
        final(acc).deep_view() == outer_ensure(old(acc).deep_view(), name@),
{
    match get_inner(acc, name) {
        Some(_) => {},
        None => {
            let ko: String = name.to_owned();
            let empty_inner: Vec<(String, Vec<String>)> = Vec::new();
            acc.push((ko, empty_inner));
            proof {
                assert(acc.deep_view() =~~= old(acc).deep_view().push(
                    (name@, Seq::<(Seq<char>, Seq<Seq<char>>)>::empty()),
                ));
            }
        },
    }
}

/// Concatenates `items` onto `acc[name][iname]`.
fn concat_target_item(
    acc: &mut Vec<(String, Vec<(String, Vec<String>)>)>,
    name: &str,
    iname: &str,
    items: Vec<String>,
)
    ensures
        final(acc).deep_view() == outer_concat_item(
            old(acc).deep_view(),
            name@,
            iname@,
            items.deep_view(),
        ),
{
    let mut inner: Vec<(String, Vec<String>)> = match get_inner(acc, name) {
        Some(m) => dup_string_map(m),
        None => Vec::new(),
    };
    proof {
        assert(inner.deep_view() =~= lookup_or_empty(old(acc).deep_view(), name@));
    }
    vec_upsert_concat(&mut inner, iname, items);
    vec_assoc_set(acc, name, inner);
}

/// Writes the merged master item list over the initially-known list.
fn apply_legacy_duplicate(acc: &mut Vec<(String, Vec<(String, Vec<String>)>)>)
    ensures
        final(acc).deep_view() == legacy_duplicate(old(acc).deep_view()),
{
    let cur: Vec<(String, Vec<String>)> = match get_inner(
        acc,
        "/Game/Items/ItemTypes/MasterItemList",
    ) {
        Some(m) => dup_string_map(m),
        None => Vec::new(),
    };
    proof {
        assert(cur.deep_view() =~= lookup_or_empty(old(acc).deep_view(), master_list_key()));
    }
    let mut dst: Vec<(String, Vec<String>)> = match get_inner(
        acc,
        "/Game/Items/ItemTypes/BaseGameInitialKnownItemList",
    ) {
        Some(m) => dup_string_map(m),
        None => Vec::new(),
    };
    proof {
        assert(dst.deep_view() =~= lookup_or_empty(old(acc).deep_view(), known_list_key()));
    }
    let ghost dst0 = dst.deep_view();
    let ghost src = cur.deep_view();
    let cn = cur.len();
    let mut i: usize = 0;
    while i < cn
        invariant
            i <= cn,
            cn == cur@.len(),
            src == cur.deep_view(),
            src.len() == cn,
            assoc_set_all(dst0, src, 0) == assoc_set_all(dst.deep_view(), src, i as int),
        decreases cn - i,
    {
        proof {
            assert(src[i as int] == (cur@[i as int].0@, cur@[i as int].1.deep_view()));
        }
        let lst = dup_strings(&cur[i].1);
        vec_assoc_set_inner(&mut dst, cur[i].0.as_str(), lst);
        i = i + 1;
    }
    vec_assoc_set(acc, "/Game/Items/ItemTypes/BaseGameInitialKnownItemList", dst);
}

/// The entries when `j` is an object, with the view connection stated over
/// `json_entry_views`.
fn obj_of(j: &Json) -> (r: Option<&Vec<(String, Json)>>)
    ensures
        match r {
            Some(m) => j.deep_view() == JsonV::Obj(json_entry_views(m@)),
            None => !(j.deep_view() is Obj),
        },
{
    j.as_obj()
}


/// When a key is absent, no entry carries it.
pub proof fn lemma_assoc_lookup_misses<V>(s: Seq<(Seq<char>, V)>, k: Seq<char>)
    requires
        assoc_lookup(s, k) is None,
    ensures
        forall|j: int| 0 <= j < s.len() ==> (#[trigger] s[j]).0 != k,
    decreases s.len(),
{
    if s.len() > 0 {
        lemma_assoc_lookup_misses(s.drop_first(), k);
        assert forall|j: int| 0 <= j < s.len() implies (#[trigger] s[j]).0 != k by {
            if j > 0 {
                assert(s.drop_first()[j - 1] == s[j]);
            }
        }
    }
}

/// Merging never reorders, drops or deduplicates: the list a key holds
/// after an upsert is exactly what it held before with the new items
/// appended, and a fresh key starts with exactly the new items. Merging
/// `[A]` then `[B]` for one key therefore yields `[A, B]`.
pub proof fn lemma_merge_concatenates(
    acc: Seq<(Seq<char>, Seq<Seq<char>>)>,
    key: Seq<char>,
    items: Seq<Seq<char>>,
)
    ensures
        assoc_lookup(upsert_concat(acc, key, items), key) == match assoc_lookup(acc, key) {
            Some(l) => Some(l + items),
            None => Some(items),
        },
    decreases acc.len(),
{
    if acc.len() == 0 {
        assert(upsert_concat(acc, key, items) == seq![(key, items)]);
        assert(upsert_concat(acc, key, items)[0] == (key, items));
        assert(assoc_lookup(upsert_concat(acc, key, items), key) == Some(items));
    } else if acc[0].0 == key {
        let u = upsert_concat(acc, key, items);
        assert(u == seq![(acc[0].0, acc[0].1 + items)] + acc.drop_first());
        assert(u[0] == (acc[0].0, acc[0].1 + items));
        assert(assoc_lookup(u, key) == Some(acc[0].1 + items));
    } else {
        lemma_merge_concatenates(acc.drop_first(), key, items);
        let u = upsert_concat(acc, key, items);
        assert(u == seq![acc[0]] + upsert_concat(acc.drop_first(), key, items));
        assert(u[0] == acc[0]);
        assert(u.drop_first() =~= upsert_concat(acc.drop_first(), key, items));
    }
}

/// Writing a map over a destination that holds none of its keys appends it
/// verbatim, when the written keys are distinct.
pub proof fn lemma_assoc_set_all_appends(
    dst: Seq<(Seq<char>, Seq<Seq<char>>)>,
    src: Seq<(Seq<char>, Seq<Seq<char>>)>,
    k: int,
)
    requires
        0 <= k <= src.len(),
        forall|i: int| k <= i < src.len() ==> assoc_lookup(dst, (#[trigger] src[i]).0) is None,
        forall|i: int, j: int| k <= i < j < src.len() ==> (#[trigger] src[i]).0 != (
        #[trigger] src[j]).0,
    ensures
        assoc_set_all(dst, src, k) == dst + src.skip(k),
    decreases src.len() - k,
{
    if k < src.len() {
        lemma_assoc_lookup_misses(dst, src[k].0);
        lemma_assoc_set_missing(dst, src[k].0, src[k].1);
        let dst2 = dst.push((src[k].0, src[k].1));
        assert(dst2 =~= dst.push(src[k]));
        assert forall|i: int|
            k + 1 <= i < src.len() implies assoc_lookup(dst2, (#[trigger] src[i]).0) is None by {
            assert(src[k].0 != src[i].0);
            lemma_assoc_lookup_misses(dst, src[i].0);
            assert forall|j: int| 0 <= j < dst2.len() implies (#[trigger] dst2[j]).0 != src[i].0 by {
                if j < dst.len() {
                    assert(dst2[j] == dst[j]);
                } else {
                    assert(dst2[j] == src[k]);
                }
            }
            crate::json::lemma_assoc_lookup_none(dst2, src[i].0);
        }
        lemma_assoc_set_all_appends(dst2, src, k + 1);
        assert(dst2 + src.skip(k + 1) =~= dst + src.skip(k));
    } else {
        assert(dst + src.skip(k) =~= dst);
    }
}

/// The legacy rule in full: when no explicit initially-known list exists,
/// the duplication makes it identical to the merged master item list
/// (whose keys, as the merger builds them, are distinct).
pub proof fn lemma_legacy_duplication_fills(acc: ItemMapV)
    requires
        assoc_lookup(acc, known_list_key()) is None,
        (forall|i: int, j: int|
            0 <= i < j < lookup_or_empty(acc, master_list_key()).len() ==> (
            #[trigger] lookup_or_empty(acc, master_list_key())[i]).0 != (
            #[trigger] lookup_or_empty(acc, master_list_key())[j]).0),
    ensures
        assoc_lookup(legacy_duplicate(acc), known_list_key()) == Some(
            lookup_or_empty(acc, master_list_key()),
        ),
    decreases acc.len(),
{
    let ml = lookup_or_empty(acc, master_list_key());
    lemma_assoc_set_all_appends(Seq::empty(), ml, 0);
    assert(Seq::<(Seq<char>, Seq<Seq<char>>)>::empty() + ml.skip(0) =~= ml);
    assert(legacy_duplicate(acc) == assoc_set(acc, known_list_key(), ml));
    lemma_assoc_lookup_misses(acc, known_list_key());
    lemma_assoc_set_missing(acc, known_list_key(), ml);
    let a2 = acc.push((known_list_key(), ml));
    assert forall|j: int| 0 <= j < acc.len() implies (#[trigger] a2[j]).0 != known_list_key() by {
        assert(a2[j] == acc[j]);
    }
    crate::json::lemma_assoc_lookup_found(a2, known_list_key(), acc.len() as int);
}


/// No two entries share a key.
pub open spec fn distinct_keys<V>(s: Seq<(Seq<char>, V)>) -> bool {
    forall|p: int, q: int| 0 <= p < q < s.len() ==> (#[trigger] s[p]).0 != (#[trigger] s[q]).0
}

/// The position of the first entry carrying `k`, at or past `from`.
pub open spec fn first_key_pos<V>(s: Seq<(Seq<char>, V)>, k: Seq<char>, from: int) -> Option<int>
    decreases s.len() - from,
{
    if from < 0 || from >= s.len() {
        None
    } else if s[from].0 == k {
        Some(from)
    } else {
        first_key_pos(s, k, from + 1)
    }
}

pub proof fn lemma_first_key_pos_props<V>(s: Seq<(Seq<char>, V)>, k: Seq<char>, from: int)
    requires
        0 <= from,
    ensures
        match first_key_pos(s, k, from) {
            Some(p) => from <= p < s.len() && s[p].0 == k && forall|j: int|
                from <= j < p ==> (#[trigger] s[j]).0 != k,
            None => forall|j: int| from <= j < s.len() ==> (#[trigger] s[j]).0 != k,
        },
    decreases s.len() - from,
{
    if from < s.len() && s[from].0 != k {
        lemma_first_key_pos_props(s, k, from + 1);
    }
}

/// Upserting never makes two entries share a key: an existing key keeps its
/// position, a new one is appended once.
pub proof fn lemma_upsert_keeps_distinct(
    acc: Seq<(Seq<char>, Seq<Seq<char>>)>,
    key: Seq<char>,
    items: Seq<Seq<char>>,
)
    requires
        distinct_keys(acc),
    ensures
        distinct_keys(upsert_concat(acc, key, items)),
{
    lemma_first_key_pos_props(acc, key, 0);
    match first_key_pos(acc, key, 0) {
        Some(p) => {
            lemma_upsert_concat_found(acc, key, items, p);
            let r = acc.update(p, (acc[p].0, acc[p].1 + items));
            assert forall|x: int, q: int|
                0 <= x < q < r.len() implies (#[trigger] r[x]).0 != (#[trigger] r[q]).0 by {
                assert(r[x].0 == acc[x].0);
                assert(r[q].0 == acc[q].0);
            }
        },
        None => {
            lemma_upsert_concat_missing(acc, key, items);
            let r = acc.push((key, items));
            assert forall|x: int, q: int|
                0 <= x < q < r.len() implies (#[trigger] r[x]).0 != (#[trigger] r[q]).0 by {
                if q < acc.len() {
                    assert(r[x].0 == acc[x].0);
                    assert(r[q].0 == acc[q].0);
                } else {
                    assert(r[q].0 == key);
                    assert(r[x].0 == acc[x].0);
                }
            }
        },
    }
}

/// Folding one target's lists into an accumulator that holds only that
/// target keeps it a one-entry map whose inner keys stay distinct.
proof fn lemma_fold_item_lists_single(
    acc: ItemMapV,
    name: Seq<char>,
    lists: Seq<(Seq<char>, JsonV)>,
    from: int,
)
    requires
        acc.len() == 1,
        acc[0].0 == name,
        distinct_keys(acc[0].1),
    ensures
        match fold_item_lists(acc, name, lists, from) {
            Some(r) => r.len() == 1 && r[0].0 == name && distinct_keys(r[0].1),
            None => true,
        },
    decreases lists.len() - from,
{
    if 0 <= from < lists.len() {
        match lists[from].1 {
            JsonV::Arr(a) => match strings_of(a, 0) {
                Some(items) => {
                    let inner = lookup_or_empty(acc, name);
                    assert(assoc_lookup(acc, name) == Some(acc[0].1));
                    assert(inner == acc[0].1);
                    let inner2 = upsert_concat(inner, lists[from].0, items);
                    lemma_upsert_keeps_distinct(inner, lists[from].0, items);
                    let acc2 = assoc_set(acc, name, inner2);
                    assert(acc2 == seq![(acc[0].0, inner2)] + acc.drop_first());
                    assert(acc.drop_first() =~= Seq::<
                        (Seq<char>, Seq<(Seq<char>, Seq<Seq<char>>)>),
                    >::empty());
                    assert(acc2 =~= seq![(name, inner2)]);
                    assert(acc2[0] == (name, inner2));
                    lemma_fold_item_lists_single(acc2, name, lists, from + 1);
                },
                None => {},
            },
            _ => {},
        }
    }
}

/// The legacy rule end to end, as the merger runs it: a mod whose map holds
/// the master item list and nothing else leaves the merged structure with
/// an initially-known entry identical to the merged master entry.
pub proof fn lemma_single_master_map_duplicates(m: Seq<(Seq<char>, JsonV)>)
    requires
        m.len() == 1,
        m[0].0 == master_list_key(),
        fold_item_maps(Seq::empty(), seq![JsonV::Obj(m)], 0) is Some,
    ensures
        ({
            let r = fold_item_maps(Seq::empty(), seq![JsonV::Obj(m)], 0)->Some_0;
            &&& assoc_lookup(r, known_list_key()) is Some
            &&& assoc_lookup(r, known_list_key()) == assoc_lookup(r, master_list_key())
        }),
{
    proof_strlit_keys();
    let ps = seq![JsonV::Obj(m)];
    assert(ps[0] == JsonV::Obj(m));
    assert(ps.len() == 1);
    assert forall|j: int| 0 <= j < m.len() implies (#[trigger] m[j]).0 != known_list_key() by {
        assert(m[j].0 == master_list_key());
    }
    crate::json::lemma_assoc_lookup_none(m, known_list_key());
    assert(!assoc_contains(m, known_list_key()));
    let empty_acc = Seq::<(Seq<char>, Seq<(Seq<char>, Seq<Seq<char>>)>)>::empty();
    assert(fold_item_maps(empty_acc, ps, 0) == match fold_item_map_entries(
        empty_acc,
        m,
        false,
        0,
    ) {
        Some(a2) => fold_item_maps(a2, ps, 1),
        None => None,
    });
    assert(m[0].1 is Obj);
    let lists = m[0].1->Obj_0;
    assert(!assoc_contains(empty_acc, master_list_key()));
    let acc1 = outer_ensure(empty_acc, master_list_key());
    assert(acc1 =~= seq![
        (master_list_key(), Seq::<(Seq<char>, Seq<Seq<char>>)>::empty()),
    ]);
    assert(acc1[0].0 == master_list_key());
    lemma_fold_item_lists_single(acc1, master_list_key(), lists, 0);
    assert(fold_item_lists(acc1, master_list_key(), lists, 0) is Some);
    let acc2 = fold_item_lists(acc1, master_list_key(), lists, 0)->Some_0;
    let ml = acc2[0].1;
    assert(assoc_lookup(acc2, master_list_key()) == Some(ml));
    assert(acc2.len() == 1);
    assert(acc2[0].0 == master_list_key());
    assert(acc2[0].0 != known_list_key());
    assert(acc2.drop_first() =~= empty_acc);
    assert(acc2.drop_first() == empty_acc);
    assert(assoc_lookup(empty_acc, known_list_key()) is None);
    assert(assoc_lookup(acc2, known_list_key()) is None);
    assert(lookup_or_empty(acc2, known_list_key()) =~= Seq::<(Seq<char>, Seq<Seq<char>>)>::empty());
    assert(lookup_or_empty(acc2, master_list_key()) == ml);
    lemma_assoc_set_all_appends(Seq::empty(), ml, 0);
    assert(Seq::<(Seq<char>, Seq<Seq<char>>)>::empty() + ml.skip(0) =~= ml);
    let acc3 = legacy_duplicate(acc2);
    assert forall|j: int| 0 <= j < acc2.len() implies (#[trigger] acc2[j]).0
        != known_list_key() by {
        assert(j == 0);
    }
    lemma_assoc_set_missing(acc2, known_list_key(), ml);
    assert(acc3 == acc2.push((known_list_key(), ml)));
    crate::json::lemma_assoc_lookup_found(acc3, known_list_key(), 1);
    assert(acc3[1] == (known_list_key(), ml));
    assert(assoc_lookup(acc3, known_list_key()) == Some(ml));
    assert(acc3[0] == acc2[0]);
    assert(assoc_lookup(acc3, master_list_key()) == Some(ml));
    assert(fold_item_map_entries(acc3, m, false, 1) == Some(acc3));
    assert(fold_item_map_entries(empty_acc, m, false, 0) == Some(acc3));
    assert(fold_item_maps(acc3, ps, 1) == Some(acc3));
}

/// The two item-list keys differ.
proof fn proof_strlit_keys()
    ensures
        master_list_key() != known_list_key(),
{
    reveal_strlit("/Game/Items/ItemTypes/MasterItemList");
    reveal_strlit("/Game/Items/ItemTypes/BaseGameInitialKnownItemList");
    assert(master_list_key().len() != known_list_key().len());
}

} // verus!
