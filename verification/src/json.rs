//! A plain JSON value model.
//!
//! Mod descriptors arrive as JSON. The merging and patching logic works on
//! this crate-owned representation, so that every rule about descriptor
//! shapes is stated and checked here; the host program converts whatever its
//! JSON reader produced into [`Json`] values. Objects keep their entries in
//! the order the reader handed them over (readers that sort keys simply hand
//! over sorted entries).

use vstd::prelude::*;

verus! {

broadcast use {
    vstd::seq::axiom_seq_index_decreases,
    vstd::seq::axiom_seq_subrange_decreases,
    vstd::std_specs::vec::axiom_vec_decreases_to_view,
};

/// A JSON value. Numbers are modelled as signed integers: no descriptor
/// shape consumed by the patch strategies carries a fractional number.
pub enum Json {
    Null,
    Bool(bool),
    Int(i64),
    Str(String),
    Arr(Vec<Json>),
    Obj(Vec<(String, Json)>),
}

/// The mathematical shape of a [`Json`] value.
pub enum JsonV {
    Null,
    Bool(bool),
    Int(int),
    Str(Seq<char>),
    Arr(Seq<JsonV>),
    Obj(Seq<(Seq<char>, JsonV)>),
}

/// Views of a sequence of JSON values, element by element.
pub open spec fn json_views(s: Seq<Json>) -> Seq<JsonV>
    decreases s,
{
    if s.len() == 0 {
        Seq::empty()
    } else {
        seq![s[0].deep_view()] + json_views(s.drop_first())
    }
}

/// Views of a sequence of JSON object entries, element by element.
pub open spec fn json_entry_views(s: Seq<(String, Json)>) -> Seq<(Seq<char>, JsonV)>
    decreases s,
{
    if s.len() == 0 {
        Seq::empty()
    } else {
        seq![(s[0].0@, s[0].1.deep_view())] + json_entry_views(s.drop_first())
    }
}

impl DeepView for Json {
    type V = JsonV;

    open spec fn deep_view(&self) -> JsonV
        decreases self,
    {
        match self {
            Json::Null => JsonV::Null,
            Json::Bool(b) => JsonV::Bool(*b),
            Json::Int(n) => JsonV::Int(*n as int),
            Json::Str(s) => JsonV::Str(s@),
            Json::Arr(v) => JsonV::Arr(json_views(v@)),
            Json::Obj(m) => JsonV::Obj(json_entry_views(m@)),
        }
    }
}

pub proof fn lemma_json_views(s: Seq<Json>)
    ensures
        json_views(s).len() == s.len(),
        forall|i: int| 0 <= i < s.len() ==> json_views(s)[i] == #[trigger] s[i].deep_view(),
    decreases s.len(),
{
    if s.len() > 0 {
        lemma_json_views(s.drop_first());
        assert(json_views(s) == seq![s[0].deep_view()] + json_views(s.drop_first()));
        assert forall|i: int| 0 <= i < s.len() implies json_views(s)[i] == #[trigger] s[i]
            .deep_view() by {
            if i > 0 {
                assert(s.drop_first()[i - 1] == s[i]);
                assert(json_views(s)[i] == json_views(s.drop_first())[i - 1]);
            }
        }
    }
}

pub proof fn lemma_json_entry_views(s: Seq<(String, Json)>)
    ensures
        json_entry_views(s).len() == s.len(),
        forall|i: int| 0 <= i < s.len() ==> json_entry_views(s)[i] == (
        #[trigger] s[i].0@,
        s[i].1.deep_view(),
        ),
    decreases s.len(),
{
    if s.len() > 0 {
        lemma_json_entry_views(s.drop_first());
        assert(json_entry_views(s) == seq![(s[0].0@, s[0].1.deep_view())] + json_entry_views(
            s.drop_first(),
        ));
        assert forall|i: int| 0 <= i < s.len() implies json_entry_views(s)[i] == (
        #[trigger] s[i].0@,
        s[i].1.deep_view(),
        ) by {
            if i > 0 {
                assert(s.drop_first()[i - 1] == s[i]);
                assert(json_entry_views(s.drop_first())[i - 1] == (
                s.drop_first()[i - 1].0@,
                s.drop_first()[i - 1].1.deep_view(),
                ));
                assert(json_entry_views(s)[i] == json_entry_views(s.drop_first())[i - 1]);
            }
        }
    }
}

/// Lookup in an association sequence: the value at the first entry whose key
/// is `k`.
pub open spec fn assoc_lookup<V>(s: Seq<(Seq<char>, V)>, k: Seq<char>) -> Option<V>
    decreases s.len(),
{
    if s.len() == 0 {
        None
    } else if s[0].0 == k {
        Some(s[0].1)
    } else {
        assoc_lookup(s.drop_first(), k)
    }
}

/// A key occurs in an association sequence.
pub open spec fn assoc_contains<V>(s: Seq<(Seq<char>, V)>, k: Seq<char>) -> bool {
    assoc_lookup(s, k) is Some
}

impl Json {
    /// The elements when this value is an array.
    pub fn as_arr(&self) -> (r: Option<&Vec<Json>>)
        ensures
            match r {
                Some(v) => self.deep_view() == JsonV::Arr(json_views(v@)),
                None => !(self.deep_view() is Arr),
            },
    {
        match self {
            Json::Arr(v) => Some(v),
            _ => None,
        }
    }

    /// The entries when this value is an object.
    pub fn as_obj(&self) -> (r: Option<&Vec<(String, Json)>>)
        ensures
            match r {
                Some(m) => self.deep_view() == JsonV::Obj(json_entry_views(m@)),
                None => !(self.deep_view() is Obj),
            },
    {
        match self {
            Json::Obj(m) => Some(m),
            _ => None,
        }
    }

    /// The text when this value is a string.
    pub fn as_str(&self) -> (r: Option<&String>)
        ensures
            match r {
                Some(s) => self.deep_view() == JsonV::Str(s@),
                None => !(self.deep_view() is Str),
            },
    {
        match self {
            Json::Str(s) => Some(s),
            _ => None,
        }
    }
}

/// Whether an object (given as its entry list) holds an entry with key `key`.
pub fn obj_contains_key(entries: &Vec<(String, Json)>, key: &str) -> (r: bool)
    ensures
        r == assoc_contains(json_entry_views(entries@), key@),
{
    let n = entries.len();
    let mut i: usize = 0;
    proof {
        lemma_json_entry_views(entries@);
    }
    while i < n
        invariant
            i <= n,
            n == entries@.len(),
            json_entry_views(entries@).len() == entries@.len(),
            forall|j: int| 0 <= j < entries@.len() ==> #[trigger] json_entry_views(entries@)[j]
                == (entries@[j].0@, entries@[j].1.deep_view()),
            forall|j: int| 0 <= j < i ==> #[trigger] json_entry_views(entries@)[j].0 != key@,
        decreases n - i,
    {
        if crate::strutil::str_eq(entries[i].0.as_str(), key) {
            proof {
                lemma_assoc_lookup_found(json_entry_views(entries@), key@, i as int);
            }
            return true;
        }
        i = i + 1;
    }
    proof {
        lemma_assoc_lookup_none(json_entry_views(entries@), key@);
    }
    false
}

/// The value at the first entry of an object whose key is `key`.
pub fn obj_get<'a>(entries: &'a Vec<(String, Json)>, key: &str) -> (r: Option<&'a Json>)
    ensures
        match r {
            Some(v) => assoc_lookup(json_entry_views(entries@), key@) == Some(v.deep_view()),
            None => assoc_lookup(json_entry_views(entries@), key@) is None,
        },
{
    let n = entries.len();
    let mut i: usize = 0;
    proof {
        lemma_json_entry_views(entries@);
    }
    while i < n
        invariant
            i <= n,
            n == entries@.len(),
            json_entry_views(entries@).len() == entries@.len(),
            forall|j: int| 0 <= j < entries@.len() ==> #[trigger] json_entry_views(entries@)[j]
                == (entries@[j].0@, entries@[j].1.deep_view()),
            forall|j: int| 0 <= j < i ==> #[trigger] json_entry_views(entries@)[j].0 != key@,
        decreases n - i,
    {
        if crate::strutil::str_eq(entries[i].0.as_str(), key) {
            proof {
                lemma_assoc_lookup_found(json_entry_views(entries@), key@, i as int);
            }
            return Some(&entries[i].1);
        }
        i = i + 1;
    }
    proof {
        lemma_assoc_lookup_none(json_entry_views(entries@), key@);
    }
    None
}

/// When no key matches, lookup misses.
pub proof fn lemma_assoc_lookup_none<V>(s: Seq<(Seq<char>, V)>, k: Seq<char>)
    requires
        forall|j: int| 0 <= j < s.len() ==> #[trigger] s[j].0 != k,
    ensures
        assoc_lookup(s, k) is None,
    decreases s.len(),
{
    if s.len() > 0 {
        assert(s[0].0 != k);
        assert forall|j: int| 0 <= j < s.drop_first().len() implies #[trigger] s.drop_first()[j].0
            != k by {
            assert(s.drop_first()[j] == s[j + 1]);
        }
        lemma_assoc_lookup_none(s.drop_first(), k);
    }
}

/// When the first match sits at position `i`, lookup returns its value.
pub proof fn lemma_assoc_lookup_found<V>(s: Seq<(Seq<char>, V)>, k: Seq<char>, i: int)
    requires
        0 <= i < s.len(),
        s[i].0 == k,
        forall|j: int| 0 <= j < i ==> #[trigger] s[j].0 != k,
    ensures
        assoc_lookup(s, k) == Some(s[i].1),
    decreases i,
{
    if i > 0 {
        assert(s[0].0 != k);
        assert(s.drop_first()[i - 1] == s[i]);
        assert forall|j: int| 0 <= j < i - 1 implies #[trigger] s.drop_first()[j].0 != k by {
            assert(s.drop_first()[j] == s[j + 1]);
        }
        lemma_assoc_lookup_found(s.drop_first(), k, i - 1);
    }
}

} // verus!
