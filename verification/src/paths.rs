//! Game-path handling: file names and stems of forward-slash paths, the
//! mapping from `/Game/` paths to absolute archive record names, and the
//! item/component path grammars the strategies consume.

use vstd::prelude::*;
use crate::strutil::{
    contains_char, first_index_of, last_index_of, starts_with, char_len, index_of_char,
    rindex_of_char, substring, concat_str, lemma_first_index_of, lemma_last_index_of, str_eq,
};

verus! {

/// The final component of a forward-slash path, as the platform path rules
/// read it: trailing separators and trailing `.` components are ignored; a
/// path that ends in a `..` component, or runs out of components, has no
/// file name.
pub open spec fn path_file_name(s: Seq<char>) -> Option<Seq<char>>
    decreases s.len(),
{
    if s.len() == 0 {
        None
    } else if s[s.len() - 1] == '/' {
        path_file_name(s.drop_last())
    } else if s[s.len() - 1] == '.' && (s.len() == 1 || s[s.len() - 2] == '/') {
        path_file_name(s.drop_last())
    } else if s[s.len() - 1] == '.' && s[s.len() - 2] == '.' && (s.len() == 2 || s[s.len() - 3]
        == '/') {
        None
    } else {
        Some(s.subrange(last_index_of(s, '/') + 1, s.len() as int))
    }
}

/// The stem of a file component: everything before the last `.`, except that
/// a leading `.` (a hidden file) does not start an extension.
pub open spec fn stem_of(c: Seq<char>) -> Seq<char> {
    let d = last_index_of(c, '.');
    if d <= 0 {
        c
    } else {
        c.subrange(0, d)
    }
}

/// A file component carries an extension when it has a `.` past its first
/// character.
pub open spec fn component_has_extension(c: Seq<char>) -> bool {
    last_index_of(c, '.') >= 1
}

/// The stem of a path's file name.
pub open spec fn file_stem_spec(s: Seq<char>) -> Option<Seq<char>> {
    match path_file_name(s) {
        Some(c) => Some(stem_of(c)),
        None => None,
    }
}

/// The final component of a path; agrees with [`path_file_name`].
pub fn file_name_of(path: &str) -> (r: Option<String>)
    ensures
        match r {
            Some(c) => path_file_name(path@) == Some(c@),
            None => path_file_name(path@) is None,
        },
    decreases path@.len(),
{
    let n = char_len(path);
    if n == 0 {
        return None;
    }
    let lastc = path.get_char(n - 1);
    if lastc == '/' {
        let pre = substring(path, 0, n - 1);
        proof {
            assert(pre@ =~= path@.drop_last());
        }
        return file_name_of(pre.as_str());
    }
    if lastc == '.' && (n == 1 || path.get_char(n - 2) == '/') {
        let pre = substring(path, 0, n - 1);
        proof {
            assert(pre@ =~= path@.drop_last());
        }
        return file_name_of(pre.as_str());
    }
    if lastc == '.' && path.get_char(n - 2) == '.' && (n == 2 || path.get_char(n - 3) == '/') {
        return None;
    }
    proof {
        lemma_last_index_of(path@, '/');
    }
    let cut: usize = match rindex_of_char(path, '/') {
        Some(i) => i + 1,
        None => 0,
    };
    Some(substring(path, cut, n))
}

/// The stem of a path's file name; agrees with [`file_stem_spec`].
pub fn file_stem_of(path: &str) -> (r: Option<String>)
    ensures
        match r {
            Some(c) => file_stem_spec(path@) == Some(c@),
            None => file_stem_spec(path@) is None,
        },
{
    match file_name_of(path) {
        None => None,
        Some(c) => {
            let cl = char_len(c.as_str());
            proof {
                lemma_last_index_of(c@, '.');
            }
            match rindex_of_char(c.as_str(), '.') {
                Some(d) => {
                    if d > 0 {
                        Some(substring(c.as_str(), 0, d))
                    } else {
                        Some(c)
                    }
                },
                None => Some(c),
            }
        },
    }
}

/// A path all of whose slash-separated segments are ordinary names: no empty
/// segment, no `.`, no `..`. On such paths the absolute-name mapping is
/// fully pinned down.
pub open spec fn clean_path(s: Seq<char>) -> bool {
    &&& s.len() > 0
    &&& s[0] != '/'
    &&& s[s.len() - 1] != '/'
    &&& forall|i: int| 0 <= i < s.len() - 1 ==> !(#[trigger] s[i] == '/' && s[i + 1] == '/')
    &&& !(exists|i: int|
        0 <= i < s.len() && #[trigger] s[i] == '.' && (i == 0 || s[i - 1] == '/') && (i == s.len()
            - 1 || s[i + 1] == '/'))
    &&& !(exists|i: int|
        0 <= i < s.len() - 1 && #[trigger] s[i] == '.' && s[i + 1] == '.' && (i == 0 || s[i - 1]
            == '/') && (i + 1 == s.len() - 1 || s[i + 2] == '/'))
}

/// A logical game-content path: one that begins with `/Game/`.
pub open spec fn is_game_path(s: Seq<char>) -> bool {
    starts_with(s, "/Game/"@)
}

/// The `/Game/` prefix replaced by `<game>/Content/`.
pub open spec fn abs_base(game: Seq<char>, path: Seq<char>) -> Seq<char> {
    game + "/Content/"@ + path.skip(6)
}

/// The absolute archive record name of a game path: the rebased path, with
/// `.uasset` appended when its file name carries no extension.
pub open spec fn abs_path_of(game: Seq<char>, path: Seq<char>) -> Seq<char> {
    let s = abs_base(game, path);
    match path_file_name(s) {
        Some(c) => if component_has_extension(c) {
            s
        } else {
            s + ".uasset"@
        },
        None => s,
    }
}

/// How an item path denotes an asset: the asset path itself, the class name
/// and the soft class name. A dotted path `pkg.Cls` names them directly
/// (tokens past a second dot are dropped); an undotted path names the class
/// by its file stem plus `_C`. A path with no usable file stem is malformed.
pub open spec fn item_path_parts(path: Seq<char>) -> Option<(Seq<char>, Seq<char>, Seq<char>)> {
    if contains_char(path, '.') {
        let d = first_index_of(path, '.');
        let rest = path.subrange(d + 1, path.len() as int);
        let d2 = first_index_of(rest, '.');
        let cls = if d2 == -1 {
            rest
        } else {
            rest.subrange(0, d2)
        };
        Some((path.subrange(0, d), cls, cls))
    } else {
        match file_stem_spec(path) {
            Some(st) => Some((path, st + "_C"@, st)),
            None => None,
        }
    }
}

/// Splits an item path into (asset path, class name, soft class name);
/// agrees with [`item_path_parts`].
pub fn parse_item_path(path: &str) -> (r: Option<(String, String, String)>)
    ensures
        match r {
            Some(t) => item_path_parts(path@) == Some((t.0@, t.1@, t.2@)),
            None => item_path_parts(path@) is None,
        },
{
    let n = char_len(path);
    match index_of_char(path, '.') {
        Some(d) => {
            let asset = substring(path, 0, d);
            let rest = substring(path, d + 1, n);
            let rn = char_len(rest.as_str());
            let cls = match index_of_char(rest.as_str(), '.') {
                Some(d2) => substring(rest.as_str(), 0, d2),
                None => rest,
            };
            let cls2 = cls.clone();
            Some((asset, cls, cls2))
        },
        None => {
            match file_stem_of(path) {
                Some(st) => {
                    let cls = concat_str(st.as_str(), "_C");
                    Some((path.to_owned(), cls, st))
                },
                None => None,
            }
        },
    }
}

/// How a linked-component path denotes its component: the package path and
/// the component's base name. An undotted stem names the component by the
/// stem and the package by the whole path. A dotted stem `pkg.ClsTok` names
/// the package by `pkg` and the component by `ClsTok` with its trailing two
/// characters stripped (a quirk of the descriptor format, preserved as is);
/// a token shorter than two characters is malformed, as is a path with no
/// usable file stem.
pub open spec fn component_parts(path: Seq<char>) -> Option<(Seq<char>, Seq<char>)> {
    match file_stem_spec(path) {
        None => None,
        Some(st) => {
            if contains_char(st, '.') {
                let d = first_index_of(st, '.');
                let rest = st.subrange(d + 1, st.len() as int);
                let d2 = first_index_of(rest, '.');
                let tok = if d2 == -1 {
                    rest
                } else {
                    rest.subrange(0, d2)
                };
                if tok.len() < 2 {
                    None
                } else {
                    Some((st.subrange(0, d), tok.subrange(0, tok.len() - 2)))
                }
            } else {
                Some((path, st))
            }
        },
    }
}

/// Splits a linked-component path into (package path, component base name);
/// agrees with [`component_parts`].
pub fn parse_component_path(path: &str) -> (r: Option<(String, String)>)
    ensures
        match r {
            Some(t) => component_parts(path@) == Some((t.0@, t.1@)),
            None => component_parts(path@) is None,
        },
{
    match file_stem_of(path) {
        None => None,
        Some(st) => {
            let sn = char_len(st.as_str());
            match index_of_char(st.as_str(), '.') {
                Some(d) => {
                    let rest = substring(st.as_str(), d + 1, sn);
                    let rn = char_len(rest.as_str());
                    let tok = match index_of_char(rest.as_str(), '.') {
                        Some(d2) => substring(rest.as_str(), 0, d2),
                        None => rest,
                    };
                    let tn = char_len(tok.as_str());
                    if tn < 2 {
                        None
                    } else {
                        let base = substring(tok.as_str(), 0, tn - 2);
                        Some((substring(st.as_str(), 0, d), base))
                    }
                },
                None => Some((path.to_owned(), st)),
            }
        },
    }
}


/// The absolute archive record name of every game path, or the position of
/// the first name outside `/Game/`. The strategies address targets by
/// logical game path; the archive reads and writes records under these
/// names. The names are pinned down for a `$`-free game name (every real
/// caller passes a literal one) and cleanly-segmented paths.
pub fn absolute_asset_names(names: &Vec<String>, game: &str) -> (r: Result<Vec<String>, usize>)
    ensures
        match r {
            Ok(v) => {
                &&& v@.len() == names@.len()
                &&& forall|k: int| 0 <= k < names@.len() ==> is_game_path(#[trigger] names@[k]@)
                &&& forall|k: int|
                    0 <= k < names@.len() && !contains_char(game@, '$') && clean_path(
                        abs_base(game@, #[trigger] names@[k]@),
                    ) ==> v@[k]@ == abs_path_of(game@, names@[k]@)
            },
            Err(i) => i < names@.len() && !is_game_path(names@[i as int]@) && forall|k: int|
                0 <= k < i ==> is_game_path(#[trigger] names@[k]@),
        },
{
    let n = names.len();
    let mut out: Vec<String> = Vec::new();
    let mut i: usize = 0;
    while i < n
        invariant
            i <= n,
            n == names@.len(),
            out@.len() == i,
            forall|k: int| 0 <= k < i ==> is_game_path(#[trigger] names@[k]@),
            forall|k: int|
                0 <= k < i && !contains_char(game@, '$') && clean_path(
                    abs_base(game@, #[trigger] names@[k]@),
                ) ==> out@[k]@ == abs_path_of(game@, names@[k]@),
        decreases n - i,
    {
        match crate::outside::to_absolute(game, names[i].as_str()) {
            Some(a) => {
                out.push(a);
            },
            None => {
                return Err(i);
            },
        }
        i = i + 1;
    }
    Ok(out)
}

} // verus!
