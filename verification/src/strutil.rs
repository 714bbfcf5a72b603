//! Verified string helpers: searching, slicing, prefix tests and decimal
//! formatting over `&str` / `String`, specified against `Seq<char>` views.

use vstd::prelude::*;
use vstd::string::StrSliceExecFns;
use vstd::string::StringExecFns;

verus! {

/// `s` begins with `p`.
pub open spec fn starts_with(s: Seq<char>, p: Seq<char>) -> bool {
    s.len() >= p.len() && s.subrange(0, p.len() as int) == p
}

/// `c` occurs somewhere in `s`.
pub open spec fn contains_char(s: Seq<char>, c: char) -> bool {
    exists|i: int| 0 <= i < s.len() && s[i] == c
}

/// Index of the last occurrence of `c` in `s`, or -1 when `c` does not occur.
pub open spec fn last_index_of(s: Seq<char>, c: char) -> int
    decreases s.len(),
{
    if s.len() == 0 {
        -1
    } else if s.last() == c {
        s.len() - 1
    } else {
        last_index_of(s.drop_last(), c)
    }
}

pub proof fn lemma_last_index_of(s: Seq<char>, c: char)
    ensures
        last_index_of(s, c) >= -1,
        last_index_of(s, c) == -1 ==> !contains_char(s, c),
        last_index_of(s, c) >= 0 ==> {
            &&& last_index_of(s, c) < s.len()
            &&& s[last_index_of(s, c)] == c
            &&& forall|j: int| last_index_of(s, c) < j < s.len() ==> s[j] != c
        },
    decreases s.len(),
{
    if s.len() > 0 && s.last() != c {
        lemma_last_index_of(s.drop_last(), c);
        assert forall|j: int| 0 <= j < s.len() - 1 implies s.drop_last()[j] == s[j] by {}
    }
}

/// Index of the first occurrence of `c` in `s`, or -1 when `c` does not
/// occur.
pub open spec fn first_index_of(s: Seq<char>, c: char) -> int
    decreases s.len(),
{
    if s.len() == 0 {
        -1
    } else if s[0] == c {
        0
    } else if first_index_of(s.drop_first(), c) == -1 {
        -1
    } else {
        first_index_of(s.drop_first(), c) + 1
    }
}

pub proof fn lemma_first_index_of(s: Seq<char>, c: char)
    ensures
        first_index_of(s, c) >= -1,
        first_index_of(s, c) == -1 ==> !contains_char(s, c),
        first_index_of(s, c) >= 0 ==> {
            &&& first_index_of(s, c) < s.len()
            &&& s[first_index_of(s, c)] == c
            &&& forall|j: int| 0 <= j < first_index_of(s, c) ==> s[j] != c
        },
    decreases s.len(),
{
    if s.len() > 0 && s[0] != c {
        lemma_first_index_of(s.drop_first(), c);
        let sd = s.drop_first();
        if first_index_of(sd, c) == -1 {
            assert forall|i: int| 0 <= i < s.len() implies s[i] != c by {
                if i > 0 {
                    assert(sd[i - 1] == s[i]);
                    if s[i] == c {
                        assert(0 <= i - 1 < sd.len() && sd[i - 1] == c);
                        assert(contains_char(sd, c));
                    }
                }
            }
        } else {
            assert(sd[first_index_of(sd, c)] == s[first_index_of(s, c)]);
            assert forall|j: int| 0 <= j < first_index_of(s, c) implies s[j] != c by {
                if j > 0 {
                    assert(sd[j - 1] == s[j]);
                }
            }
        }
    }
}

/// Equality of two string slices, decided on their character views.
pub fn str_eq(a: &str, b: &str) -> (r: bool)
    ensures
        r == (a@ == b@),
{
    let oa: String = a.to_owned();
    let ob: String = b.to_owned();
    oa == ob
}

/// Number of characters in `s`.
pub fn char_len(s: &str) -> (n: usize)
    ensures
        n == s@.len(),
{
    s.unicode_len()
}

/// First occurrence of `c` in `s`, as a character index; agrees with
/// [`first_index_of`].
pub fn index_of_char(s: &str, c: char) -> (r: Option<usize>)
    ensures
        match r {
            Some(i) => i as int == first_index_of(s@, c) && i < s@.len() && s@[i as int] == c
                && forall|j: int| 0 <= j < i ==> s@[j] != c,
            None => first_index_of(s@, c) == -1 && !contains_char(s@, c),
        },
{
    let n = s.unicode_len();
    let mut i: usize = 0;
    while i < n
        invariant
            i <= n,
            n == s@.len(),
            forall|j: int| 0 <= j < i ==> s@[j] != c,
        decreases n - i,
    {
        if s.get_char(i) == c {
            proof {
                lemma_first_index_of(s@, c);
                let f = first_index_of(s@, c);
                if f == -1 {
                    assert((i as int) < s@.len() && s@[i as int] == c);
                    assert(contains_char(s@, c));
                } else if f < i as int {
                    assert(s@[f] != c);
                } else if f > i as int {
                    assert(s@[i as int] != c);
                }
            }
            return Some(i);
        }
        i = i + 1;
    }
    proof {
        lemma_first_index_of(s@, c);
        let f = first_index_of(s@, c);
        if f >= 0 {
            assert(s@[f] == c);
            assert(s@[f] != c);
        }
    }
    None
}

/// Last occurrence of `c` in `s`, as a character index; agrees with
/// [`last_index_of`].
pub fn rindex_of_char(s: &str, c: char) -> (r: Option<usize>)
    ensures
        match r {
            Some(i) => i as int == last_index_of(s@, c),
            None => last_index_of(s@, c) == -1,
        },
{
    let n = s.unicode_len();
    let mut i: usize = n;
    while i > 0
        invariant
            i <= n,
            n == s@.len(),
            forall|j: int| i <= j < n ==> s@[j] != c,
        decreases i,
    {
        i = i - 1;
        if s.get_char(i) == c {
            proof {
                lemma_last_index_of(s@, c);
                let l = last_index_of(s@, c);
                if l == -1 {
                    assert(contains_char(s@, c)) by {
                        assert((i as int) < s@.len() && s@[i as int] == c);
                    }
                } else if l > i as int {
                    assert(s@[l] != c);
                } else if l < i as int {
                    assert(s@[i as int] != c);
                }
            }
            return Some(i);
        }
    }
    proof {
        lemma_last_index_of(s@, c);
        let l = last_index_of(s@, c);
        if l >= 0 {
            assert(s@[l] == c);
            assert(s@[l] != c);
        }
    }
    None
}

/// The characters of `s` from `from` (inclusive) to `to` (exclusive), as an
/// owned string.
pub fn substring(s: &str, from: usize, to: usize) -> (r: String)
    requires
        from <= to <= s@.len(),
    ensures
        r@ == s@.subrange(from as int, to as int),
{
    s.substring_char(from, to).to_owned()
}

/// Whether `s` begins with `prefix`.
pub fn starts_with_str(s: &str, prefix: &str) -> (r: bool)
    ensures
        r == starts_with(s@, prefix@),
{
    let pn = prefix.unicode_len();
    let sn = s.unicode_len();
    if sn < pn {
        return false;
    }
    let sub = s.substring_char(0, pn);
    str_eq(sub, prefix)
}

/// Concatenation of two strings.
pub fn concat_str(a: &str, b: &str) -> (r: String)
    ensures
        r@ == a@ + b@,
{
    let oa: String = a.to_owned();
    oa.concat(b)
}

/// The decimal digit `d` as a character, for `d < 10`.
pub open spec fn dec_digit(d: nat) -> char {
    ((48 + d) as u8) as char
}

/// The decimal representation of `n`, most significant digit first, no sign
/// and no leading zero (a single `'0'` for zero).
pub open spec fn dec_str(n: nat) -> Seq<char>
    decreases n,
{
    if n < 10 {
        seq![dec_digit(n)]
    } else {
        dec_str(n / 10).push(dec_digit(n % 10))
    }
}

fn digit_str(d: u64) -> (r: &'static str)
    requires
        d < 10,
    ensures
        r@ == seq![dec_digit(d as nat)],
{
    proof {
        reveal_strlit("0");
        reveal_strlit("1");
        reveal_strlit("2");
        reveal_strlit("3");
        reveal_strlit("4");
        reveal_strlit("5");
        reveal_strlit("6");
        reveal_strlit("7");
        reveal_strlit("8");
        reveal_strlit("9");
    }
    let r = match d {
        0 => "0",
        1 => "1",
        2 => "2",
        3 => "3",
        4 => "4",
        5 => "5",
        6 => "6",
        7 => "7",
        8 => "8",
        _ => "9",
    };
    proof {
        assert(r@ =~= seq![dec_digit(d as nat)]);
    }
    r
}

/// `n` written in decimal.
pub fn u64_to_string(n: u64) -> (r: String)
    ensures
        r@ == dec_str(n as nat),
    decreases n,
{
    if n < 10 {
        digit_str(n).to_owned()
    } else {
        let high = u64_to_string(n / 10);
        let r = high.concat(digit_str(n % 10));
        proof {
            assert(r@ =~= dec_str(n as nat));
        }
        r
    }
}

} // verus!
