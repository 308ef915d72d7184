//! Small verified helpers on character sequences: exact and
//! ASCII-case-insensitive comparison, searching for a character, splitting on
//! a separator, and lookup in an ordered association list.

use vstd::prelude::*;

verus! {

/// The code point of `c`, with ASCII upper-case letters folded to lower case.
pub open spec fn lower_code(c: char) -> int {
    let u = c as u32;
    if 65 <= u && u <= 90 {
        u + 32
    } else {
        u as int
    }
}

/// Character sequences of equal length whose characters agree up to ASCII case.
pub open spec fn chars_eq_ci(a: Seq<char>, b: Seq<char>) -> bool {
    a.len() == b.len() && forall|k: int|
        0 <= k < a.len() ==> lower_code(#[trigger] a[k]) == lower_code(b[k])
}

/// ASCII-case-folded code point of one character.
pub fn lower_u32(c: char) -> (r: u32)
    ensures
        r as int == lower_code(c),
{
    let u = c as u32;
    if 65 <= u && u <= 90 {
        u + 32
    } else {
        u
    }
}

/// Exact equality of two string slices, character by character.
pub fn str_eq(a: &str, b: &str) -> (r: bool)
    ensures
        r == (a@ == b@),
{
    let an = a.unicode_len();
    let bn = b.unicode_len();
    if an != bn {
        assert(a@ != b@) by {
            assert(a@.len() != b@.len());
        }
        return false;
    }
    let mut k: usize = 0;
    while k < an
        invariant
            an == a@.len(),
            bn == b@.len(),
            an == bn,
            k <= an,
            forall|j: int| 0 <= j < k ==> a@[j] == b@[j],
        decreases an - k,
    {
        let ca = a.get_char(k);
        let cb = b.get_char(k);
        if ca != cb {
            assert(a@ != b@) by {
                assert(a@[k as int] != b@[k as int]);
            }
            return false;
        }
        k += 1;
    }
    assert(a@ =~= b@);
    true
}

/// Equality of two string slices up to ASCII case of their characters.
pub fn str_eq_ci(a: &str, b: &str) -> (r: bool)
    ensures
        r == chars_eq_ci(a@, b@),
{
    let an = a.unicode_len();
    let bn = b.unicode_len();
    if an != bn {
        return false;
    }
    let mut k: usize = 0;
    while k < an
        invariant
            an == a@.len(),
            bn == b@.len(),
            an == bn,
            k <= an,
            forall|j: int| 0 <= j < k ==> lower_code(#[trigger] a@[j]) == lower_code(b@[j]),
        decreases an - k,
    {
        let ca = a.get_char(k);
        let cb = b.get_char(k);
        if lower_u32(ca) != lower_u32(cb) {
            assert(lower_code(a@[k as int]) != lower_code(b@[k as int]));
            return false;
        }
        k += 1;
    }
    true
}

/// Position of the first occurrence of `c` in `s` at or after `i`.
pub open spec fn find_from(s: Seq<char>, c: char, i: int) -> Option<int>
    decreases s.len() - i,
{
    if i < 0 || i >= s.len() {
        None
    } else if s[i] == c {
        Some(i)
    } else {
        find_from(s, c, i + 1)
    }
}

/// What a successful or failed search means for the characters of `s`.
pub proof fn lemma_find_from(s: Seq<char>, c: char, i: int)
    requires
        0 <= i,
    ensures
        match find_from(s, c, i) {
            Some(j) => i <= j < s.len() && s[j] == c && forall|k: int| i <= k < j ==> s[k] != c,
            None => forall|k: int| i <= k < s.len() ==> s[k] != c,
        },
    decreases s.len() - i,
{
    if i < s.len() && s[i] != c {
        lemma_find_from(s, c, i + 1);
    }
}

/// First occurrence of `c` in `s` at or after index `i`.
pub fn find_char_from(s: &str, c: char, i: usize) -> (r: Option<usize>)
    requires
        i <= s@.len(),
    ensures
        match r {
            Some(j) => find_from(s@, c, i as int) == Some(j as int) && i <= j < s@.len(),
            None => find_from(s@, c, i as int) is None,
        },
    decreases s@.len() - i,
{
    let n = s.unicode_len();
    if i == n {
        None
    } else if s.get_char(i) == c {
        Some(i)
    } else {
        let r = find_char_from(s, c, i + 1);
        proof {
            lemma_find_from(s@, c, i + 1);
        }
        r
    }
}

/// Whether `c` occurs anywhere in `s`.
pub open spec fn has_char(s: Seq<char>, c: char) -> bool {
    exists|k: int| 0 <= k < s.len() && s[k] == c
}

/// Decides whether `c` occurs anywhere in `s`.
pub fn contains_char(s: &str, c: char) -> (r: bool)
    ensures
        r == has_char(s@, c),
{
    let found = find_char_from(s, c, 0);
    proof {
        lemma_find_from(s@, c, 0);
    }
    match found {
        Some(_) => true,
        None => false,
    }
}

/// The views of a sequence of owned strings.
pub open spec fn strs_view(v: Seq<String>) -> Seq<Seq<char>> {
    v.map_values(|s: String| s@)
}

/// The views of a sequence of (name, value) string pairs.
pub open spec fn pairs_view(v: Seq<(String, String)>) -> Seq<(Seq<char>, Seq<char>)> {
    v.map_values(|p: (String, String)| (p.0@, p.1@))
}

/// The split of the suffix `s[i..]` at every occurrence of `sep`; always at
/// least one (possibly empty) piece.
pub open spec fn split_from(s: Seq<char>, sep: char, i: int) -> Seq<Seq<char>>
    decreases s.len() - i,
{
    if i < 0 || i >= s.len() {
        seq![Seq::<char>::empty()]
    } else if s[i] == sep {
        seq![Seq::<char>::empty()] + split_from(s, sep, i + 1)
    } else {
        let rest = split_from(s, sep, i + 1);
        seq![seq![s[i]] + rest[0]] + rest.drop_first()
    }
}

/// A split always has at least one piece.
pub proof fn lemma_split_from_len(s: Seq<char>, sep: char, i: int)
    ensures
        split_from(s, sep, i).len() >= 1,
    decreases s.len() - i,
{
    if 0 <= i < s.len() {
        lemma_split_from_len(s, sep, i + 1);
    }
}

/// Splits the suffix of `s` starting at character `i` on `sep`.
pub fn split_str_from(s: &str, sep: char, i: usize) -> (r: Vec<String>)
    requires
        i <= s@.len(),
    ensures
        strs_view(r@) == split_from(s@, sep, i as int),
        r@.len() >= 1,
    decreases s@.len() - i,
{
    let n = s.unicode_len();
    if i == n {
        let mut v: Vec<String> = Vec::new();
        v.push(String::new());
        assert(strs_view(v@) =~~= split_from(s@, sep, i as int));
        v
    } else {
        let c = s.get_char(i);
        if c == sep {
            let mut v = split_str_from(s, sep, i + 1);
            v.insert(0, String::new());
            assert(strs_view(v@) =~~= split_from(s@, sep, i as int));
            v
        } else {
            let mut v = split_str_from(s, sep, i + 1);
            proof {
                lemma_split_from_len(s@, sep, i as int + 1);
            }
            let first = v.remove(0);
            let head = s.substring_char(i, i + 1);
            assert(head@ =~= seq![s@[i as int]]);
            let nf = String::from_str(head).concat(first.as_str());
            v.insert(0, nf);
            assert(strs_view(v@) =~~= split_from(s@, sep, i as int));
            v
        }
    }
}

/// The value bound to key `k` in the association list `m`, searching from `i`;
/// the earliest binding wins.
pub open spec fn assoc_from(m: Seq<(Seq<char>, Seq<char>)>, k: Seq<char>, i: int) -> Option<
    Seq<char>,
>
    decreases m.len() - i,
{
    if i < 0 || i >= m.len() {
        None
    } else if m[i].0 == k {
        Some(m[i].1)
    } else {
        assoc_from(m, k, i + 1)
    }
}

/// The value bound to key `k` in the association list `m`.
pub open spec fn assoc(m: Seq<(Seq<char>, Seq<char>)>, k: Seq<char>) -> Option<Seq<char>> {
    assoc_from(m, k, 0)
}

/// Dropping the first entry shifts the search index by one.
pub proof fn lemma_assoc_drop_first(
    m: Seq<(Seq<char>, Seq<char>)>,
    key: Seq<char>,
    i: int,
)
    requires
        0 <= i,
        m.len() >= 1,
    ensures
        assoc_from(m, key, i + 1) == assoc_from(m.drop_first(), key, i),
    decreases m.len() - i,
{
    if i + 1 < m.len() && m[i + 1].0 != key {
        lemma_assoc_drop_first(m, key, i + 1);
    }
}

/// A successful lookup means the key stands in the list.
pub proof fn lemma_assoc_some(m: Seq<(Seq<char>, Seq<char>)>, key: Seq<char>, i: int)
    requires
        0 <= i,
        assoc_from(m, key, i) is Some,
    ensures
        exists|j: int| i <= j < m.len() && (#[trigger] m[j]).0 == key,
    decreases m.len() - i,
{
    if i < m.len() {
        if m[i].0 == key {
            assert(i <= i < m.len() && m[i].0 == key);
        } else {
            lemma_assoc_some(m, key, i + 1);
        }
    }
}

/// Looks `key` up in the ordered association list `m`.
pub fn assoc_get<'a>(m: &'a Vec<(String, String)>, key: &str) -> (r: Option<&'a String>)
    ensures
        match r {
            Some(v) => assoc(pairs_view(m@), key@) == Some(v@),
            None => assoc(pairs_view(m@), key@) is None,
        },
{
    let ghost mv = pairs_view(m@);
    let mut i: usize = 0;
    while i < m.len()
        invariant
            i <= m@.len(),
            mv == pairs_view(m@),
            mv.len() == m@.len(),
            assoc_from(mv, key@, 0) == assoc_from(mv, key@, i as int),
        decreases m@.len() - i,
    {
        assert(mv[i as int] == (m@[i as int].0@, m@[i as int].1@));
        if str_eq(m[i].0.as_str(), key) {
            return Some(&m[i].1);
        }
        i += 1;
    }
    None
}

} // verus!
