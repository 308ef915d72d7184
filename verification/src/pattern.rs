//! Path patterns: a pattern is a sequence of segments, each a literal, a
//! named capture `<name>` binding one path component, or the wildcard `<**>`
//! matching any remaining components. An absent pattern, the empty string and
//! `/` match every path.

use crate::strutil::{pairs_view, split_from, split_str_from, str_eq, strs_view};
use vstd::prelude::*;

verus! {

/// One compiled pattern segment.
pub enum PatternSeg {
    /// Matches exactly this path component.
    Literal(String),
    /// Matches any one path component and binds it under the name.
    Capture(String),
    /// Matches all remaining path components, binding nothing.
    Rest,
}

/// A compiled path pattern.
pub enum PathPattern {
    /// Matches every path, binding nothing.
    Any,
    /// Matches component by component.
    Segments(Vec<PatternSeg>),
}

/// The components of a request path: the text between the slashes, after one
/// leading slash is dropped. The query string is no part of the path.
pub open spec fn path_segments(p: Seq<char>) -> Seq<Seq<char>> {
    if p.len() > 0 && p[0] == '/' {
        split_from(p, '/', 1)
    } else {
        split_from(p, '/', 0)
    }
}

/// Splits a request path into its components.
pub fn split_path(p: &str) -> (r: Vec<String>)
    ensures
        strs_view(r@) == path_segments(p@),
        r@.len() >= 1,
{
    let n = p.unicode_len();
    if n > 0 && p.get_char(0) == '/' {
        split_str_from(p, '/', 1)
    } else {
        split_str_from(p, '/', 0)
    }
}

/// Whether the pattern segments from index `i` on match the path components
/// from index `i` on. A literal must equal its component, a capture accepts
/// any one component, the wildcard accepts everything that remains, and an
/// exhausted pattern matches only an exhausted path.
pub open spec fn segs_match_from(pat: Seq<PatternSeg>, segs: Seq<Seq<char>>, i: int) -> bool
    decreases pat.len() - i,
{
    if i < 0 {
        false
    } else if i >= pat.len() {
        segs.len() == i
    } else {
        match pat[i] {
            PatternSeg::Rest => true,
            PatternSeg::Literal(l) => i < segs.len() && l@ == segs[i] && segs_match_from(
                pat,
                segs,
                i + 1,
            ),
            PatternSeg::Capture(_) => i < segs.len() && segs_match_from(pat, segs, i + 1),
        }
    }
}

/// The (name, component) pairs bound by the captures from index `i` on, in
/// pattern order.
pub open spec fn captures_from(pat: Seq<PatternSeg>, segs: Seq<Seq<char>>, i: int) -> Seq<
    (Seq<char>, Seq<char>),
>
    decreases pat.len() - i,
{
    if i < 0 || i >= pat.len() {
        Seq::empty()
    } else {
        match pat[i] {
            PatternSeg::Rest => Seq::empty(),
            PatternSeg::Literal(_) => captures_from(pat, segs, i + 1),
            PatternSeg::Capture(n) => if i < segs.len() {
                seq![(n@, segs[i])] + captures_from(pat, segs, i + 1)
            } else {
                captures_from(pat, segs, i + 1)
            },
        }
    }
}

/// Whether a pattern matches the path components.
pub open spec fn pattern_matches(p: PathPattern, segs: Seq<Seq<char>>) -> bool {
    match p {
        PathPattern::Any => true,
        PathPattern::Segments(v) => segs_match_from(v@, segs, 0),
    }
}

/// The capture bindings a matching pattern produces, in declaration order.
pub open spec fn pattern_captures(p: PathPattern, segs: Seq<Seq<char>>) -> Seq<
    (Seq<char>, Seq<char>),
> {
    match p {
        PathPattern::Any => Seq::empty(),
        PathPattern::Segments(v) => captures_from(v@, segs, 0),
    }
}

/// Matches the pattern suffix from `i` against the path components from `i`,
/// handing back the capture bindings on success.
pub fn match_segs_from(pat: &Vec<PatternSeg>, segs: &Vec<String>, i: usize) -> (r: Option<
    Vec<(String, String)>,
>)
    requires
        i <= pat@.len(),
        i <= segs@.len(),
    ensures
        match r {
            Some(c) => segs_match_from(pat@, strs_view(segs@), i as int) && pairs_view(c@)
                == captures_from(pat@, strs_view(segs@), i as int),
            None => !segs_match_from(pat@, strs_view(segs@), i as int),
        },
    decreases pat@.len() - i,
{
    let ghost sv = strs_view(segs@);
    assert(sv.len() == segs@.len());
    if i == pat.len() {
        if segs.len() == i {
            let c: Vec<(String, String)> = Vec::new();
            assert(pairs_view(c@) =~~= captures_from(pat@, sv, i as int));
            Some(c)
        } else {
            None
        }
    } else {
        match &pat[i] {
            PatternSeg::Rest => {
                let c: Vec<(String, String)> = Vec::new();
                assert(pairs_view(c@) =~~= captures_from(pat@, sv, i as int));
                Some(c)
            },
            PatternSeg::Literal(l) => {
                if i < segs.len() && str_eq(l.as_str(), segs[i].as_str()) {
                    assert(sv[i as int] == segs@[i as int]@);
                    match_segs_from(pat, segs, i + 1)
                } else {
                    assert(i < segs@.len() ==> sv[i as int] == segs@[i as int]@);
                    None
                }
            },
            PatternSeg::Capture(n) => {
                if i < segs.len() {
                    match match_segs_from(pat, segs, i + 1) {
                        Some(rest) => {
                            let mut c: Vec<(String, String)> = Vec::new();
                            c.push((n.clone(), segs[i].clone()));
                            let mut tail = rest;
                            c.append(&mut tail);
                            assert(sv[i as int] == segs@[i as int]@);
                            assert(pairs_view(c@) =~~= captures_from(pat@, sv, i as int));
                            Some(c)
                        },
                        None => None,
                    }
                } else {
                    None
                }
            },
        }
    }
}

/// Matches a whole pattern against a request path's components.
pub fn match_pattern(p: &PathPattern, segs: &Vec<String>) -> (r: Option<Vec<(String, String)>>)
    ensures
        match r {
            Some(c) => pattern_matches(*p, strs_view(segs@)) && pairs_view(c@) == pattern_captures(
                *p,
                strs_view(segs@),
            ),
            None => !pattern_matches(*p, strs_view(segs@)),
        },
{
    match p {
        PathPattern::Any => {
            let c: Vec<(String, String)> = Vec::new();
            assert(pairs_view(c@) =~~= pattern_captures(*p, strs_view(segs@)));
            Some(c)
        },
        PathPattern::Segments(v) => match_segs_from(v, segs, 0),
    }
}

/// The names of the captures from index `i` on, in pattern order, up to the
/// first wildcard.
pub open spec fn capture_names_from(pat: Seq<PatternSeg>, i: int) -> Seq<Seq<char>>
    decreases pat.len() - i,
{
    if i < 0 || i >= pat.len() {
        Seq::empty()
    } else {
        match pat[i] {
            PatternSeg::Rest => Seq::empty(),
            PatternSeg::Literal(_) => capture_names_from(pat, i + 1),
            PatternSeg::Capture(n) => seq![n@] + capture_names_from(pat, i + 1),
        }
    }
}

/// Path capture is exact: when the pattern matches, the bindings carry
/// exactly the pattern's capture names, in pattern order — each bound, by
/// the definition of `captures_from`, to the path component standing at its
/// capture's position.
pub proof fn lemma_captures_carry_names(pat: Seq<PatternSeg>, segs: Seq<Seq<char>>, i: int)
    requires
        0 <= i,
        segs_match_from(pat, segs, i),
    ensures
        captures_from(pat, segs, i).map_values(|p: (Seq<char>, Seq<char>)| p.0)
            == capture_names_from(pat, i),
    decreases pat.len() - i,
{
    if i >= pat.len() {
        assert(captures_from(pat, segs, i).map_values(|p: (Seq<char>, Seq<char>)| p.0)
            =~= capture_names_from(pat, i));
    } else {
        match pat[i] {
            PatternSeg::Rest => {
                assert(captures_from(pat, segs, i).map_values(|p: (Seq<char>, Seq<char>)| p.0)
                    =~= capture_names_from(pat, i));
            },
            PatternSeg::Literal(_) => {
                lemma_captures_carry_names(pat, segs, i + 1);
            },
            PatternSeg::Capture(n) => {
                lemma_captures_carry_names(pat, segs, i + 1);
                assert(captures_from(pat, segs, i) =~= seq![(n@, segs[i])] + captures_from(
                    pat,
                    segs,
                    i + 1,
                ));
                assert(captures_from(pat, segs, i).map_values(|p: (Seq<char>, Seq<char>)| p.0)
                    =~= capture_names_from(pat, i));
            },
        }
    }
}

/// The name a capture segment binds; empty for the other segment kinds.
pub open spec fn seg_name(s: PatternSeg) -> Seq<char> {
    match s {
        PatternSeg::Capture(n) => n@,
        _ => Seq::empty(),
    }
}

/// Capture is injective per request: when the pattern matches and no
/// earlier capture reuses the name, a capture's name looks up, in the
/// bindings, exactly the path component standing at that capture's own
/// position.
pub proof fn lemma_capture_lookup(pat: Seq<PatternSeg>, segs: Seq<Seq<char>>, i: int, j: int)
    requires
        0 <= i <= j < pat.len(),
        segs_match_from(pat, segs, i),
        pat[j] is Capture,
        forall|k: int| i <= k < j ==> !(#[trigger] pat[k] is Rest),
        forall|k: int|
            i <= k < j ==> !(#[trigger] pat[k] is Capture && seg_name(pat[k]) == seg_name(pat[j])),
    ensures
        j < segs.len(),
        crate::strutil::assoc(captures_from(pat, segs, i), seg_name(pat[j])) == Some(segs[j]),
    decreases j - i,
{
    if i == j {
        assert(i < segs.len());
        let caps = captures_from(pat, segs, i);
        assert(caps[0] == (seg_name(pat[j]), segs[j]));
    } else {
        lemma_capture_lookup(pat, segs, i + 1, j);
        match pat[i] {
            PatternSeg::Rest => {
                assert(false);
            },
            PatternSeg::Literal(_) => {},
            PatternSeg::Capture(n) => {
                let tail = captures_from(pat, segs, i + 1);
                let caps = captures_from(pat, segs, i);
                assert(caps =~= seq![(n@, segs[i])] + tail);
                assert(caps.drop_first() =~= tail);
                assert(caps[0].0 == n@ && n@ != seg_name(pat[j]));
                crate::strutil::lemma_assoc_drop_first(caps, seg_name(pat[j]), 0);
            },
        }
    }
}

/// The wildcard segment, written `<**>`.
pub open spec fn is_wild(raw: Seq<char>) -> bool {
    raw.len() == 4 && raw[0] == '<' && raw[1] == '*' && raw[2] == '*' && raw[3] == '>'
}

/// A capture segment: angle brackets around a name.
pub open spec fn is_capture(raw: Seq<char>) -> bool {
    raw.len() >= 2 && raw[0] == '<' && raw[raw.len() - 1] == '>'
}

/// How one raw pattern segment compiles: `<**>` to the wildcard, `<name>` to
/// a capture of that name, anything else to a literal.
pub open spec fn seg_parsed(raw: Seq<char>, seg: PatternSeg) -> bool {
    match seg {
        PatternSeg::Rest => is_wild(raw),
        PatternSeg::Capture(n) => !is_wild(raw) && is_capture(raw) && n@ == raw.subrange(
            1,
            raw.len() - 1,
        ),
        PatternSeg::Literal(l) => !is_capture(raw) && l@ == raw,
    }
}

/// How a whole pattern string compiles: the empty string and `/` compile to
/// the match-anything pattern, every other string segment by segment.
pub open spec fn pattern_parsed(path: Seq<char>, p: PathPattern) -> bool {
    if path.len() == 0 || path == seq!['/'] {
        p is Any
    } else {
        match p {
            PathPattern::Any => false,
            PathPattern::Segments(v) => {
                let raws = path_segments(path);
                v@.len() == raws.len() && forall|k: int|
                    0 <= k < raws.len() ==> seg_parsed(raws[k], #[trigger] v@[k])
            },
        }
    }
}

/// Compiles one raw pattern segment.
fn parse_seg(raw: &String) -> (r: PatternSeg)
    ensures
        seg_parsed(raw@, r),
{
    let s = raw.as_str();
    let n = s.unicode_len();
    if n == 4 && s.get_char(0) == '<' && s.get_char(1) == '*' && s.get_char(2) == '*'
        && s.get_char(3) == '>' {
        PatternSeg::Rest
    } else if n >= 2 && s.get_char(0) == '<' && s.get_char(n - 1) == '>' {
        let name = s.substring_char(1, n - 1);
        PatternSeg::Capture(name.to_owned())
    } else {
        let lit = raw.clone();
        assert(lit@ == raw@);
        PatternSeg::Literal(lit)
    }
}

/// Compiles a pattern string into a path pattern.
pub fn parse_pattern(path: &str) -> (r: PathPattern)
    ensures
        pattern_parsed(path@, r),
{
    let n = path.unicode_len();
    if n == 0 {
        return PathPattern::Any;
    }
    if n == 1 && path.get_char(0) == '/' {
        assert(path@ =~= seq!['/']);
        return PathPattern::Any;
    }
    assert(path@ != seq!['/']) by {
        if path@ =~= seq!['/'] {
            assert(path@.len() == 1 && path@[0] == '/');
        }
    }
    let raws = split_path(path);
    let ghost rv = strs_view(raws@);
    let mut segs: Vec<PatternSeg> = Vec::new();
    let mut i: usize = 0;
    while i < raws.len()
        invariant
            i <= raws@.len(),
            segs@.len() == i,
            rv == strs_view(raws@),
            rv.len() == raws@.len(),
            forall|k: int| 0 <= k < i ==> seg_parsed(rv[k], #[trigger] segs@[k]),
        decreases raws@.len() - i,
    {
        assert(rv[i as int] == raws@[i as int]@);
        let seg = parse_seg(&raws[i]);
        segs.push(seg);
        i += 1;
    }
    PathPattern::Segments(segs)
}

} // verus!
