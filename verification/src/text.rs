//! ASCII case folding and path-segment decomposition: the string groundwork
//! for pattern matching and for case-insensitive header names.

use vstd::prelude::*;

verus! {

/// ASCII lower-casing of a single character; everything outside `A`..`Z`
/// is left alone, as HTTP header-name comparison demands.
pub open spec fn lower_char(c: char) -> char {
    if 'A' <= c && c <= 'Z' {
        (c as u32 + 32) as char
    } else {
        c
    }
}

/// A string lower-cased character by character.
pub open spec fn lower(s: Seq<char>) -> Seq<char> {
    s.map_values(|c: char| lower_char(c))
}

/// Case-insensitive string equality, the equivalence HTTP uses for header
/// names: equal after ASCII lower-casing.
pub open spec fn ci_eq(a: Seq<char>, b: Seq<char>) -> bool {
    lower(a) == lower(b)
}

fn lower_char_exec(c: char) -> (r: char)
    ensures
        r == lower_char(c),
{
    let u = c as u32;
    if 65 <= u && u <= 90 {
        ((u + 32) as u8) as char
    } else {
        c
    }
}

/// Case-insensitive comparison of two strings.
pub fn eq_ignore_case(a: &str, b: &str) -> (r: bool)
    ensures
        r == ci_eq(a@, b@),
{
    let a_len = a.unicode_len();
    let b_len = b.unicode_len();
    if a_len != b_len {
        assert(lower(a@).len() != lower(b@).len());
        return false;
    }
    let mut i: usize = 0;
    while i < a_len
        invariant
            a_len == a@.len(),
            b_len == b@.len(),
            a@.len() == b@.len(),
            i <= a_len,
            forall|j: int| 0 <= j < i ==> lower(a@)[j] == lower(b@)[j],
        decreases a_len - i,
    {
        if lower_char_exec(a.get_char(i)) != lower_char_exec(b.get_char(i)) {
            assert(lower(a@)[i as int] != lower(b@)[i as int]);
            return false;
        }
        i = i + 1;
    }
    assert(lower(a@) =~= lower(b@));
    true
}

/// Splitting a string on `/`, the way a path is decomposed into segments.
/// Splitting never yields an empty list: the empty string has the single
/// segment `""`, and every separator contributes a boundary, so a path
/// ending in `/` ends in an empty segment.
pub open spec fn split_slash(s: Seq<char>) -> Seq<Seq<char>>
    decreases s.len(),
{
    if s.len() == 0 {
        seq![Seq::<char>::empty()]
    } else if s[0] == '/' {
        seq![Seq::<char>::empty()] + split_slash(s.skip(1))
    } else {
        let r = split_slash(s.skip(1));
        seq![seq![s[0]] + r[0]] + r.skip(1)
    }
}

pub proof fn lemma_split_slash_nonempty(s: Seq<char>)
    ensures
        split_slash(s).len() >= 1,
    decreases s.len(),
{
    if s.len() != 0 {
        lemma_split_slash_nonempty(s.skip(1));
    }
}

/// The list `r` with `p` prefixed onto its first element: the shape of a
/// partially consumed split, where `p` is the piece of the current segment
/// read so far.
spec fn prepend_first(p: Seq<char>, r: Seq<Seq<char>>) -> Seq<Seq<char>>
    recommends
        r.len() >= 1,
{
    seq![p + r[0]] + r.skip(1)
}

/// The view of a segment list: each `String` replaced by its character
/// sequence.
pub open spec fn texts_view(v: Seq<String>) -> Seq<Seq<char>> {
    v.map_values(|t: String| t@)
}

/// Decomposes a string into its `/`-separated segments.
pub fn split_path(s: &str) -> (segs: Vec<String>)
    ensures
        texts_view(segs@) == split_slash(s@),
{
    let len = s.unicode_len();
    let mut segs: Vec<String> = Vec::new();
    let mut start: usize = 0;
    let mut i: usize = 0;
    proof {
        lemma_split_slash_nonempty(s@);
        assert(s@.skip(0) =~= s@);
        let r = split_slash(s@);
        assert(s@.subrange(0, 0) =~= Seq::<char>::empty());
        assert(Seq::<char>::empty() + r[0] =~= r[0]);
        assert(seq![r[0]] + r.skip(1) =~= r);
    }
    while i < len
        invariant
            len == s@.len(),
            start <= i <= len,
            split_slash(s@) =~= texts_view(segs@) + prepend_first(
                s@.subrange(start as int, i as int),
                split_slash(s@.skip(i as int)),
            ),
        decreases len - i,
    {
        proof {
            lemma_split_slash_nonempty(s@.skip(i as int));
            lemma_split_slash_nonempty(s@.skip(i + 1));
            assert(s@.skip(i as int).skip(1) =~= s@.skip(i + 1));
            assert(s@.skip(i as int)[0] == s@[i as int]);
        }
        if s.get_char(i) == '/' {
            let seg = String::from_str(s.substring_char(start, i));
            proof {
                let cur = s@.subrange(start as int, i as int);
                let rest = split_slash(s@.skip(i + 1));
                assert(split_slash(s@.skip(i as int)) =~= seq![Seq::<char>::empty()] + rest);
                assert(cur + (seq![Seq::<char>::empty()] + rest)[0] =~= cur);
                assert((seq![Seq::<char>::empty()] + rest).skip(1) =~= rest);
                assert(texts_view(segs@.push(seg)) =~= texts_view(segs@).push(cur));
                assert(s@.subrange(i + 1, i + 1) =~= Seq::<char>::empty());
                assert(texts_view(segs@).push(cur) + prepend_first(Seq::<char>::empty(), rest)
                    =~= texts_view(segs@) + prepend_first(cur, split_slash(s@.skip(i as int))));
            }
            segs.push(seg);
            start = i + 1;
        } else {
            proof {
                let cur = s@.subrange(start as int, i as int);
                let r = split_slash(s@.skip(i + 1));
                let c = s@[i as int];
                assert(split_slash(s@.skip(i as int)) =~= seq![seq![c] + r[0]] + r.skip(1));
                assert(cur + (seq![c] + r[0]) =~= (cur.push(c)) + r[0]);
                assert((seq![seq![c] + r[0]] + r.skip(1)).skip(1) =~= r.skip(1));
                assert(s@.subrange(start as int, i + 1) =~= cur.push(c));
                assert(prepend_first(cur, split_slash(s@.skip(i as int)))
                    =~= prepend_first(s@.subrange(start as int, i + 1), r));
            }
        }
        i = i + 1;
    }
    let seg = String::from_str(s.substring_char(start, len));
    proof {
        let cur = s@.subrange(start as int, len as int);
        assert(s@.skip(len as int) =~= Seq::<char>::empty());
        assert(split_slash(s@.skip(len as int)) =~= seq![Seq::<char>::empty()]);
        assert(prepend_first(cur, seq![Seq::<char>::empty()]) =~= seq![cur]);
        assert(texts_view(segs@.push(seg)) =~= texts_view(segs@) + seq![cur]);
    }
    segs.push(seg);
    segs
}

/// A path pattern decomposed into segments: a single leading `/` is
/// stripped (never a trailing one) and the remainder is split on `/`.
pub open spec fn pattern_segments(p: Seq<char>) -> Seq<Seq<char>> {
    if p.len() > 0 && p[0] == '/' {
        split_slash(p.skip(1))
    } else {
        split_slash(p)
    }
}

/// Decomposes a path pattern into its segments.
pub fn decompose_pattern(p: &str) -> (segs: Vec<String>)
    ensures
        texts_view(segs@) == pattern_segments(p@),
{
    let len = p.unicode_len();
    if len > 0 && p.get_char(0) == '/' {
        let tail = p.substring_char(1, len);
        proof {
            assert(tail@ =~= p@.skip(1));
        }
        split_path(tail)
    } else {
        split_path(p)
    }
}

} // verus!
