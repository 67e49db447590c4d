use vstd::prelude::*;

use crate::text::contains_seq;
use crate::text::matches_at;

verus! {

/// The position of the first occurrence of `sep` in `s` at or after `from`,
/// or `-1` when there is none.
pub open spec fn first_match_from(s: Seq<char>, sep: Seq<char>, from: int) -> int
    decreases s.len() - from,
{
    if sep.len() == 0 || from + sep.len() > s.len() {
        -1
    } else if matches_at(s, sep, from) {
        from
    } else {
        first_match_from(s, sep, from + 1)
    }
}

/// What `first_match_from` finds: an occurrence with none before it, or
/// `-1` exactly when there is no occurrence at or after `from`.
pub proof fn lemma_first_match_from(s: Seq<char>, sep: Seq<char>, from: int)
    requires
        sep.len() >= 1,
    ensures
        first_match_from(s, sep, from) >= 0 ==> from <= first_match_from(s, sep, from)
            && first_match_from(s, sep, from) + sep.len() <= s.len()
            && matches_at(s, sep, first_match_from(s, sep, from))
            && (forall|k: int|
            from <= k < first_match_from(s, sep, from) ==> !matches_at(s, sep, k)),
        first_match_from(s, sep, from) < 0 ==> forall|k: int|
            from <= k ==> !matches_at(s, sep, k),
    decreases s.len() - from,
{
    if sep.len() == 0 || from + sep.len() > s.len() {
        assert forall|k: int| from <= k implies !matches_at(s, sep, k) by {
            assert(k + sep.len() > s.len());
        }
    } else if matches_at(s, sep, from) {
    } else {
        lemma_first_match_from(s, sep, from + 1);
    }
}

/// `first_match_from` at the start, pinned by an occurrence at `f` with
/// none before it.
pub proof fn lemma_first_match_exact(s: Seq<char>, sep: Seq<char>, f: int)
    requires
        sep.len() >= 1,
        0 <= f,
        matches_at(s, sep, f),
        forall|k: int| 0 <= k < f ==> !matches_at(s, sep, k),
    ensures
        first_match_from(s, sep, 0) == f,
{
    lemma_first_match_from(s, sep, 0);
    let g = first_match_from(s, sep, 0);
    if g < 0 {
        assert(!matches_at(s, sep, f));
    } else if g < f {
        assert(!matches_at(s, sep, g));
    } else if g > f {
        assert(!matches_at(s, sep, f));
    }
}

/// `first_match_from` at the start is `-1` when nothing matches anywhere.
pub proof fn lemma_first_match_none(s: Seq<char>, sep: Seq<char>)
    requires
        sep.len() >= 1,
        forall|k: int| 0 <= k ==> !matches_at(s, sep, k),
    ensures
        first_match_from(s, sep, 0) < 0,
{
    lemma_first_match_from(s, sep, 0);
    let g = first_match_from(s, sep, 0);
    if g >= 0 {
        assert(!matches_at(s, sep, g));
    }
}

/// An occurrence in the suffix of `s` that starts at `start` is an
/// occurrence in `s`, shifted.
pub proof fn lemma_match_shift(s: Seq<char>, sep: Seq<char>, start: int, k: int)
    requires
        0 <= start <= s.len(),
        0 <= k,
    ensures
        matches_at(s.subrange(start, s.len() as int), sep, k) == matches_at(
            s,
            sep,
            start + k,
        ),
{
    let suf = s.subrange(start, s.len() as int);
    if k + sep.len() <= suf.len() {
        assert(suf.subrange(k, k + sep.len() as int) =~= s.subrange(
            start + k,
            start + k + sep.len() as int,
        ));
    }
}

/// `s` split on `sep`: the parts between the non-overlapping occurrences of
/// `sep`, found left to right. There is always at least one part, and a
/// text without the separator is its own single part.
pub open spec fn split_spec(s: Seq<char>, sep: Seq<char>) -> Seq<Seq<char>>
    decreases s.len(),
{
    let f = first_match_from(s, sep, 0);
    if sep.len() == 0 || f < 0 || f + sep.len() > s.len() {
        seq![s]
    } else {
        seq![s.subrange(0, f)] + split_spec(s.subrange(f + sep.len() as int, s.len() as int), sep)
    }
}

/// The parts joined back together, with `sep` between consecutive parts.
pub open spec fn join_spec(parts: Seq<Seq<char>>, sep: Seq<char>) -> Seq<char>
    decreases parts.len(),
{
    if parts.len() == 0 {
        Seq::empty()
    } else if parts.len() == 1 {
        parts[0]
    } else {
        parts[0] + sep + join_spec(parts.drop_first(), sep)
    }
}

/// A split has at least one part.
pub proof fn lemma_split_nonempty(s: Seq<char>, sep: Seq<char>)
    ensures
        split_spec(s, sep).len() >= 1,
    decreases s.len(),
{
}

/// Joining the parts of a split restores the original text.
pub proof fn lemma_join_split(s: Seq<char>, sep: Seq<char>)
    requires
        sep.len() >= 1,
    ensures
        join_spec(split_spec(s, sep), sep) == s,
    decreases s.len(),
{
    lemma_first_match_from(s, sep, 0);
    let f = first_match_from(s, sep, 0);
    if f < 0 {
        assert(join_spec(seq![s], sep) == s);
    } else {
        let m = sep.len() as int;
        let pre = s.subrange(0, f);
        let rest = s.subrange(f + m, s.len() as int);
        lemma_join_split(rest, sep);
        lemma_split_nonempty(rest, sep);
        let parts = split_spec(s, sep);
        assert(parts == seq![pre] + split_spec(rest, sep));
        assert(parts.len() >= 2);
        assert(parts[0] == pre);
        assert(parts.drop_first() =~= split_spec(rest, sep));
        assert(join_spec(parts, sep) == pre + sep + join_spec(split_spec(rest, sep), sep));
        assert(s.subrange(f, f + m) == sep);
        assert forall|t: int| 0 <= t < s.len() implies (pre + sep + rest)[t] == s[t] by {
            if f <= t < f + m {
                assert(sep[t - f] == s.subrange(f, f + m)[t - f]);
            }
        }
        assert(pre + sep + rest =~= s);
    }
}

/// No part of a split contains the separator.
pub proof fn lemma_split_parts_free(s: Seq<char>, sep: Seq<char>)
    requires
        sep.len() >= 1,
    ensures
        forall|i: int|
            0 <= i < split_spec(s, sep).len() ==> !contains_seq(
                #[trigger] split_spec(s, sep)[i],
                sep,
            ),
    decreases s.len(),
{
    lemma_first_match_from(s, sep, 0);
    let f = first_match_from(s, sep, 0);
    let m = sep.len() as int;
    if f < 0 {
        assert forall|i: int|
            0 <= i < split_spec(s, sep).len() implies !contains_seq(
            split_spec(s, sep)[i],
            sep,
        ) by {
            assert(split_spec(s, sep)[i] == s);
            if contains_seq(s, sep) {
                let k = choose|k: int| matches_at(s, sep, k);
                assert(!matches_at(s, sep, k));
            }
        }
    } else {
        let pre = s.subrange(0, f);
        let rest = s.subrange(f + m, s.len() as int);
        lemma_split_parts_free(rest, sep);
        if contains_seq(pre, sep) {
            let k = choose|k: int| matches_at(pre, sep, k);
            assert(pre.subrange(k, k + m) =~= s.subrange(k, k + m));
            assert(matches_at(s, sep, k));
        }
        assert forall|i: int|
            0 <= i < split_spec(s, sep).len() implies !contains_seq(
            split_spec(s, sep)[i],
            sep,
        ) by {
            if i == 0 {
                assert(split_spec(s, sep)[0] == pre);
            } else {
                assert(split_spec(s, sep)[i] == split_spec(rest, sep)[i - 1]);
            }
        }
    }
}

/// Splitting a join on a one-character separator recovers the parts, when
/// no part contains the separator.
pub proof fn lemma_split_join(parts: Seq<Seq<char>>, sep: Seq<char>)
    requires
        sep.len() == 1,
        parts.len() >= 1,
        forall|i: int| 0 <= i < parts.len() ==> !contains_seq(#[trigger] parts[i], sep),
    ensures
        split_spec(join_spec(parts, sep), sep) == parts,
    decreases parts.len(),
{
    let j = join_spec(parts, sep);
    if parts.len() == 1 {
        assert(j == parts[0]);
        assert forall|k: int| 0 <= k implies !matches_at(j, sep, k) by {
            if matches_at(j, sep, k) {
                assert(contains_seq(parts[0], sep));
            }
        }
        lemma_first_match_none(j, sep);
        assert(split_spec(j, sep) == seq![j]);
        assert(seq![j] =~= parts);
    } else {
        let a = parts[0];
        let tail = parts.drop_first();
        let rest = join_spec(tail, sep);
        assert(j == a + sep + rest);
        let al = a.len() as int;
        assert(j.len() == al + 1 + rest.len());
        // The separator stands exactly at the end of the first part.
        assert(j[al] == sep[0]);
        assert(j.subrange(al, al + 1) =~= sep);
        assert(matches_at(j, sep, al));
        assert forall|k: int| 0 <= k < al implies !matches_at(j, sep, k) by {
            if matches_at(j, sep, k) {
                assert(j.subrange(k, k + 1)[0] == j[k]);
                assert(j[k] == sep[0]);
                assert(j[k] == a[k]);
                assert(a.subrange(k, k + 1) =~= sep);
                assert(matches_at(a, sep, k));
                assert(contains_seq(parts[0], sep));
            }
        }
        lemma_first_match_exact(j, sep, al);
        assert(j.subrange(0, al) =~= a);
        assert(j.subrange(al + 1, j.len() as int) =~= rest);
        assert(split_spec(j, sep) == seq![a] + split_spec(rest, sep));
        assert forall|i: int| 0 <= i < tail.len() implies !contains_seq(#[trigger] tail[i], sep) by {
            assert(tail[i] == parts[i + 1]);
        }
        lemma_split_join(tail, sep);
        assert(seq![a] + tail =~= parts);
    }
}

/// Appending one more part to a join appends one more separator, then the
/// part.
pub proof fn lemma_join_push(parts: Seq<Seq<char>>, sep: Seq<char>, x: Seq<char>)
    requires
        parts.len() >= 1,
    ensures
        join_spec(parts.push(x), sep) == join_spec(parts, sep) + sep + x,
    decreases parts.len(),
{
    if parts.len() == 1 {
        let p = parts.push(x);
        assert(p[0] == parts[0]);
        assert(p.drop_first() =~= seq![x]);
        assert(join_spec(seq![x], sep) == x);
    } else {
        assert(parts.push(x).drop_first() =~= parts.drop_first().push(x));
        assert(parts.push(x)[0] == parts[0]);
        lemma_join_push(parts.drop_first(), sep, x);
        assert(parts[0] + sep + (join_spec(parts.drop_first(), sep) + sep + x) =~= (parts[0] + sep
            + join_spec(parts.drop_first(), sep)) + sep + x);
    }
}

/// Joins the parts with `sep` between consecutive parts.
pub fn join_str(parts: &Vec<String>, sep: &str) -> (r: String)
    ensures
        r@ == join_spec(parts.deep_view(), sep@),
{
    let mut r = String::new();
    if parts.len() == 0 {
        return r;
    }
    r.append(parts[0].as_str());
    proof {
        assert(parts.deep_view().subrange(0, 1) =~= seq![parts.deep_view()[0]]);
    }
    let mut i: usize = 1;
    while i < parts.len()
        invariant
            1 <= i <= parts.len(),
            r@ == join_spec(parts.deep_view().subrange(0, i as int), sep@),
        decreases parts.len() - i,
    {
        r.append(sep);
        r.append(parts[i].as_str());
        proof {
            let dv = parts.deep_view();
            assert(dv.subrange(0, i + 1) =~= dv.subrange(0, i as int).push(dv[i as int]));
            lemma_join_push(dv.subrange(0, i as int), sep@, dv[i as int]);
        }
        i += 1;
    }
    proof {
        assert(parts.deep_view().subrange(0, parts.len() as int) =~= parts.deep_view());
    }
    r
}

/// Splits `s` on `sep`, scanning left to right for non-overlapping
/// occurrences.
pub fn split_str(s: &str, sep: &str) -> (parts: Vec<String>)
    requires
        sep@.len() >= 1,
    ensures
        parts.deep_view() == split_spec(s@, sep@),
{
    let n = s.unicode_len();
    let m = sep.unicode_len();
    let mut parts: Vec<String> = Vec::new();
    if m > n {
        parts.push(String::from_str(s));
        proof {
            assert forall|k: int| 0 <= k implies !matches_at(s@, sep@, k) by {
                assert(k + sep@.len() > s@.len());
            }
            lemma_first_match_none(s@, sep@);
            assert(parts.deep_view() =~= split_spec(s@, sep@));
        }
        return parts;
    }
    let mut start: usize = 0;
    let mut i: usize = 0;
    proof {
        assert(s@.subrange(0, n as int) =~= s@);
        assert(parts.deep_view() =~= Seq::<Seq<char>>::empty());
        assert(parts.deep_view() + split_spec(s@, sep@) =~= split_spec(s@, sep@));
    }
    while i <= n - m
        invariant
            1 <= m <= n,
            n == s@.len(),
            m == sep@.len(),
            start <= i <= n,
            split_spec(s@, sep@) =~= parts.deep_view() + split_spec(
                s@.subrange(start as int, n as int),
                sep@,
            ),
            forall|k: int| start <= k < i ==> !matches_at(s@, sep@, k),
        decreases n - i,
    {
        if crate::text::matches_here(s, sep, i) {
            let part = String::from_str(s.substring_char(start, i));
            let ghost dv0 = parts.deep_view();
            proof {
                let suf = s@.subrange(start as int, n as int);
                let rel = i - start;
                assert forall|k: int| 0 <= k < rel implies !matches_at(suf, sep@, k) by {
                    lemma_match_shift(s@, sep@, start as int, k);
                }
                lemma_match_shift(s@, sep@, start as int, rel);
                assert(matches_at(suf, sep@, rel));
                lemma_first_match_exact(suf, sep@, rel);
                assert(suf.subrange(0, rel) =~= s@.subrange(start as int, i as int));
                assert(suf.subrange(rel + m, suf.len() as int) =~= s@.subrange(
                    (i + m) as int,
                    n as int,
                ));
                assert(split_spec(suf, sep@) == seq![s@.subrange(start as int, i as int)]
                    + split_spec(s@.subrange((i + m) as int, n as int), sep@));
                assert(dv0.push(part@) + split_spec(s@.subrange((i + m) as int, n as int), sep@)
                    =~= dv0 + split_spec(suf, sep@));
            }
            parts.push(part);
            proof {
                assert(parts.deep_view() =~= dv0.push(part@));
            }
            i = i + m;
            start = i;
        } else {
            i = i + 1;
        }
    }
    let last = String::from_str(s.substring_char(start, n));
    proof {
        let suf = s@.subrange(start as int, n as int);
        assert forall|k: int| 0 <= k implies !matches_at(suf, sep@, k) by {
            lemma_match_shift(s@, sep@, start as int, k);
            if matches_at(s@, sep@, start + k) {
                assert(start + k + m <= n);
                assert(start + k < i || start + k >= i);
                assert(!(start + k >= i) || start + k > n - m);
            }
        }
        lemma_first_match_none(suf, sep@);
        assert(split_spec(suf, sep@) == seq![suf]);
        assert(last@ == suf);
    }
    parts.push(last);
    proof {
        assert(parts.deep_view() =~= split_spec(s@, sep@));
    }
    parts
}

} // verus!
