use vstd::prelude::*;

use crate::split::join_spec;
use crate::split::lemma_split_join;
use crate::split::lemma_split_nonempty;
use crate::split::lemma_split_parts_free;
use crate::split::split_spec;
use crate::text::contains_seq;

verus! {

/// True when `v` is one of the parts.
pub open spec fn has_segment(parts: Seq<Seq<char>>, v: Seq<char>) -> bool {
    exists|i: int| 0 <= i < parts.len() && parts[i] == v
}

/// The list-append merge: `v` goes to the end of the list unless it is
/// already a segment, in which case the list stays as it is.
pub open spec fn merge_append_spec(parts: Seq<Seq<char>>, v: Seq<char>) -> Seq<Seq<char>> {
    if has_segment(parts, v) {
        parts
    } else {
        parts.push(v)
    }
}

/// The list-prepend merge: `v` goes to the front of the list unless it is
/// already a segment, in which case the list stays as it is.
pub open spec fn merge_prepend_spec(parts: Seq<Seq<char>>, v: Seq<char>) -> Seq<Seq<char>> {
    if has_segment(parts, v) {
        parts
    } else {
        seq![v] + parts
    }
}

/// How often `v` occurs among the parts.
pub open spec fn segment_count(parts: Seq<Seq<char>>, v: Seq<char>) -> nat
    decreases parts.len(),
{
    if parts.len() == 0 {
        0
    } else {
        segment_count(parts.drop_last(), v) + if parts.last() == v {
            1nat
        } else {
            0nat
        }
    }
}

/// A segment that is not in the list occurs zero times.
pub proof fn lemma_segment_count_zero(parts: Seq<Seq<char>>, v: Seq<char>)
    requires
        !has_segment(parts, v),
    ensures
        segment_count(parts, v) == 0,
    decreases parts.len(),
{
    if parts.len() > 0 {
        if has_segment(parts.drop_last(), v) {
            let j = choose|j: int| 0 <= j < parts.drop_last().len() && parts.drop_last()[j] == v;
            assert(parts[j] == v);
        }
        lemma_segment_count_zero(parts.drop_last(), v);
        assert(parts[parts.len() - 1] != v);
    }
}

/// Putting one element in front shifts the count by whether it is `v`.
pub proof fn lemma_segment_count_cons(parts: Seq<Seq<char>>, v: Seq<char>, x: Seq<char>)
    ensures
        segment_count(seq![x] + parts, v) == segment_count(parts, v) + if x == v {
            1nat
        } else {
            0nat
        },
    decreases parts.len(),
{
    let whole = seq![x] + parts;
    if parts.len() == 0 {
        assert(whole =~= seq![x]);
        assert(whole.drop_last() =~= Seq::<Seq<char>>::empty());
        assert(whole.last() == x);
        assert(segment_count(whole, v) == segment_count(Seq::<Seq<char>>::empty(), v) + if x == v {
            1nat
        } else {
            0nat
        });
        assert(segment_count(parts, v) == 0);
    } else {
        assert(whole.drop_last() =~= seq![x] + parts.drop_last());
        assert(whole.last() == parts.last());
        lemma_segment_count_cons(parts.drop_last(), v, x);
        assert(segment_count(whole, v) == segment_count(seq![x] + parts.drop_last(), v) + if parts.last() == v {
            1nat
        } else {
            0nat
        });
        assert(segment_count(parts, v) == segment_count(parts.drop_last(), v) + if parts.last() == v {
            1nat
        } else {
            0nat
        });
    }
}

/// Law: merging the same segment twice is the same as merging it once —
/// the list-append merge is idempotent.
pub proof fn lemma_merge_append_idempotent(parts: Seq<Seq<char>>, v: Seq<char>)
    ensures
        merge_append_spec(merge_append_spec(parts, v), v) == merge_append_spec(parts, v),
{
    let once = merge_append_spec(parts, v);
    if !has_segment(parts, v) {
        assert(once[once.len() - 1] == v);
        assert(has_segment(once, v));
    }
}

/// Law: merging the same segment twice is the same as merging it once —
/// the list-prepend merge is idempotent.
pub proof fn lemma_merge_prepend_idempotent(parts: Seq<Seq<char>>, v: Seq<char>)
    ensures
        merge_prepend_spec(merge_prepend_spec(parts, v), v) == merge_prepend_spec(parts, v),
{
    let once = merge_prepend_spec(parts, v);
    if !has_segment(parts, v) {
        assert(once[0] == v);
        assert(has_segment(once, v));
    }
}

/// Law: a segment that was absent occurs exactly once after the
/// list-append merge, and it lands at the end.
pub proof fn lemma_merge_append_once(parts: Seq<Seq<char>>, v: Seq<char>)
    requires
        !has_segment(parts, v),
    ensures
        segment_count(merge_append_spec(parts, v), v) == 1,
        merge_append_spec(parts, v).last() == v,
{
    let merged = merge_append_spec(parts, v);
    assert(merged.drop_last() =~= parts);
    lemma_segment_count_zero(parts, v);
}

/// Law: a segment that was absent occurs exactly once after the
/// list-prepend merge, and it lands at position zero.
pub proof fn lemma_merge_prepend_once(parts: Seq<Seq<char>>, v: Seq<char>)
    requires
        !has_segment(parts, v),
    ensures
        segment_count(merge_prepend_spec(parts, v), v) == 1,
        merge_prepend_spec(parts, v)[0] == v,
{
    lemma_segment_count_cons(parts, v, v);
    lemma_segment_count_zero(parts, v);
}

/// Tests whether `v` is one of the parts.
pub fn contains_segment(parts: &Vec<String>, v: &str) -> (r: bool)
    ensures
        r == has_segment(parts.deep_view(), v@),
{
    let vs = String::from_str(v);
    let mut i: usize = 0;
    while i < parts.len()
        invariant
            i <= parts.len(),
            vs@ == v@,
            forall|j: int| 0 <= j < i ==> parts.deep_view()[j] != v@,
        decreases parts.len() - i,
    {
        if parts[i] == vs {
            assert(parts.deep_view()[i as int] == v@);
            return true;
        }
        i += 1;
    }
    false
}

/// The list-append merge on a segment list.
pub fn merge_append(parts: Vec<String>, v: &str) -> (r: Vec<String>)
    ensures
        r.deep_view() == merge_append_spec(parts.deep_view(), v@),
{
    let ghost dv0 = parts.deep_view();
    let mut r = parts;
    if !contains_segment(&r, v) {
        r.push(String::from_str(v));
        proof {
            assert(r.deep_view() =~= dv0.push(v@));
        }
    }
    r
}

/// The list-prepend merge on a segment list.
pub fn merge_prepend(parts: Vec<String>, v: &str) -> (r: Vec<String>)
    ensures
        r.deep_view() == merge_prepend_spec(parts.deep_view(), v@),
{
    let ghost dv0 = parts.deep_view();
    let mut r = parts;
    if !contains_segment(&r, v) {
        r.insert(0, String::from_str(v));
        proof {
            assert(r.deep_view() =~= seq![v@] + dv0);
        }
    }
    r
}

/// The stored text after a list-append of `v` into the `;`-joined `cur`.
pub open spec fn appended_value_spec(cur: Seq<char>, v: Seq<char>) -> Seq<char> {
    join_spec(merge_append_spec(split_spec(cur, ";"@), v), ";"@)
}

/// The stored text after a list-prepend of `v` into the `;`-joined `cur`.
pub open spec fn prepended_value_spec(cur: Seq<char>, v: Seq<char>) -> Seq<char> {
    join_spec(merge_prepend_spec(split_spec(cur, ";"@), v), ";"@)
}

/// The merged parts of a stored text are still free of the separator, and
/// splitting the re-joined text recovers them exactly.
proof fn lemma_value_round_trip(merged: Seq<Seq<char>>, sep: Seq<char>)
    requires
        sep.len() == 1,
        merged.len() >= 1,
        forall|i: int| 0 <= i < merged.len() ==> !contains_seq(#[trigger] merged[i], sep),
    ensures
        split_spec(join_spec(merged, sep), sep) == merged,
{
    lemma_split_join(merged, sep);
}

/// Law: the list-append on the stored `;`-joined text is idempotent, for a
/// new segment that holds no `;` itself.
pub proof fn lemma_appended_value_idempotent(cur: Seq<char>, v: Seq<char>)
    requires
        !contains_seq(v, ";"@),
    ensures
        appended_value_spec(appended_value_spec(cur, v), v) == appended_value_spec(cur, v),
{
    reveal_strlit(";");
    let sep = ";"@;
    let parts = split_spec(cur, sep);
    lemma_split_parts_free(cur, sep);
    lemma_split_nonempty(cur, sep);
    let merged = merge_append_spec(parts, v);
    if !has_segment(parts, v) {
        assert(merged[merged.len() - 1] == v);
    }
    assert(forall|i: int| 0 <= i < merged.len() ==> !contains_seq(#[trigger] merged[i], sep));
    lemma_value_round_trip(merged, sep);
    assert(has_segment(merged, v)) by {
        if !has_segment(parts, v) {
            assert(merged[merged.len() - 1] == v);
        }
    }
}

/// Merging a `;`-free segment into a stored text that is exactly that
/// segment changes nothing, at either end.
pub proof fn lemma_merged_value_self(v: Seq<char>)
    requires
        !contains_seq(v, ";"@),
    ensures
        appended_value_spec(v, v) == v,
        prepended_value_spec(v, v) == v,
{
    reveal_strlit(";");
    let sep = ";"@;
    assert forall|k: int| 0 <= k implies !crate::text::matches_at(v, sep, k) by {
        if crate::text::matches_at(v, sep, k) {
            assert(contains_seq(v, sep));
        }
    }
    crate::split::lemma_first_match_none(v, sep);
    assert(split_spec(v, sep) == seq![v]);
    assert(seq![v][0] == v);
    assert(has_segment(seq![v], v));
    assert(join_spec(seq![v], sep) == v);
}

/// Law: the list-prepend on the stored `;`-joined text is idempotent, for a
/// new segment that holds no `;` itself.
pub proof fn lemma_prepended_value_idempotent(cur: Seq<char>, v: Seq<char>)
    requires
        !contains_seq(v, ";"@),
    ensures
        prepended_value_spec(prepended_value_spec(cur, v), v) == prepended_value_spec(cur, v),
{
    reveal_strlit(";");
    let sep = ";"@;
    let parts = split_spec(cur, sep);
    lemma_split_parts_free(cur, sep);
    lemma_split_nonempty(cur, sep);
    let merged = merge_prepend_spec(parts, v);
    if !has_segment(parts, v) {
        assert(merged[0] == v);
    }
    assert(forall|i: int| 0 <= i < merged.len() ==> !contains_seq(#[trigger] merged[i], sep));
    lemma_value_round_trip(merged, sep);
    assert(has_segment(merged, v)) by {
        if !has_segment(parts, v) {
            assert(merged[0] == v);
        }
    }
}

} // verus!
