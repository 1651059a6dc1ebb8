//! Merging results gathered from several pages, and finding the courses that
//! became graded since an earlier snapshot.
use vstd::prelude::*;
use crate::record::{results_view, CourseResult, ResultView};

verus! {

/// Some result in `s` has the code `id`.
pub open spec fn has_id(s: Seq<ResultView>, id: Seq<char>) -> bool {
    exists|k: int| 0 <= k < s.len() && #[trigger] s[k].id == id
}

/// `s` with every result dropped whose code came earlier, in order.
pub open spec fn unique_spec(s: Seq<ResultView>) -> Seq<ResultView>
    decreases s.len(),
{
    if s.len() == 0 {
        s
    } else if has_id(unique_spec(s.drop_last()), s.last().id) {
        unique_spec(s.drop_last())
    } else {
        unique_spec(s.drop_last()).push(s.last())
    }
}

/// Whether some result in `r` has the code `id`.
fn id_seen(r: &Vec<CourseResult>, id: &String) -> (b: bool)
    ensures
        b == has_id(results_view(r@), id@),
{
    let mut k: usize = 0;
    while k < r.len()
        invariant
            k <= r@.len(),
            forall|m: int| 0 <= m < k ==> results_view(r@)[m].id != id@,
        decreases r@.len() - k,
    {
        if r[k].course_id == *id {
            assert(results_view(r@)[k as int].id == id@);
            return true;
        }
        k = k + 1;
    }
    false
}

/// Keeps the first result of each course code, in the order given.
pub fn unique_by_id(results: &Vec<CourseResult>) -> (r: Vec<CourseResult>)
    ensures
        results_view(r@) == unique_spec(results_view(results@)),
{
    let mut r: Vec<CourseResult> = Vec::new();
    let mut i: usize = 0;
    while i < results.len()
        invariant
            i <= results@.len(),
            results_view(r@) == unique_spec(results_view(results@.subrange(0, i as int))),
        decreases results@.len() - i,
    {
        let item = &results[i];
        assert(results_view(results@.subrange(0, i + 1)).drop_last() =~= results_view(
            results@.subrange(0, i as int),
        ));
        assert(results_view(results@.subrange(0, i + 1)).last() == item@);
        let seen = id_seen(&r, &item.course_id);
        if !seen {
            let c = item.duplicate();
            r.push(c);
            assert(results_view(r@) =~= results_view(r@.drop_last()).push(c@));
        }
        i = i + 1;
    }
    assert(results@.subrange(0, results@.len() as int) =~= results@);
    r
}

/// The first result in `s` with the code `id`.
pub open spec fn find_by_id(s: Seq<ResultView>, id: Seq<char>) -> Option<ResultView>
    decreases s.len(),
{
    if s.len() == 0 {
        None
    } else if s[0].id == id {
        Some(s[0])
    } else {
        find_by_id(s.drop_first(), id)
    }
}

/// `r` is graded now, and the first earlier result with its code was not.
pub open spec fn newly_scored(old: Seq<ResultView>, r: ResultView) -> bool {
    r.scored && match find_by_id(old, r.id) {
        Some(o) => !o.scored,
        None => false,
    }
}

/// The results of `new` that became graded since `old`, in order.
pub open spec fn changes_spec(old: Seq<ResultView>, new: Seq<ResultView>) -> Seq<ResultView>
    decreases new.len(),
{
    if new.len() == 0 {
        new
    } else if newly_scored(old, new.last()) {
        changes_spec(old, new.drop_last()).push(new.last())
    } else {
        changes_spec(old, new.drop_last())
    }
}

pub open spec fn refs_view(v: Seq<&CourseResult>) -> Seq<ResultView> {
    v.map_values(|r: &CourseResult| r@)
}

/// The first result of `old` with the code of `id`.
fn find_in<'a>(old: &'a [CourseResult], id: &String) -> (r: Option<&'a CourseResult>)
    ensures
        match r {
            Some(o) => find_by_id(results_view(old@), id@) == Some(o@),
            None => find_by_id(results_view(old@), id@) is None,
        },
{
    let mut i: usize = 0;
    assert(results_view(old@).subrange(0, old@.len() as int) =~= results_view(old@));
    while i < old.len()
        invariant
            i <= old@.len(),
            find_by_id(results_view(old@), id@) == find_by_id(results_view(old@).subrange(i as int, old@.len() as int), id@),
        decreases old@.len() - i,
    {
        let ghost rest = results_view(old@).subrange(i as int, old@.len() as int);
        assert(rest.drop_first() =~= results_view(old@).subrange(i + 1, old@.len() as int));
        if old[i].course_id == *id {
            return Some(&old[i]);
        }
        i = i + 1;
    }
    None
}

/// The results of `new` that became graded since `old`: those graded now whose
/// code has a result in `old` (the first one with that code) that was not.
pub fn diff_results<'a>(old: &[CourseResult], new: &'a [CourseResult]) -> (r: Vec<&'a CourseResult>)
    ensures
        refs_view(r@) == changes_spec(results_view(old@), results_view(new@)),
{
    let mut changed: Vec<&'a CourseResult> = Vec::new();
    let mut i: usize = 0;
    while i < new.len()
        invariant
            i <= new@.len(),
            refs_view(changed@) == changes_spec(results_view(old@), results_view(new@.subrange(0, i as int))),
        decreases new@.len() - i,
    {
        let entry = &new[i];
        assert(results_view(new@.subrange(0, i + 1)).drop_last() =~= results_view(
            new@.subrange(0, i as int),
        ));
        assert(results_view(new@.subrange(0, i + 1)).last() == entry@);
        match find_in(old, &entry.course_id) {
            Some(o) => {
                if entry.scored && !o.scored {
                    changed.push(entry);
                    assert(refs_view(changed@) =~= refs_view(changed@.drop_last()).push(entry@));
                }
            },
            None => {},
        }
        i = i + 1;
    }
    assert(new@.subrange(0, new@.len() as int) =~= new@);
    changed
}

proof fn lemma_find_some(s: Seq<ResultView>, id: Seq<char>)
    ensures
        find_by_id(s, id) is Some <==> has_id(s, id),
        find_by_id(s, id) matches Some(x) ==> x.id == id,
    decreases s.len(),
{
    if s.len() > 0 {
        lemma_find_some(s.drop_first(), id);
        if has_id(s, id) && s[0].id != id {
            let k = choose|k: int| 0 <= k < s.len() && #[trigger] s[k].id == id;
            assert(s.drop_first()[k - 1].id == id);
        }
        if has_id(s.drop_first(), id) {
            let k = choose|k: int| 0 <= k < s.drop_first().len() && #[trigger] s.drop_first()[k].id == id;
            assert(s[k + 1].id == id);
        }
        if s[0].id == id {
            assert(s[0].id == id);
        }
    }
}

proof fn lemma_find_append(s: Seq<ResultView>, t: Seq<ResultView>, id: Seq<char>)
    ensures
        find_by_id(s + t, id) == match find_by_id(s, id) {
            Some(x) => Some(x),
            None => find_by_id(t, id),
        },
    decreases s.len(),
{
    if s.len() == 0 {
        assert(s + t =~= t);
    } else {
        assert((s + t)[0] == s[0]);
        assert((s + t).drop_first() =~= s.drop_first() + t);
        lemma_find_append(s.drop_first(), t, id);
    }
}

/// Deduplication keeps, for each course code, exactly the first result that
/// carries it: every kept result is the first in the input with its code, every
/// code of the input is kept, and no code is kept twice.
pub proof fn lemma_unique_keeps_first(s: Seq<ResultView>)
    ensures
        forall|k: int| 0 <= k < unique_spec(s).len() ==> find_by_id(s, #[trigger] unique_spec(s)[k].id) == Some(unique_spec(s)[k]),
        forall|i: int| 0 <= i < s.len() ==> has_id(unique_spec(s), #[trigger] s[i].id),
        forall|j: int, k: int| 0 <= j < k < unique_spec(s).len() ==> unique_spec(s)[j].id != unique_spec(s)[k].id,
    decreases s.len(),
{
    if s.len() > 0 {
        let p = s.drop_last();
        let x = s.last();
        let out_p = unique_spec(p);
        let out = unique_spec(s);
        lemma_unique_keeps_first(p);
        assert(s =~= p + seq![x]);
        assert forall|k: int| 0 <= k < out_p.len() implies find_by_id(s, #[trigger] out_p[k].id) == Some(out_p[k]) by {
            lemma_find_append(p, seq![x], out_p[k].id);
        }
        if has_id(out_p, x.id) {
            assert forall|i: int| 0 <= i < s.len() implies has_id(out, #[trigger] s[i].id) by {
                if i < p.len() {
                    assert(s[i] == p[i]);
                }
            }
        } else {
            assert(out == out_p.push(x));
            lemma_find_some(p, x.id);
            if has_id(p, x.id) {
                let i = choose|i: int| 0 <= i < p.len() && #[trigger] p[i].id == x.id;
                assert(has_id(out_p, p[i].id));
            }
            lemma_find_append(p, seq![x], x.id);
            assert(find_by_id(seq![x], x.id) == Some(x));
            assert forall|k: int| 0 <= k < out.len() implies find_by_id(s, #[trigger] out[k].id) == Some(out[k]) by {
                if k < out_p.len() {
                    assert(out[k] == out_p[k]);
                }
            }
            assert forall|i: int| 0 <= i < s.len() implies has_id(out, #[trigger] s[i].id) by {
                if i < p.len() {
                    assert(s[i] == p[i]);
                    assert(has_id(out_p, p[i].id));
                    let k = choose|k: int| 0 <= k < out_p.len() && #[trigger] out_p[k].id == p[i].id;
                    assert(out[k] == out_p[k]);
                } else {
                    assert(out[out.len() - 1] == x);
                }
            }
            assert forall|j: int, k: int| 0 <= j < k < out.len() implies out[j].id != out[k].id by {
                if k == out.len() - 1 {
                    assert(out[j] == out_p[j]);
                    if out_p[j].id == x.id {
                        assert(has_id(out_p, x.id));
                    }
                } else {
                    assert(out[j] == out_p[j]);
                    assert(out[k] == out_p[k]);
                }
            }
        }
    }
}

/// A result whose code has no result in the earlier snapshot never counts as
/// newly graded, even when it is graded.
pub proof fn lemma_changes_need_history(old: Seq<ResultView>, new: Seq<ResultView>)
    ensures
        forall|k: int| 0 <= k < changes_spec(old, new).len() ==> has_id(old, #[trigger] changes_spec(old, new)[k].id),
    decreases new.len(),
{
    if new.len() > 0 {
        let prev = changes_spec(old, new.drop_last());
        let out = changes_spec(old, new);
        lemma_changes_need_history(old, new.drop_last());
        lemma_find_some(old, new.last().id);
        if newly_scored(old, new.last()) {
            assert(out == prev.push(new.last()));
            assert forall|k: int| 0 <= k < out.len() implies has_id(old, #[trigger] out[k].id) by {
                if k < prev.len() {
                    assert(out[k] == prev[k]);
                }
            }
        }
    }
}

} // verus!
