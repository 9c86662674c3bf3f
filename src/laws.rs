//! Laws that hold of the parsers, the merge rules and the reload classifier
//! for every input, stated over the same spec functions as the contracts.
use vstd::prelude::*;

use crate::model::cache::{classify, distinct_ids, is_index_path, path_track_id, ScopeView};
use crate::model::enums::{checkbox_status_of, CheckboxStatus, PhaseStatus, Priority, Status, TrackType};
use crate::model::track::{
    lemma_total_done_bounded, mark_complete_spec, merge_metadata_spec, merge_plan_spec,
    progress_hundredths, total_done, total_tasks, MetadataView, PhaseView, TrackView,
};
use crate::parser::index::{checkbox_of, EntryView};
use crate::parser::load::{entry_track, normalized};
use crate::parser::plan::{all_done, derived_status, unfinished, with_statuses};
use crate::text::starts_with;

verus! {

/// A checkbox that is ticked (`[x]`, `[X]`) stands for Complete, one marked
/// in progress (`[~]`, `[-]`) for InProgress, and any other (`[ ]` or none)
/// for New; an index entry takes its checkbox's status only when it has no
/// status field of its own, whatever word that field holds.
pub proof fn checkbox_status_law(t: Seq<char>, e: EntryView)
    ensures
        (starts_with(t, "[x]"@) || starts_with(t, "[X]"@)) ==> checkbox_of(t)
            == CheckboxStatus::Checked,
        !(starts_with(t, "[x]"@) || starts_with(t, "[X]"@)) && (starts_with(t, "[~]"@)
            || starts_with(t, "[-]"@)) ==> checkbox_of(t) == CheckboxStatus::InProgress,
        !(starts_with(t, "[x]"@) || starts_with(t, "[X]"@) || starts_with(t, "[~]"@)
            || starts_with(t, "[-]"@)) ==> checkbox_of(t) == CheckboxStatus::Unchecked,
        checkbox_status_of(CheckboxStatus::Checked) == Status::Complete,
        checkbox_status_of(CheckboxStatus::InProgress) == Status::InProgress,
        checkbox_status_of(CheckboxStatus::Unchecked) == Status::New,
        e.status matches Some(s) ==> entry_track(e).status == s,
        e.status is None ==> entry_track(e).status == checkbox_status_of(e.checkbox),
{
}

/// Progress is zero for a track without tasks, and at most one hundred
/// percent (ten thousand hundredths) while no more tasks are done than exist.
pub proof fn progress_law(completed: nat, total: nat)
    ensures
        total == 0 ==> progress_hundredths(completed, total) == 0,
        completed <= total ==> progress_hundredths(completed, total) <= 10000,
{
    if total > 0 && completed <= total {
        let n = 20000 * completed + total;
        let d = 2 * total;
        assert(n < d * 10001) by (nonlinear_arith)
            requires
                n == 20000 * completed + total,
                d == 2 * total,
                completed <= total,
                total > 0,
        ;
        assert(n / d <= 10000) by (nonlinear_arith)
            requires
                n < d * 10001,
                d > 0,
        ;
    }
}

/// Merging a plan, and then showing a complete track as done, never leaves
/// more tasks done than exist, so progress stays within bounds.
pub proof fn merged_progress_law(t: TrackView, ps: Seq<PhaseView>)
    ensures
        merge_plan_spec(t, ps).tasks_completed <= merge_plan_spec(t, ps).tasks_total,
        normalized(merge_plan_spec(t, ps)).tasks_completed <= normalized(
            merge_plan_spec(t, ps),
        ).tasks_total,
        mark_complete_spec(t).tasks_completed == mark_complete_spec(t).tasks_total,
{
    lemma_total_done_bounded(ps);
}

/// Merging the same metadata twice gives what merging it once gives, and a
/// metadata field at its default never replaces the track's value.
pub proof fn merge_metadata_law(t: TrackView, m: MetadataView)
    ensures
        merge_metadata_spec(merge_metadata_spec(t, m), m) == merge_metadata_spec(t, m),
        m.status == Status::New ==> merge_metadata_spec(t, m).status == t.status,
        m.priority == Priority::Medium ==> merge_metadata_spec(t, m).priority == t.priority,
        m.track_type == TrackType::Other ==> merge_metadata_spec(t, m).track_type == t.track_type,
        m.created_at is None ==> merge_metadata_spec(t, m).created_at == t.created_at,
        m.updated_at is None ==> merge_metadata_spec(t, m).updated_at == t.updated_at,
        m.dependencies.len() == 0 ==> merge_metadata_spec(t, m).dependencies == t.dependencies,
        m.tags.len() == 0 ==> merge_metadata_spec(t, m).tags == t.tags,
        m.branch is None ==> merge_metadata_spec(t, m).branch == t.branch,
        m.description is None ==> merge_metadata_spec(t, m).description == t.description,
{
}

/// Merging a plan sets the task counts to the sums over the given phases,
/// whatever counts the track held before, and replaces the phases.
pub proof fn merge_plan_law(t: TrackView, ps: Seq<PhaseView>)
    ensures
        merge_plan_spec(t, ps).tasks_total == total_tasks(ps),
        merge_plan_spec(t, ps).tasks_completed == total_done(ps),
        merge_plan_spec(t, ps).plan_phases == ps,
        merge_plan_spec(t, ps).tasks_completed <= merge_plan_spec(t, ps).tasks_total,
{
    lemma_total_done_bounded(ps);
}

/// In any plan at most one phase is Active, a phase without tasks is
/// Pending, and a phase with tasks that are all done is Complete.
pub proof fn phase_status_law(ps: Seq<PhaseView>)
    ensures
        forall|i: int, j: int|
            0 <= i < ps.len() && 0 <= j < ps.len() && #[trigger] with_statuses(ps)[i].status
                == PhaseStatus::Active && #[trigger] with_statuses(ps)[j].status
                == PhaseStatus::Active ==> i == j,
        forall|i: int|
            0 <= i < ps.len() && ps[i].tasks.len() == 0 ==> #[trigger] with_statuses(ps)[i].status
                == PhaseStatus::Pending,
        forall|i: int|
            0 <= i < ps.len() && ps[i].tasks.len() > 0 && all_done(ps[i].tasks)
                ==> #[trigger] with_statuses(ps)[i].status == PhaseStatus::Complete,
{
    assert forall|i: int, j: int|
        0 <= i < ps.len() && 0 <= j < ps.len() && #[trigger] with_statuses(ps)[i].status
            == PhaseStatus::Active && #[trigger] with_statuses(ps)[j].status
            == PhaseStatus::Active implies i == j by {
        assert(derived_status(ps, i) == PhaseStatus::Active);
        assert(derived_status(ps, j) == PhaseStatus::Active);
        assert(unfinished(ps[i]));
        assert(unfinished(ps[j]));
        if i < j {
            assert(!unfinished(ps[i]));
        } else if j < i {
            assert(!unfinished(ps[j]));
        }
    }
}

/// Some path among the first `n` names the track `id`.
pub open spec fn seen_by(ps: Seq<Seq<char>>, id: Seq<char>, n: int) -> bool {
    exists|j: int| 0 <= j < n && path_track_id(#[trigger] ps[j]) == Some(id)
}

/// Track `x` is named by some path before any path names track `y`.
pub open spec fn first_seen_before(ps: Seq<Seq<char>>, x: Seq<char>, y: Seq<char>) -> bool {
    exists|i: int| 0 <= i < ps.len() && path_track_id(#[trigger] ps[i]) == Some(x) && !seen_by(ps, y, i + 1)
}

proof fn lemma_seen_prefix(ps: Seq<Seq<char>>, id: Seq<char>, n: int)
    requires
        ps.len() > 0,
        0 <= n <= ps.len() - 1,
    ensures
        seen_by(ps, id, n) == seen_by(ps.drop_last(), id, n),
{
    if seen_by(ps, id, n) {
        let j = choose|j: int| 0 <= j < n && path_track_id(#[trigger] ps[j]) == Some(id);
        assert(ps.drop_last()[j] == ps[j]);
    }
    if seen_by(ps.drop_last(), id, n) {
        let j = choose|j: int| 0 <= j < n && path_track_id(#[trigger] ps.drop_last()[j]) == Some(id);
        assert(ps.drop_last()[j] == ps[j]);
    }
}

proof fn lemma_distinct_ids(ps: Seq<Seq<char>>)
    ensures
        distinct_ids(ps).no_duplicates(),
        forall|id: Seq<char>| #[trigger] distinct_ids(ps).contains(id) <==> seen_by(ps, id, ps.len() as int),
        forall|a: int, b: int|
            0 <= a < b < distinct_ids(ps).len() ==> first_seen_before(
                ps,
                #[trigger] distinct_ids(ps)[a],
                #[trigger] distinct_ids(ps)[b],
            ),
    decreases ps.len(),
{
    if ps.len() == 0 {
        return;
    }
    let q = ps.drop_last();
    let n = q.len() as int;
    lemma_distinct_ids(q);
    let rq = distinct_ids(q);
    let r = distinct_ids(ps);
    assert forall|id: Seq<char>| seen_by(ps, id, n) == seen_by(q, id, n) by {
        lemma_seen_prefix(ps, id, n);
    }
    assert forall|id: Seq<char>| #[trigger] seen_by(ps, id, n + 1) <==> (seen_by(ps, id, n)
        || path_track_id(ps[n]) == Some(id)) by {
        if seen_by(ps, id, n + 1) && !seen_by(ps, id, n) {
            let j = choose|j: int| 0 <= j < n + 1 && path_track_id(#[trigger] ps[j]) == Some(id);
            assert(j == n);
        }
        if path_track_id(ps[n]) == Some(id) {
            assert(path_track_id(ps[n]) == Some(id));
        }
    }
    assert forall|a: int, b: int| 0 <= a < b < rq.len() implies first_seen_before(
        ps,
        #[trigger] rq[a],
        #[trigger] rq[b],
    ) by {
        assert(first_seen_before(q, rq[a], rq[b]));
        let i = choose|i: int|
            0 <= i < q.len() && path_track_id(#[trigger] q[i]) == Some(rq[a]) && !seen_by(q, rq[b], i + 1);
        lemma_seen_prefix(ps, rq[b], i + 1);
        assert(ps[i] == q[i]);
    }
    match path_track_id(ps.last()) {
        Some(id) => {
            if !rq.contains(id) {
                assert(r == rq.push(id));
                assert forall|x: int, y: int| 0 <= x < r.len() && 0 <= y < r.len() && x != y implies r[x]
                    != r[y] by {
                    if x == rq.len() as int {
                        assert(!rq.contains(r[y]) || r[y] != id);
                    } else if y == rq.len() as int {
                        assert(rq[x] != id);
                    }
                }
                assert forall|a: int, b: int| 0 <= a < b < r.len() implies first_seen_before(
                    ps,
                    #[trigger] r[a],
                    #[trigger] r[b],
                ) by {
                    if b < rq.len() {
                        assert(r[a] == rq[a] && r[b] == rq[b]);
                    } else {
                        assert(rq.contains(r[a]));
                        assert(seen_by(q, r[a], n));
                        let i = choose|i: int| 0 <= i < n && path_track_id(#[trigger] q[i]) == Some(r[a]);
                        assert(ps[i] == q[i]);
                        assert(!seen_by(q, id, n));
                        lemma_seen_prefix(ps, id, i + 1);
                        if seen_by(q, id, i + 1) {
                            let j = choose|j: int| 0 <= j < i + 1 && path_track_id(#[trigger] q[j]) == Some(id);
                            assert(seen_by(q, id, n));
                        }
                    }
                }
            } else {
                assert(r == rq);
            }
        },
        None => {
            assert(r == rq);
        },
    }
    assert(ps.last() == ps[n]);
    assert forall|x: Seq<char>| #[trigger] r.contains(x) <==> seen_by(ps, x, ps.len() as int) by {
        assert(rq.contains(x) <==> seen_by(q, x, n));
        assert(seen_by(ps, x, n + 1) <==> (seen_by(ps, x, n) || path_track_id(ps[n]) == Some(x)));
        if path_track_id(ps[n]) is Some {
            let id = path_track_id(ps[n])->0;
            if !rq.contains(id) {
                if x == id {
                    assert(r[rq.len() as int] == x);
                }
                if rq.contains(x) {
                    let k = choose|k: int| 0 <= k < rq.len() && rq[k] == x;
                    assert(r[k] == x);
                }
                if r.contains(x) {
                    let k = choose|k: int| 0 <= k < r.len() && r[k] == x;
                    if k < rq.len() {
                        assert(rq[k] == x);
                    }
                }
            }
        }
    }
}

/// A batch that holds the master index's file reloads everything.
pub proof fn reload_full_law(ps: Seq<Seq<char>>, i: int)
    requires
        0 <= i < ps.len(),
        is_index_path(ps[i]),
    ensures
        classify(ps) == ScopeView::Full,
{
}

/// A batch without the master index reloads exactly the tracks its paths
/// name, each once, in the order they were first named.
pub proof fn reload_partial_law(ps: Seq<Seq<char>>)
    requires
        forall|i: int| 0 <= i < ps.len() ==> !is_index_path(#[trigger] ps[i]),
    ensures
        classify(ps) == ScopeView::Tracks(distinct_ids(ps)),
        distinct_ids(ps).no_duplicates(),
        forall|i: int|
            0 <= i < ps.len() && #[trigger] path_track_id(ps[i]) is Some ==> distinct_ids(
                ps,
            ).contains(path_track_id(ps[i])->0),
        forall|k: int|
            0 <= k < distinct_ids(ps).len() ==> seen_by(ps, #[trigger] distinct_ids(ps)[k], ps.len() as int),
        forall|a: int, b: int|
            0 <= a < b < distinct_ids(ps).len() ==> first_seen_before(
                ps,
                #[trigger] distinct_ids(ps)[a],
                #[trigger] distinct_ids(ps)[b],
            ),
{
    lemma_distinct_ids(ps);
    assert forall|i: int|
        0 <= i < ps.len() && #[trigger] path_track_id(ps[i]) is Some implies distinct_ids(ps).contains(
            path_track_id(ps[i])->0,
        ) by {
        assert(seen_by(ps, path_track_id(ps[i])->0, ps.len() as int));
    }
    assert forall|k: int| 0 <= k < distinct_ids(ps).len() implies seen_by(
        ps,
        #[trigger] distinct_ids(ps)[k],
        ps.len() as int,
    ) by {
        assert(distinct_ids(ps).contains(distinct_ids(ps)[k]));
    }
}

} // verus!
