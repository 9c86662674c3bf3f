//! Which tracks a list view shows: a status filter and a text search.
use vstd::prelude::*;

use crate::model::enums::{FilterMode, Status};
use crate::model::track::{ids_view, Track, TrackId, TrackView};
use crate::model::track_set::TrackSet;
use crate::text::{chars_of, contains, find_exec, lower, lower_chars};

verus! {

/// Whether a filter lets a track with status `s` through.
pub open spec fn filter_admits(f: FilterMode, s: Status) -> bool {
    match f {
        FilterMode::All => true,
        FilterMode::Active => s == Status::InProgress,
        FilterMode::Blocked => s == Status::Blocked,
        FilterMode::Complete => s == Status::Complete,
    }
}

impl FilterMode {
    /// Whether the filter lets a track with status `s` through.
    pub fn admits(self, s: Status) -> (r: bool)
        ensures
            r == filter_admits(self, s),
    {
        match self {
            FilterMode::All => true,
            FilterMode::Active => s == Status::InProgress,
            FilterMode::Blocked => s == Status::Blocked,
            FilterMode::Complete => s == Status::Complete,
        }
    }
}

/// An empty search matches every track; otherwise the search must occur in
/// the title or the identity, ASCII case ignored.
pub open spec fn matches_search(t: TrackView, q: Seq<char>) -> bool {
    lower(q).len() == 0 || contains(lower(t.title), lower(q)) || contains(lower(t.id), lower(q))
}

pub open spec fn is_shown(t: TrackView, f: FilterMode, q: Seq<char>) -> bool {
    filter_admits(f, t.status) && matches_search(t, q)
}

/// The identities of the tracks shown, in the order given.
pub open spec fn shown(ts: Seq<TrackView>, f: FilterMode, q: Seq<char>) -> Seq<Seq<char>>
    decreases ts.len(),
{
    if ts.len() == 0 {
        Seq::empty()
    } else if is_shown(ts.last(), f, q) {
        shown(ts.drop_last(), f, q).push(ts.last().id)
    } else {
        shown(ts.drop_last(), f, q)
    }
}

fn matches_search_exec(t: &Track, ql: &Vec<char>) -> (r: bool)
    ensures
        r == (ql@.len() == 0 || contains(lower(t@.title), ql@) || contains(lower(t@.id), ql@)),
{
    if ql.len() == 0 {
        return true;
    }
    let title = chars_of(t.title.as_str());
    let tl = lower_chars(&title);
    if find_exec(&tl, ql).is_some() {
        return true;
    }
    let id = chars_of(t.id.as_str());
    let il = lower_chars(&id);
    find_exec(&il, ql).is_some()
}

/// The identities of the tracks that pass the filter and the search, in
/// identity order.
pub fn shown_track_ids(set: &TrackSet, filter: FilterMode, query: &str) -> (r: Vec<TrackId>)
    ensures
        ids_view(r@) == shown(set@, filter, query@),
{
    let q = chars_of(query);
    let ql = lower_chars(&q);
    let ghost ts = set@;
    let mut r: Vec<TrackId> = Vec::new();
    let mut i: usize = 0;
    let n = set.len();
    while i < n
        invariant
            ts == set@,
            n == ts.len(),
            ql@ == lower(query@),
            i <= n,
            ids_view(r@) == shown(ts.take(i as int), filter, query@),
        decreases n - i,
    {
        proof {
            assert(ts.take(i + 1).drop_last() =~= ts.take(i as int));
            assert(ts.take(i + 1).last() == ts[i as int]);
        }
        let t = set.at(i);
        if filter.admits(t.status) && matches_search_exec(t, &ql) {
            let ghost before = ids_view(r@);
            r.push(TrackId(t.id.0.clone()));
            proof {
                assert(ids_view(r@) =~= before.push(t@.id));
            }
        }
        i += 1;
    }
    proof {
        assert(ts.take(i as int) =~= ts);
    }
    r
}

} // verus!
