//! Building the track set: the index alone creates tracks; each track's
//! metadata and then its plan are folded in, and a track whose status is
//! Complete shows its whole plan as done.
use vstd::prelude::*;

use crate::model::enums::{checkbox_status_of, PhaseStatus, Status, TrackType};
use crate::model::track::{
    ids_view, mark_complete_spec, merge_metadata_spec, merge_plan_spec, opt_view, phases_view,
    strings_view, total_tasks, MetadataView, PhaseView, PlanPhase, Track, TrackId, TrackMetadata,
    TrackView,
};
use crate::model::track_set::{as_map, TrackSet};
use crate::parser::index::{entries_view, index_entries, parse_index_content, EntryView, IndexEntry};
use crate::parser::markdown::events_of;

verus! {

/// The track an index entry creates: the status its `Status` field names
/// when it has one, else the status its checkbox stands for.
pub open spec fn entry_track(e: EntryView) -> TrackView {
    TrackView {
        id: e.id,
        title: e.title,
        status: match e.status {
            Some(s) => s,
            None => checkbox_status_of(e.checkbox),
        },
        priority: e.priority,
        track_type: TrackType::Other,
        phase: Seq::empty(),
        created_at: None,
        updated_at: None,
        dependencies: e.dependencies,
        tasks_total: 0,
        tasks_completed: 0,
        checkbox_status: e.checkbox,
        plan_phases: Seq::empty(),
        tags: e.tags,
        branch: e.branch,
        description: None,
    }
}

/// The tracks that index entries create, keyed by identity: entries without
/// an identity create none, and a later entry replaces an earlier one with
/// the same identity.
pub open spec fn index_map(es: Seq<EntryView>) -> Map<Seq<char>, TrackView>
    decreases es.len(),
{
    if es.len() == 0 {
        Map::empty()
    } else if es.last().id.len() > 0 {
        index_map(es.drop_last()).insert(es.last().id, entry_track(es.last()))
    } else {
        index_map(es.drop_last())
    }
}

/// Whether a track is shown as finished: Complete status forces every task
/// done; any other status leaves the track as it is.
pub open spec fn normalized(t: TrackView) -> TrackView {
    if t.status == Status::Complete {
        mark_complete_spec(t)
    } else {
        t
    }
}

pub open spec fn meta_opt_view(m: Option<TrackMetadata>) -> Option<MetadataView> {
    match m {
        Some(x) => Some(x@),
        None => None,
    }
}

/// A track after its metadata, then its plan, are folded in and the result
/// is normalized. Absent metadata or an absent plan leaves that part alone.
pub open spec fn merged_track(
    t: TrackView,
    meta: Option<MetadataView>,
    plan: Option<Seq<PhaseView>>,
) -> TrackView {
    let t1 = match meta {
        Some(m) => merge_metadata_spec(t, m),
        None => t,
    };
    let t2 = match plan {
        Some(ps) => merge_plan_spec(t1, ps),
        None => t1,
    };
    normalized(t2)
}

fn copy_strings(v: &Vec<String>) -> (r: Vec<String>)
    ensures
        strings_view(r@) == strings_view(v@),
{
    let mut r: Vec<String> = Vec::new();
    let mut i: usize = 0;
    while i < v.len()
        invariant
            i <= v@.len(),
            r@.len() == i,
            forall|k: int| 0 <= k < i ==> #[trigger] r@[k]@ == v@[k]@,
        decreases v.len() - i,
    {
        r.push(v[i].clone());
        i += 1;
    }
    proof {
        assert(strings_view(r@) =~= strings_view(v@));
    }
    r
}

fn ids_of(v: &Vec<String>) -> (r: Vec<TrackId>)
    ensures
        ids_view(r@) == strings_view(v@),
{
    let mut r: Vec<TrackId> = Vec::new();
    let mut i: usize = 0;
    while i < v.len()
        invariant
            i <= v@.len(),
            r@.len() == i,
            forall|k: int| 0 <= k < i ==> #[trigger] r@[k]@ == v@[k]@,
        decreases v.len() - i,
    {
        r.push(TrackId(v[i].clone()));
        i += 1;
    }
    proof {
        assert(ids_view(r@) =~= strings_view(v@));
    }
    r
}

/// The track an index entry creates.
pub fn track_from_entry(e: &IndexEntry) -> (r: Track)
    ensures
        r@ == entry_track(e@),
{
    let status = match e.status {
        Some(s) => s,
        None => e.checkbox.to_status(),
    };
    let branch = match &e.branch {
        Some(b) => Some(b.clone()),
        None => None,
    };
    let r = Track {
        id: TrackId(e.id.0.clone()),
        title: e.title.clone(),
        status,
        priority: e.priority,
        track_type: TrackType::Other,
        phase: String::new(),
        created_at: None,
        updated_at: None,
        dependencies: ids_of(&e.dependencies),
        tasks_total: 0,
        tasks_completed: 0,
        checkbox_status: e.checkbox,
        plan_phases: Vec::new(),
        tags: copy_strings(&e.tags),
        branch,
        description: None,
    };
    proof {
        assert(phases_view(r.plan_phases@) =~= Seq::<PhaseView>::empty());
    }
    r
}

/// The tracks that index entries create, in identity order.
pub fn tracks_from_entries(entries: &Vec<IndexEntry>) -> (r: TrackSet)
    ensures
        r.wf(),
        as_map(r@) == index_map(entries_view(entries@)),
{
    let ghost ev = entries_view(entries@);
    let mut set = TrackSet::new();
    proof {
        assert(ev.take(0) =~= Seq::<EntryView>::empty());
        assert(as_map(set@) =~= Map::<Seq<char>, TrackView>::empty());
    }
    let mut i: usize = 0;
    while i < entries.len()
        invariant
            ev == entries_view(entries@),
            i <= entries@.len(),
            set.wf(),
            as_map(set@) == index_map(ev.take(i as int)),
        decreases entries.len() - i,
    {
        proof {
            assert(ev.take(i + 1).drop_last() =~= ev.take(i as int));
            assert(ev.take(i + 1).last() == entries@[i as int]@);
        }
        if entries[i].id.as_str().unicode_len() > 0 {
            let t = track_from_entry(&entries[i]);
            set.insert(t);
        }
        i += 1;
    }
    proof {
        assert(ev.take(i as int) =~= ev);
    }
    set
}

/// The tracks that an index document creates, in identity order.
pub fn tracks_from_index(content: &str) -> (r: TrackSet)
    ensures
        r.wf(),
        as_map(r@) == index_map(index_entries(events_of(content@))),
{
    let entries = parse_index_content(content);
    tracks_from_entries(&entries)
}

impl Track {
    /// When the status is Complete, shows the whole plan as done.
    pub fn normalize_if_complete(&mut self)
        ensures
            final(self)@ == normalized(old(self)@),
    {
        if self.status == Status::Complete {
            self.mark_all_tasks_complete();
        }
    }

    /// Folds in a track's metadata, then its plan, then normalizes.
    pub fn merge_sources(&mut self, metadata: Option<TrackMetadata>, plan: Option<Vec<PlanPhase>>)
        requires
            plan matches Some(ps) ==> total_tasks(phases_view(ps@)) <= usize::MAX,
        ensures
            final(self)@ == merged_track(
                old(self)@,
                meta_opt_view(metadata),
                match plan {
                    Some(ps) => Some(phases_view(ps@)),
                    None => None,
                },
            ),
    {
        match metadata {
            Some(m) => self.merge_metadata(m),
            None => {},
        }
        match plan {
            Some(ps) => self.merge_plan(ps),
            None => {},
        }
        self.normalize_if_complete();
    }
}

} // verus!
