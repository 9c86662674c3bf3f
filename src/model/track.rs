//! Tracks, their plans, and the rules that fold metadata and plans into them.
use vstd::prelude::*;

use crate::model::enums::{CheckboxStatus, PhaseStatus, Priority, Status, TrackType};

verus! {

/// Key of a track: a case-sensitive name, unique over the track set.
#[derive(Debug, Clone, PartialEq, Eq, Hash, PartialOrd, Ord)]
pub struct TrackId(pub String);

impl View for TrackId {
    type V = Seq<char>;

    open spec fn view(&self) -> Seq<char> {
        self.0@
    }
}

impl TrackId {
    pub fn new(s: &str) -> (r: TrackId)
        ensures
            r@ == s@,
    {
        TrackId(String::from_str(s))
    }

    pub fn as_str(&self) -> (r: &str)
        ensures
            r@ == self@,
    {
        self.0.as_str()
    }

    /// The key as an owned string.
    pub fn to_string(&self) -> (r: String)
        ensures
            r@ == self@,
    {
        self.0.clone()
    }
}

impl From<String> for TrackId {
    fn from(s: String) -> (r: TrackId) {
        TrackId(s)
    }
}

impl vstd::std_specs::convert::FromSpecImpl<String> for TrackId {
    open spec fn obeys_from_spec() -> bool {
        true
    }

    open spec fn from_spec(s: String) -> TrackId {
        TrackId(s)
    }
}

impl<'a> From<&'a str> for TrackId {
    fn from(s: &'a str) -> (r: TrackId) {
        TrackId(String::from_str(s))
    }
}

impl<'a> vstd::std_specs::convert::FromSpecImpl<&'a str> for TrackId {
    open spec fn obeys_from_spec() -> bool {
        false
    }

    open spec fn from_spec(s: &'a str) -> TrackId {
        vstd::pervasive::arbitrary()
    }
}

/// A point in time, in UTC.
#[derive(Debug, Clone, Copy, PartialEq, Eq, Structural, Hash)]
pub struct Timestamp {
    pub year: i32,
    pub month: u32,
    pub day: u32,
    pub hour: u32,
    pub minute: u32,
    pub second: u32,
    pub nanosecond: u32,
}

/// One checklist item of a plan.
#[derive(Debug, Clone)]
pub struct PlanTask {
    pub text: String,
    pub done: bool,
}

pub struct TaskView {
    pub text: Seq<char>,
    pub done: bool,
}

impl View for PlanTask {
    type V = TaskView;

    open spec fn view(&self) -> TaskView {
        TaskView { text: self.text@, done: self.done }
    }
}

/// A named group of plan tasks.
#[derive(Debug, Clone)]
pub struct PlanPhase {
    pub name: String,
    pub status: PhaseStatus,
    pub tasks: Vec<PlanTask>,
}

pub struct PhaseView {
    pub name: Seq<char>,
    pub status: PhaseStatus,
    pub tasks: Seq<TaskView>,
}

pub open spec fn tasks_view(ts: Seq<PlanTask>) -> Seq<TaskView> {
    ts.map_values(|t: PlanTask| t@)
}

impl View for PlanPhase {
    type V = PhaseView;

    open spec fn view(&self) -> PhaseView {
        PhaseView { name: self.name@, status: self.status, tasks: tasks_view(self.tasks@) }
    }
}

pub open spec fn phases_view(ps: Seq<PlanPhase>) -> Seq<PhaseView> {
    ps.map_values(|p: PlanPhase| p@)
}

/// How many of the tasks are done.
pub open spec fn done_count(ts: Seq<TaskView>) -> nat
    decreases ts.len(),
{
    if ts.len() == 0 {
        0
    } else {
        done_count(ts.drop_last()) + if ts.last().done {
            1nat
        } else {
            0nat
        }
    }
}

/// Number of tasks over all phases.
pub open spec fn total_tasks(ps: Seq<PhaseView>) -> nat
    decreases ps.len(),
{
    if ps.len() == 0 {
        0
    } else {
        total_tasks(ps.drop_last()) + ps.last().tasks.len()
    }
}

/// Number of done tasks over all phases.
pub open spec fn total_done(ps: Seq<PhaseView>) -> nat
    decreases ps.len(),
{
    if ps.len() == 0 {
        0
    } else {
        total_done(ps.drop_last()) + done_count(ps.last().tasks)
    }
}

pub proof fn lemma_done_count_bounded(ts: Seq<TaskView>)
    ensures
        done_count(ts) <= ts.len(),
    decreases ts.len(),
{
    if ts.len() > 0 {
        lemma_done_count_bounded(ts.drop_last());
    }
}

pub proof fn lemma_total_done_bounded(ps: Seq<PhaseView>)
    ensures
        total_done(ps) <= total_tasks(ps),
    decreases ps.len(),
{
    if ps.len() > 0 {
        lemma_total_done_bounded(ps.drop_last());
        lemma_done_count_bounded(ps.last().tasks);
    }
}

impl PlanPhase {
    /// Number of done tasks.
    pub fn tasks_completed(&self) -> (r: usize)
        ensures
            r == done_count(self@.tasks),
    {
        let mut n: usize = 0;
        let mut i: usize = 0;
        while i < self.tasks.len()
            invariant
                i <= self.tasks@.len(),
                n == done_count(tasks_view(self.tasks@).take(i as int)),
                n <= i,
            decreases self.tasks.len() - i,
        {
            proof {
                assert(tasks_view(self.tasks@).take(i + 1).drop_last() =~= tasks_view(
                    self.tasks@,
                ).take(i as int));
            }
            if self.tasks[i].done {
                n += 1;
            }
            i += 1;
        }
        proof {
            assert(tasks_view(self.tasks@).take(i as int) =~= tasks_view(self.tasks@));
        }
        n
    }
}

/// The authored part of a track as one metadata file gives it.
#[derive(Debug, Clone)]
pub struct TrackMetadata {
    pub status: Status,
    pub priority: Priority,
    pub track_type: TrackType,
    pub created_at: Option<Timestamp>,
    pub updated_at: Option<Timestamp>,
    pub dependencies: Vec<String>,
    pub tags: Vec<String>,
    pub branch: Option<String>,
    pub description: Option<String>,
}

pub struct MetadataView {
    pub status: Status,
    pub priority: Priority,
    pub track_type: TrackType,
    pub created_at: Option<Timestamp>,
    pub updated_at: Option<Timestamp>,
    pub dependencies: Seq<Seq<char>>,
    pub tags: Seq<Seq<char>>,
    pub branch: Option<Seq<char>>,
    pub description: Option<Seq<char>>,
}

pub open spec fn strings_view(v: Seq<String>) -> Seq<Seq<char>> {
    v.map_values(|s: String| s@)
}

pub open spec fn ids_view(v: Seq<TrackId>) -> Seq<Seq<char>> {
    v.map_values(|s: TrackId| s@)
}

pub open spec fn opt_view(o: Option<String>) -> Option<Seq<char>> {
    match o {
        Some(s) => Some(s@),
        None => None,
    }
}

impl View for TrackMetadata {
    type V = MetadataView;

    open spec fn view(&self) -> MetadataView {
        MetadataView {
            status: self.status,
            priority: self.priority,
            track_type: self.track_type,
            created_at: self.created_at,
            updated_at: self.updated_at,
            dependencies: strings_view(self.dependencies@),
            tags: strings_view(self.tags@),
            branch: opt_view(self.branch),
            description: opt_view(self.description),
        }
    }
}

impl Default for TrackMetadata {
    /// Metadata that says nothing: every field at its default.
    fn default() -> (r: TrackMetadata)
        ensures
            r@.status == Status::New,
            r@.priority == Priority::Medium,
            r@.track_type == TrackType::Other,
            r@.created_at is None,
            r@.updated_at is None,
            r@.dependencies.len() == 0,
            r@.tags.len() == 0,
            r@.branch is None,
            r@.description is None,
    {
        TrackMetadata {
            status: Status::New,
            priority: Priority::Medium,
            track_type: TrackType::Other,
            created_at: None,
            updated_at: None,
            dependencies: Vec::new(),
            tags: Vec::new(),
            branch: None,
            description: None,
        }
    }
}

/// One unit of tracked work, merged from the index, its metadata and its plan.
#[derive(Debug, Clone)]
pub struct Track {
    pub id: TrackId,
    pub title: String,
    pub status: Status,
    pub priority: Priority,
    pub track_type: TrackType,
    pub phase: String,
    pub created_at: Option<Timestamp>,
    pub updated_at: Option<Timestamp>,
    pub dependencies: Vec<TrackId>,
    pub tasks_total: usize,
    pub tasks_completed: usize,
    pub checkbox_status: CheckboxStatus,
    pub plan_phases: Vec<PlanPhase>,
    pub tags: Vec<String>,
    pub branch: Option<String>,
    pub description: Option<String>,
}

pub struct TrackView {
    pub id: Seq<char>,
    pub title: Seq<char>,
    pub status: Status,
    pub priority: Priority,
    pub track_type: TrackType,
    pub phase: Seq<char>,
    pub created_at: Option<Timestamp>,
    pub updated_at: Option<Timestamp>,
    pub dependencies: Seq<Seq<char>>,
    pub tasks_total: nat,
    pub tasks_completed: nat,
    pub checkbox_status: CheckboxStatus,
    pub plan_phases: Seq<PhaseView>,
    pub tags: Seq<Seq<char>>,
    pub branch: Option<Seq<char>>,
    pub description: Option<Seq<char>>,
}

impl View for Track {
    type V = TrackView;

    open spec fn view(&self) -> TrackView {
        TrackView {
            id: self.id@,
            title: self.title@,
            status: self.status,
            priority: self.priority,
            track_type: self.track_type,
            phase: self.phase@,
            created_at: self.created_at,
            updated_at: self.updated_at,
            dependencies: ids_view(self.dependencies@),
            tasks_total: self.tasks_total as nat,
            tasks_completed: self.tasks_completed as nat,
            checkbox_status: self.checkbox_status,
            plan_phases: phases_view(self.plan_phases@),
            tags: strings_view(self.tags@),
            branch: opt_view(self.branch),
            description: opt_view(self.description),
        }
    }
}

/// A track after metadata `m` is folded in: each metadata field that is not
/// at its default replaces the track's, and the others leave it alone.
pub open spec fn merge_metadata_spec(t: TrackView, m: MetadataView) -> TrackView {
    TrackView {
        status: if m.status != Status::New {
            m.status
        } else {
            t.status
        },
        priority: if m.priority != Priority::Medium {
            m.priority
        } else {
            t.priority
        },
        track_type: if m.track_type != TrackType::Other {
            m.track_type
        } else {
            t.track_type
        },
        created_at: if m.created_at is Some {
            m.created_at
        } else {
            t.created_at
        },
        updated_at: if m.updated_at is Some {
            m.updated_at
        } else {
            t.updated_at
        },
        dependencies: if m.dependencies.len() > 0 {
            m.dependencies
        } else {
            t.dependencies
        },
        tags: if m.tags.len() > 0 {
            m.tags
        } else {
            t.tags
        },
        branch: if m.branch is Some {
            m.branch
        } else {
            t.branch
        },
        description: if m.description is Some {
            m.description
        } else {
            t.description
        },
        ..t
    }
}

/// Name of the first phase that is Active or Pending.
pub open spec fn first_open_phase(ps: Seq<PhaseView>) -> Option<Seq<char>>
    decreases ps.len(),
{
    if ps.len() == 0 {
        None
    } else if ps[0].status == PhaseStatus::Active || ps[0].status == PhaseStatus::Pending {
        Some(ps[0].name)
    } else {
        first_open_phase(ps.drop_first())
    }
}

/// The current-phase label a plan gives: the first Active or Pending phase,
/// else the last phase; with no phases the label `old` stays.
pub open spec fn current_phase(ps: Seq<PhaseView>, old: Seq<char>) -> Seq<char> {
    match first_open_phase(ps) {
        Some(n) => n,
        None => if ps.len() > 0 {
            ps.last().name
        } else {
            old
        },
    }
}

/// A track after plan `ps` is folded in.
pub open spec fn merge_plan_spec(t: TrackView, ps: Seq<PhaseView>) -> TrackView {
    TrackView {
        tasks_total: total_tasks(ps),
        tasks_completed: total_done(ps),
        plan_phases: ps,
        phase: current_phase(ps, t.phase),
        ..t
    }
}

/// A task shown as done.
pub open spec fn ticked(t: TaskView) -> TaskView {
    TaskView { done: true, ..t }
}

pub open spec fn ticked_all(ts: Seq<TaskView>) -> Seq<TaskView> {
    ts.map_values(|t: TaskView| ticked(t))
}

/// Every task of a phase ticked, and the phase Complete.
pub open spec fn complete_phase(p: PhaseView) -> PhaseView {
    PhaseView { status: PhaseStatus::Complete, tasks: ticked_all(p.tasks), ..p }
}

pub open spec fn complete_phases(ps: Seq<PhaseView>) -> Seq<PhaseView> {
    ps.map_values(|p: PhaseView| complete_phase(p))
}

/// A track with its whole plan shown as done.
pub open spec fn mark_complete_spec(t: TrackView) -> TrackView {
    TrackView {
        plan_phases: complete_phases(t.plan_phases),
        tasks_completed: t.tasks_total,
        ..t
    }
}

/// Progress in hundredths of a percent, rounded half up; zero with no tasks.
pub open spec fn progress_hundredths(completed: nat, total: nat) -> nat {
    if total == 0 {
        0
    } else {
        (20000 * completed + total) / (2 * total)
    }
}

fn complete_tasks(ts: &Vec<PlanTask>) -> (r: Vec<PlanTask>)
    ensures
        tasks_view(r@) == ticked_all(tasks_view(ts@)),
{
    let mut r: Vec<PlanTask> = Vec::new();
    let mut i: usize = 0;
    while i < ts.len()
        invariant
            i <= ts@.len(),
            r@.len() == i,
            forall|k: int| 0 <= k < i ==> #[trigger] r@[k]@ == ticked(ts@[k]@),
        decreases ts.len() - i,
    {
        r.push(PlanTask { text: ts[i].text.clone(), done: true });
        i += 1;
    }
    proof {
        assert(tasks_view(r@) =~= ticked_all(tasks_view(ts@)));
    }
    r
}

impl Track {
    /// Progress in hundredths of a percent: `completed / total * 10000`,
    /// rounded half up, and zero when the track has no tasks.
    pub fn progress_percent_hundredths(&self) -> (r: u128)
        ensures
            r == progress_hundredths(self.tasks_completed as nat, self.tasks_total as nat),
    {
        if self.tasks_total == 0 {
            0
        } else {
            let c = self.tasks_completed as u128;
            let t = self.tasks_total as u128;
            (20000 * c + t) / (2 * t)
        }
    }

    /// Done by status, or by having every one of at least one task done.
    pub fn is_complete(&self) -> (r: bool)
        ensures
            r == (self.status == Status::Complete || (self.tasks_total > 0 && self.tasks_completed
                == self.tasks_total)),
    {
        self.status == Status::Complete || (self.tasks_total > 0 && self.tasks_completed
            == self.tasks_total)
    }

    /// Folds metadata into the track; only non-default metadata values win.
    pub fn merge_metadata(&mut self, meta: TrackMetadata)
        ensures
            final(self)@ == merge_metadata_spec(old(self)@, meta@),
    {
        if meta.status != Status::New {
            self.status = meta.status;
        }
        if meta.priority != Priority::Medium {
            self.priority = meta.priority;
        }
        if meta.track_type != TrackType::Other {
            self.track_type = meta.track_type;
        }
        if meta.created_at.is_some() {
            self.created_at = meta.created_at;
        }
        if meta.updated_at.is_some() {
            self.updated_at = meta.updated_at;
        }
        if meta.dependencies.len() > 0 {
            let mut deps: Vec<TrackId> = Vec::new();
            let mut i: usize = 0;
            while i < meta.dependencies.len()
                invariant
                    i <= meta.dependencies@.len(),
                    deps@.len() == i,
                    forall|k: int| 0 <= k < i ==> #[trigger] deps@[k]@ == meta.dependencies@[k]@,
                decreases meta.dependencies.len() - i,
            {
                deps.push(TrackId(meta.dependencies[i].clone()));
                i += 1;
            }
            proof {
                assert(ids_view(deps@) =~= strings_view(meta.dependencies@));
            }
            self.dependencies = deps;
        }
        if meta.tags.len() > 0 {
            self.tags = meta.tags;
        }
        if meta.branch.is_some() {
            self.branch = meta.branch;
        }
        if meta.description.is_some() {
            self.description = meta.description;
        }
    }

    /// Shows the whole plan as done: every task ticked, every phase Complete,
    /// and the completed count equal to the total.
    pub fn mark_all_tasks_complete(&mut self)
        ensures
            final(self)@ == mark_complete_spec(old(self)@),
    {
        let mut out: Vec<PlanPhase> = Vec::new();
        let mut i: usize = 0;
        while i < self.plan_phases.len()
            invariant
                i <= self.plan_phases@.len(),
                out@.len() == i,
                forall|k: int| 0 <= k < i ==> #[trigger] out@[k]@ == complete_phase(self.plan_phases@[k]@),
            decreases self.plan_phases.len() - i,
        {
            let tasks = complete_tasks(&self.plan_phases[i].tasks);
            out.push(PlanPhase { name: self.plan_phases[i].name.clone(), status: PhaseStatus::Complete, tasks });
            i += 1;
        }
        proof {
            assert(phases_view(out@) =~= complete_phases(phases_view(self.plan_phases@)));
        }
        self.plan_phases = out;
        self.tasks_completed = self.tasks_total;
    }

    /// Replaces the plan, recounts the tasks over the new phases and derives
    /// the current-phase label.
    pub fn merge_plan(&mut self, phases: Vec<PlanPhase>)
        requires
            total_tasks(phases_view(phases@)) <= usize::MAX,
        ensures
            final(self)@ == merge_plan_spec(old(self)@, phases_view(phases@)),
    {
        let ghost ps = phases_view(phases@);
        let mut total: usize = 0;
        let mut completed: usize = 0;
        let mut i: usize = 0;
        while i < phases.len()
            invariant
                ps == phases_view(phases@),
                total_tasks(ps) <= usize::MAX,
                i <= phases@.len(),
                total == total_tasks(ps.take(i as int)),
                completed == total_done(ps.take(i as int)),
            decreases phases.len() - i,
        {
            proof {
                assert(ps.take(i + 1).drop_last() =~= ps.take(i as int));
                lemma_total_tasks_prefix(ps, i + 1);
                lemma_total_done_bounded(ps.take(i + 1));
            }
            let d = phases[i].tasks_completed();
            total = total + phases[i].tasks.len();
            completed = completed + d;
            i += 1;
        }
        proof {
            assert(ps.take(i as int) =~= ps);
        }
        self.tasks_total = total;
        self.tasks_completed = completed;
        let mut j: usize = 0;
        while j < phases.len() && !(phases[j].status == PhaseStatus::Active || phases[j].status
            == PhaseStatus::Pending)
            invariant
                ps == phases_view(phases@),
                j <= phases@.len(),
                first_open_phase(ps) == first_open_phase(ps.skip(j as int)),
            decreases phases.len() - j,
        {
            proof {
                assert(ps.skip(j as int).drop_first() =~= ps.skip(j + 1));
                assert(ps.skip(j as int)[0] == ps[j as int]);
            }
            j += 1;
        }
        proof {
            if j < phases.len() {
                assert(ps.skip(j as int)[0] == ps[j as int]);
            } else {
                assert(ps.skip(j as int).len() == 0);
            }
        }
        let found: Option<usize> = if j < phases.len() {
            Some(j)
        } else {
            None
        };
        match found {
            Some(k) => {
                self.phase = phases[k].name.clone();
            },
            None => {
                if phases.len() > 0 {
                    self.phase = phases[phases.len() - 1].name.clone();
                }
            },
        }
        self.plan_phases = phases;
    }
}

pub proof fn lemma_total_tasks_prefix(ps: Seq<PhaseView>, i: int)
    requires
        0 <= i <= ps.len(),
    ensures
        total_tasks(ps.take(i)) <= total_tasks(ps),
    decreases ps.len() - i,
{
    if i < ps.len() {
        lemma_total_tasks_prefix(ps, i + 1);
        assert(ps.take(i + 1).drop_last() =~= ps.take(i));
    } else {
        assert(ps.take(i) =~= ps);
    }
}

impl Default for Track {
    /// An empty track: no key, no title, status New, priority Medium, no plan.
    fn default() -> (r: Track)
        ensures
            r@.id.len() == 0,
            r@.title.len() == 0,
            r@.status == Status::New,
            r@.priority == Priority::Medium,
            r@.track_type == TrackType::Other,
            r@.phase.len() == 0,
            r@.created_at is None,
            r@.updated_at is None,
            r@.dependencies.len() == 0,
            r@.tasks_total == 0,
            r@.tasks_completed == 0,
            r@.checkbox_status == CheckboxStatus::Unchecked,
            r@.plan_phases.len() == 0,
            r@.tags.len() == 0,
            r@.branch is None,
            r@.description is None,
    {
        Track {
            id: TrackId(String::new()),
            title: String::new(),
            status: Status::New,
            priority: Priority::Medium,
            track_type: TrackType::Other,
            phase: String::new(),
            created_at: None,
            updated_at: None,
            dependencies: Vec::new(),
            tasks_total: 0,
            tasks_completed: 0,
            checkbox_status: CheckboxStatus::Unchecked,
            plan_phases: Vec::new(),
            tags: Vec::new(),
            branch: None,
            description: None,
        }
    }
}

} // verus!
