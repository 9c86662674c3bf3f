//! Implementation plans: phases opened by level-two or level-three headings
//! that mention "phase", each holding the checklist items that follow it.
use vstd::prelude::*;

use pulldown_cmark::{HeadingLevel, TagEnd};

use crate::model::enums::PhaseStatus;
use crate::model::track::{phases_view, tasks_view, total_tasks, PhaseView, PlanPhase, PlanTask, TaskView};
use crate::parser::markdown::{events_of, markdown_events, MdEvent};
use crate::text::{
    append_chars, chars_of, contains, contains_text, copy_range, lower, lower_chars, starts_with,
    starts_with_text, string_of, trim, trim_chars,
};

verus! {

/// Task text without surrounding whitespace or a leading `Task:` label.
pub open spec fn clean_task(t: Seq<char>) -> Seq<char> {
    let a = trim(t);
    trim(
        if starts_with(a, "Task:"@) {
            a.skip("Task:"@.len() as int)
        } else {
            a
        },
    )
}

/// Whether a heading's text names a phase: it mentions "phase" in any case.
pub open spec fn is_phase_name(name: Seq<char>) -> bool {
    contains(lower(name), "phase"@)
}

/// Whether an end tag closes a heading of level two or three.
pub open spec fn is_phase_level(t: TagEnd) -> bool {
    t == TagEnd::Heading(HeadingLevel::H2) || t == TagEnd::Heading(HeadingLevel::H3)
}

pub open spec fn is_heading(t: TagEnd) -> bool {
    t is Heading
}

/// Whether a tag opens a block: content nested under a checklist item in
/// such a block is not part of the item's text.
pub open spec fn opens_block(t: TagEnd) -> bool {
    t is Paragraph || t is BlockQuote || t is CodeBlock || t is HtmlBlock || t is List || t is Item
        || t is FootnoteDefinition || t is DefinitionList || t is DefinitionListTitle
        || t is DefinitionListDefinition || t is Table || t is MetadataBlock
}

fn opens_block_exec(t: &TagEnd) -> (r: bool)
    ensures
        r == opens_block(*t),
{
    match t {
        TagEnd::Paragraph | TagEnd::BlockQuote(_) | TagEnd::CodeBlock | TagEnd::HtmlBlock
        | TagEnd::List(_) | TagEnd::Item | TagEnd::FootnoteDefinition | TagEnd::DefinitionList
        | TagEnd::DefinitionListTitle | TagEnd::DefinitionListDefinition | TagEnd::Table
        | TagEnd::MetadataBlock(_) => true,
        _ => false,
    }
}

/// Where a walk over a plan's events stands.
pub struct PlanScanView {
    pub phases: Seq<PhaseView>,
    pub in_heading: bool,
    pub heading_text: Seq<char>,
    pub in_task: bool,
    pub task_text: Seq<char>,
    pub task_done: bool,
}

pub open spec fn plan_start() -> PlanScanView {
    PlanScanView {
        phases: Seq::empty(),
        in_heading: false,
        heading_text: Seq::empty(),
        in_task: false,
        task_text: Seq::empty(),
        task_done: false,
    }
}

pub open spec fn new_phase(name: Seq<char>) -> PhaseView {
    PhaseView { name, status: PhaseStatus::Pending, tasks: Seq::empty() }
}

/// `ps` with a task added to its last phase; with no phase yet, a phase named
/// "Tasks" is opened first.
pub open spec fn add_task(ps: Seq<PhaseView>, t: TaskView) -> Seq<PhaseView> {
    let qs = if ps.len() == 0 {
        seq![new_phase("Tasks"@)]
    } else {
        ps
    };
    qs.update(qs.len() - 1, PhaseView { tasks: qs.last().tasks.push(t), ..qs.last() })
}

/// Closes the open checklist item, if any; an item whose cleaned text is
/// empty is dropped.
pub open spec fn flush_task_spec(st: PlanScanView) -> PlanScanView {
    if !st.in_task {
        st
    } else {
        let text = clean_task(st.task_text);
        PlanScanView {
            phases: if text.len() == 0 {
                st.phases
            } else {
                add_task(st.phases, TaskView { text, done: st.task_done })
            },
            in_task: false,
            task_text: Seq::empty(),
            ..st
        }
    }
}

/// Text that goes to the open heading, else to the open checklist item.
pub open spec fn plan_text(st: PlanScanView, t: Seq<char>) -> PlanScanView {
    if st.in_heading {
        PlanScanView { heading_text: st.heading_text + t, ..st }
    } else if st.in_task {
        PlanScanView { task_text: st.task_text + t, ..st }
    } else {
        st
    }
}

/// One event of a plan: a heading closes the open checklist item and, at
/// level two or three with "phase" in it, opens a phase; a task-list marker
/// opens an item; the end of a list item or the start of a block nested in
/// it closes the item; text, code spans and line breaks go to the open
/// heading or item.
pub open spec fn plan_step(st: PlanScanView, e: MdEvent) -> PlanScanView {
    match e {
        MdEvent::Start(t) => if is_heading(t) {
            PlanScanView { in_heading: true, heading_text: Seq::empty(), ..flush_task_spec(st) }
        } else if opens_block(t) {
            flush_task_spec(st)
        } else {
            st
        },
        MdEvent::End(t) => if is_heading(t) {
            let name = trim(st.heading_text);
            if is_phase_level(t) && is_phase_name(name) {
                PlanScanView { in_heading: false, phases: st.phases.push(new_phase(name)), ..st }
            } else {
                PlanScanView { in_heading: false, ..st }
            }
        } else if t == TagEnd::Item {
            flush_task_spec(st)
        } else {
            st
        },
        MdEvent::TaskListMarker(b) => PlanScanView {
            in_task: true,
            task_done: b,
            task_text: Seq::empty(),
            ..flush_task_spec(st)
        },
        MdEvent::Text(t) => plan_text(st, t@),
        MdEvent::Code(c) => if st.in_heading {
            plan_text(st, c@)
        } else {
            plan_text(st, seq!['`'] + c@ + seq!['`'])
        },
        MdEvent::SoftBreak => plan_text(st, seq![' ']),
        MdEvent::HardBreak => plan_text(st, seq![' ']),
        _ => st,
    }
}

pub open spec fn plan_scan(events: Seq<MdEvent>) -> PlanScanView
    decreases events.len(),
{
    if events.len() == 0 {
        plan_start()
    } else {
        plan_step(plan_scan(events.drop_last()), events.last())
    }
}

pub open spec fn all_done(ts: Seq<TaskView>) -> bool {
    forall|k: int| 0 <= k < ts.len() ==> #[trigger] ts[k].done
}

/// A phase with tasks of which some are not done.
pub open spec fn unfinished(p: PhaseView) -> bool {
    p.tasks.len() > 0 && !all_done(p.tasks)
}

/// The status of phase `i`: Pending with no tasks, Complete with every task
/// done, Active for the first phase with tasks left to do, Pending otherwise.
pub open spec fn derived_status(ps: Seq<PhaseView>, i: int) -> PhaseStatus {
    if ps[i].tasks.len() == 0 {
        PhaseStatus::Pending
    } else if all_done(ps[i].tasks) {
        PhaseStatus::Complete
    } else if forall|j: int| 0 <= j < i ==> !unfinished(#[trigger] ps[j]) {
        PhaseStatus::Active
    } else {
        PhaseStatus::Pending
    }
}

/// The phases with their derived statuses.
pub open spec fn with_statuses(ps: Seq<PhaseView>) -> Seq<PhaseView> {
    Seq::new(ps.len(), |i: int| PhaseView { status: derived_status(ps, i), ..ps[i] })
}

/// The phases a plan's events give, in document order, with statuses derived.
pub open spec fn plan_phases(events: Seq<MdEvent>) -> Seq<PhaseView> {
    with_statuses(flush_task_spec(plan_scan(events)).phases)
}

/// Tasks counted so far, the open checklist item included.
pub open spec fn tasks_seen(st: PlanScanView) -> nat {
    total_tasks(st.phases) + if st.in_task {
        1nat
    } else {
        0nat
    }
}

pub proof fn lemma_total_tasks_same_lens(a: Seq<PhaseView>, b: Seq<PhaseView>)
    requires
        a.len() == b.len(),
        forall|i: int| 0 <= i < a.len() ==> #[trigger] a[i].tasks.len() == b[i].tasks.len(),
    ensures
        total_tasks(a) == total_tasks(b),
    decreases a.len(),
{
    if a.len() > 0 {
        lemma_total_tasks_same_lens(a.drop_last(), b.drop_last());
    }
}

pub proof fn lemma_add_task_total(ps: Seq<PhaseView>, t: TaskView)
    ensures
        total_tasks(add_task(ps, t)) == total_tasks(ps) + 1,
{
    let qs = if ps.len() == 0 {
        seq![new_phase("Tasks"@)]
    } else {
        ps
    };
    if ps.len() == 0 {
        assert(qs.drop_last() =~= Seq::<PhaseView>::empty());
        assert(total_tasks(qs.drop_last()) == 0);
        assert(qs.last().tasks.len() == 0);
        assert(total_tasks(qs) == 0);
    }
    let u = add_task(ps, t);
    assert(u.drop_last() =~= qs.drop_last());
}

pub proof fn lemma_flush_bound(st: PlanScanView)
    ensures
        tasks_seen(flush_task_spec(st)) <= tasks_seen(st),
        !flush_task_spec(st).in_task,
{
    if st.in_task {
        let text = clean_task(st.task_text);
        if text.len() > 0 {
            lemma_add_task_total(st.phases, TaskView { text, done: st.task_done });
        }
    }
}

pub proof fn lemma_plan_step_bound(st: PlanScanView, e: MdEvent)
    ensures
        tasks_seen(plan_step(st, e)) <= tasks_seen(st) + 1,
{
    lemma_flush_bound(st);
    match e {
        MdEvent::End(t) => if is_heading(t) {
            let name = trim(st.heading_text);
            if is_phase_level(t) && is_phase_name(name) {
                assert(st.phases.push(new_phase(name)).drop_last() =~= st.phases);
            }
        },
        _ => {},
    }
}

pub proof fn lemma_with_statuses_total(ps: Seq<PhaseView>)
    ensures
        total_tasks(with_statuses(ps)) == total_tasks(ps),
{
    lemma_total_tasks_same_lens(with_statuses(ps), ps);
}

/// Strips surrounding whitespace and a leading `Task:` label.
pub fn clean_task_text(text: &str) -> (r: String)
    ensures
        r@ == clean_task(text@),
{
    let v = chars_of(text);
    let c = clean_task_chars(&v);
    string_of(&c)
}

fn clean_task_chars(v: &Vec<char>) -> (r: Vec<char>)
    ensures
        r@ == clean_task(v@),
{
    let a = trim_chars(v);
    if starts_with_text(&a, "Task:") {
        let label = chars_of("Task:");
        let n = a.len();
        proof {
            assert(label@.len() <= a@.len());
        }
        let b = copy_range(&a, label.len(), n);
        proof {
            assert(b@ =~= a@.skip("Task:"@.len() as int));
        }
        trim_chars(&b)
    } else {
        trim_chars(&a)
    }
}

/// Whether a heading's text names a phase.
pub fn is_phase_heading(name: &str) -> (r: bool)
    ensures
        r == is_phase_name(name@),
{
    let v = chars_of(name);
    let l = lower_chars(&v);
    contains_text(&l, "phase")
}

struct PlanScan {
    phases: Vec<PlanPhase>,
    in_heading: bool,
    heading_text: Vec<char>,
    in_task: bool,
    task_text: Vec<char>,
    task_done: bool,
}

impl View for PlanScan {
    type V = PlanScanView;

    closed spec fn view(&self) -> PlanScanView {
        PlanScanView {
            phases: phases_view(self.phases@),
            in_heading: self.in_heading,
            heading_text: self.heading_text@,
            in_task: self.in_task,
            task_text: self.task_text@,
            task_done: self.task_done,
        }
    }
}

fn add_task_exec(phases: &mut Vec<PlanPhase>, t: PlanTask)
    ensures
        phases_view(final(phases)@) == add_task(phases_view(old(phases)@), t@),
{
    if phases.len() == 0 {
        let name = chars_of("Tasks");
        phases.push(PlanPhase { name: string_of(&name), status: PhaseStatus::Pending, tasks: Vec::new() });
        proof {
            assert(tasks_view(phases@[0].tasks@) =~= Seq::<TaskView>::empty());
            assert(phases_view(phases@) =~= seq![new_phase("Tasks"@)]);
        }
    }
    let ghost before = phases_view(phases@);
    let mut last = phases.pop().unwrap();
    let ghost last_tasks = tasks_view(last.tasks@);
    last.tasks.push(t);
    proof {
        assert(tasks_view(last.tasks@) =~= last_tasks.push(t@));
    }
    phases.push(last);
    proof {
        assert(phases_view(phases@) =~= before.update(
            before.len() - 1,
            PhaseView { tasks: before.last().tasks.push(t@), ..before.last() },
        ));
    }
}

/// Closes the open checklist item into the last phase.
fn flush_task(st: &mut PlanScan)
    ensures
        final(st)@ == flush_task_spec(old(st)@),
{
    if !st.in_task {
        return;
    }
    let text = clean_task_chars(&st.task_text);
    if text.len() > 0 {
        add_task_exec(&mut st.phases, PlanTask { text: string_of(&text), done: st.task_done });
    }
    st.in_task = false;
    st.task_text = Vec::new();
}

fn plan_text_exec(st: &mut PlanScan, t: &Vec<char>)
    ensures
        final(st)@ == plan_text(old(st)@, t@),
{
    if st.in_heading {
        append_chars(&mut st.heading_text, t);
    } else if st.in_task {
        append_chars(&mut st.task_text, t);
    }
}

fn plan_step_exec(st: &mut PlanScan, e: &MdEvent)
    ensures
        final(st)@ == plan_step(old(st)@, *e),
{
    match e {
        MdEvent::Start(t) => {
            if matches!(t, TagEnd::Heading(_)) {
                flush_task(st);
                st.in_heading = true;
                st.heading_text = Vec::new();
            } else if opens_block_exec(t) {
                flush_task(st);
            }
        },
        MdEvent::End(t) => {
            if matches!(t, TagEnd::Heading(_)) {
                st.in_heading = false;
                let name = trim_chars(&st.heading_text);
                let level_ok = matches!(t, TagEnd::Heading(HeadingLevel::H2))
                    || matches!(t, TagEnd::Heading(HeadingLevel::H3));
                if level_ok {
                    let l = lower_chars(&name);
                    if contains_text(&l, "phase") {
                        let ghost before = phases_view(st.phases@);
                        st.phases.push(PlanPhase { name: string_of(&name), status: PhaseStatus::Pending, tasks: Vec::new() });
                        proof {
                            assert(tasks_view(Seq::<PlanTask>::empty()) =~= Seq::<TaskView>::empty());
                            assert(phases_view(st.phases@) =~= before.push(new_phase(name@)));
                        }
                    }
                }
            } else if matches!(t, TagEnd::Item) {
                flush_task(st);
            }
        },
        MdEvent::TaskListMarker(b) => {
            flush_task(st);
            st.in_task = true;
            st.task_done = *b;
            st.task_text = Vec::new();
        },
        MdEvent::Text(t) => {
            let v = chars_of(t.as_str());
            plan_text_exec(st, &v);
        },
        MdEvent::Code(c) => {
            let v = chars_of(c.as_str());
            if st.in_heading {
                plan_text_exec(st, &v);
            } else {
                let mut w: Vec<char> = Vec::new();
                w.push('`');
                append_chars(&mut w, &v);
                w.push('`');
                proof {
                    assert(w@ =~= seq!['`'] + v@ + seq!['`']);
                }
                plan_text_exec(st, &w);
            }
        },
        MdEvent::SoftBreak | MdEvent::HardBreak => {
            let mut w: Vec<char> = Vec::new();
            w.push(' ');
            proof {
                assert(w@ =~= seq![' ']);
            }
            plan_text_exec(st, &w);
        },
        _ => {},
    }
}

fn all_tasks_done(ts: &Vec<PlanTask>) -> (r: bool)
    ensures
        r == all_done(tasks_view(ts@)),
{
    let mut i: usize = 0;
    while i < ts.len()
        invariant
            i <= ts@.len(),
            forall|k: int| 0 <= k < i ==> #[trigger] ts@[k].done,
        decreases ts.len() - i,
    {
        if !ts[i].done {
            proof {
                assert(!tasks_view(ts@)[i as int].done);
            }
            return false;
        }
        i += 1;
    }
    proof {
        assert forall|k: int| 0 <= k < tasks_view(ts@).len() implies #[trigger] tasks_view(ts@)[k].done by {
            assert(ts@[k].done);
        }
    }
    true
}

/// Sets every phase's status from its tasks and its place in the plan: no
/// tasks gives Pending, all done gives Complete, the first phase with tasks
/// left gives Active, and later ones with tasks left stay Pending.
pub fn compute_phase_statuses(phases: &mut Vec<PlanPhase>)
    ensures
        phases_view(final(phases)@) == with_statuses(phases_view(old(phases)@)),
{
    let ghost orig = phases_view(phases@);
    let n = phases.len();
    let mut found_active = false;
    let mut i: usize = 0;
    while i < n
        invariant
            n == orig.len(),
            phases@.len() == n,
            i <= n,
            forall|k: int| 0 <= k < i ==> #[trigger] phases@[k]@ == with_statuses(orig)[k],
            forall|k: int| i <= k < n ==> #[trigger] phases@[k]@ == orig[k],
            found_active == exists|j: int| 0 <= j < i && unfinished(#[trigger] orig[j]),
        decreases n - i,
    {
        let mut p = phases.remove(i);
        proof {
            assert(p@ == orig[i as int]);
        }
        let empty = p.tasks.len() == 0;
        let done = all_tasks_done(&p.tasks);
        let ghost was_found = found_active;
        let s = if empty {
            PhaseStatus::Pending
        } else if done {
            PhaseStatus::Complete
        } else if !found_active {
            found_active = true;
            PhaseStatus::Active
        } else {
            PhaseStatus::Pending
        };
        proof {
            if !was_found {
                assert forall|j: int| 0 <= j < i implies !unfinished(#[trigger] orig[j]) by {}
            } else {
                let j = choose|j: int| 0 <= j < i && unfinished(#[trigger] orig[j]);
                assert(0 <= j < i && unfinished(orig[j]));
            }
            assert(s == derived_status(orig, i as int));
            if found_active {
                if !was_found {
                    assert(unfinished(orig[i as int]));
                }
            } else {
                assert(!unfinished(orig[i as int]));
            }
        }
        p.status = s;
        phases.insert(i, p);
        i += 1;
    }
    proof {
        assert(phases_view(phases@) =~= with_statuses(orig));
    }
}

/// The phases that a plan's events give, statuses derived.
pub fn phases_from_events(events: &Vec<MdEvent>) -> (r: Vec<PlanPhase>)
    ensures
        phases_view(r@) == plan_phases(events@),
        total_tasks(phases_view(r@)) <= events@.len(),
{
    let mut st = PlanScan {
        phases: Vec::new(),
        in_heading: false,
        heading_text: Vec::new(),
        in_task: false,
        task_text: Vec::new(),
        task_done: false,
    };
    proof {
        assert(events@.take(0) =~= Seq::<MdEvent>::empty());
        assert(phases_view(st.phases@) =~= Seq::<PhaseView>::empty());
        assert(st@ == plan_start());
    }
    let mut i: usize = 0;
    while i < events.len()
        invariant
            i <= events@.len(),
            st@ == plan_scan(events@.take(i as int)),
            tasks_seen(st@) <= i,
        decreases events.len() - i,
    {
        proof {
            assert(events@.take(i + 1).drop_last() =~= events@.take(i as int));
            lemma_plan_step_bound(st@, events@[i as int]);
        }
        plan_step_exec(&mut st, &events[i]);
        i += 1;
    }
    proof {
        assert(events@.take(i as int) =~= events@);
        lemma_flush_bound(st@);
    }
    flush_task(&mut st);
    let mut phases = st.phases;
    proof {
        assert(phases_view(phases@) == st@.phases);
    }
    compute_phase_statuses(&mut phases);
    proof {
        lemma_with_statuses_total(flush_task_spec(plan_scan(events@)).phases);
    }
    phases
}

/// The phases of a plan document, in document order.
pub fn parse_plan_content(content: &str) -> (r: Vec<PlanPhase>)
    ensures
        phases_view(r@) == plan_phases(events_of(content@)),
        total_tasks(phases_view(r@)) <= usize::MAX,
{
    let events = markdown_events(content);
    let n = events.len();
    let r = phases_from_events(&events);
    proof {
        assert(events@.len() == n);
    }
    r
}

} // verus!
