use conductor_dashboard::model::{
    CheckboxStatus, FilterMode, PhaseStatus, PlanPhase, PlanTask, Priority, SortMode, Status,
    Track, TrackId, TrackMetadata, TrackType,
};

fn task(text: &str, done: bool) -> PlanTask {
    PlanTask { text: text.to_string(), done }
}

#[test]
fn test_filter_mode_cycles() {
    assert_eq!(FilterMode::All.next(), FilterMode::Active);
    assert_eq!(FilterMode::Active.next(), FilterMode::Blocked);
    assert_eq!(FilterMode::Blocked.next(), FilterMode::Complete);
    assert_eq!(FilterMode::Complete.next(), FilterMode::All);
}

#[test]
fn test_sort_mode_toggles() {
    assert_eq!(SortMode::Updated.next(), SortMode::Progress);
    assert_eq!(SortMode::Progress.next(), SortMode::Updated);
}

#[test]
fn test_status_from_str_loose() {
    assert_eq!(Status::from_str_loose("complete"), Status::Complete);
    assert_eq!(Status::from_str_loose("Completed"), Status::Complete);
    assert_eq!(Status::from_str_loose("DONE"), Status::Complete);
    assert_eq!(Status::from_str_loose("in_progress"), Status::InProgress);
    assert_eq!(Status::from_str_loose("in-progress"), Status::InProgress);
    assert_eq!(Status::from_str_loose("active"), Status::InProgress);
    assert_eq!(Status::from_str_loose("implementation"), Status::InProgress);
    assert_eq!(Status::from_str_loose("blocked"), Status::Blocked);
    assert_eq!(Status::from_str_loose("on_hold"), Status::Blocked);
    assert_eq!(Status::from_str_loose("not_started"), Status::New);
    assert_eq!(Status::from_str_loose("new"), Status::New);
    assert_eq!(Status::from_str_loose("planning"), Status::New);
    assert_eq!(Status::from_str_loose("planned"), Status::New);
    assert_eq!(Status::from_str_loose("unknown_value"), Status::New);
    assert_eq!(Status::from_str_loose(""), Status::New);
}

#[test]
fn status_words_ignore_case_and_surrounding_space() {
    assert_eq!(Status::from_str_loose("  In_Progress \t"), Status::InProgress);
    assert_eq!(Status::from_str_loose("\u{a0}Blocked\u{3000}"), Status::Blocked);
    assert_eq!(Status::from_str_loose("Completed (2026-02-06)"), Status::New);
}

#[test]
fn test_priority_from_str_loose() {
    assert_eq!(Priority::from_str_loose("critical"), Priority::Critical);
    assert_eq!(Priority::from_str_loose("high"), Priority::High);
    assert_eq!(Priority::from_str_loose("medium"), Priority::Medium);
    assert_eq!(Priority::from_str_loose("med"), Priority::Medium);
    assert_eq!(Priority::from_str_loose("low"), Priority::Low);
    assert_eq!(Priority::from_str_loose("unknown"), Priority::Medium);
}

#[test]
fn test_track_type_from_str_loose() {
    assert_eq!(TrackType::from_str_loose("feature"), TrackType::Feature);
    assert_eq!(TrackType::from_str_loose("feat"), TrackType::Feature);
    assert_eq!(TrackType::from_str_loose("bug"), TrackType::Bug);
    assert_eq!(TrackType::from_str_loose("bugfix"), TrackType::Bug);
    assert_eq!(TrackType::from_str_loose("fix"), TrackType::Bug);
    assert_eq!(TrackType::from_str_loose("migration"), TrackType::Migration);
    assert_eq!(TrackType::from_str_loose("refactor"), TrackType::Refactor);
    assert_eq!(TrackType::from_str_loose("other"), TrackType::Other);
}

#[test]
fn track_type_more_spellings() {
    assert_eq!(TrackType::from_str_loose(" MIGRATE "), TrackType::Migration);
    assert_eq!(TrackType::from_str_loose("Refactoring"), TrackType::Refactor);
    assert_eq!(TrackType::Other.label(), "TRACK");
    assert_eq!(TrackType::Bug.label(), "BUG");
}

#[test]
fn test_checkbox_to_status() {
    assert_eq!(CheckboxStatus::Unchecked.to_status(), Status::New);
    assert_eq!(CheckboxStatus::InProgress.to_status(), Status::InProgress);
    assert_eq!(CheckboxStatus::Checked.to_status(), Status::Complete);
}

#[test]
fn test_track_progress_zero_tasks() {
    let track = Track::default();
    assert_eq!(track.progress_percent_hundredths(), 0);
}

#[test]
fn test_track_progress_partial() {
    let track = Track { tasks_total: 10, tasks_completed: 3, ..Track::default() };
    assert_eq!(track.progress_percent_hundredths(), 3000);
}

#[test]
fn test_track_progress_full() {
    let track = Track { tasks_total: 5, tasks_completed: 5, ..Track::default() };
    assert_eq!(track.progress_percent_hundredths(), 10000);
}

#[test]
fn progress_rounds_half_up_in_hundredths() {
    let track = Track { tasks_total: 7, tasks_completed: 3, ..Track::default() };
    assert_eq!(track.progress_percent_hundredths(), 4286);
    let third = Track { tasks_total: 3, tasks_completed: 1, ..Track::default() };
    assert_eq!(third.progress_percent_hundredths(), 3333);
}

#[test]
fn test_track_is_complete_by_status() {
    let track = Track { status: Status::Complete, ..Track::default() };
    assert!(track.is_complete());
}

#[test]
fn test_track_is_complete_by_tasks() {
    let track = Track {
        status: Status::InProgress,
        tasks_total: 5,
        tasks_completed: 5,
        ..Track::default()
    };
    assert!(track.is_complete());
}

#[test]
fn test_track_not_complete() {
    let track = Track {
        status: Status::InProgress,
        tasks_total: 5,
        tasks_completed: 3,
        ..Track::default()
    };
    assert!(!track.is_complete());
}

#[test]
fn test_merge_metadata_overrides_non_defaults() {
    let mut track = Track {
        id: TrackId::new("test"),
        title: "Test Track".to_string(),
        status: Status::New,
        priority: Priority::Medium,
        ..Track::default()
    };
    let meta = TrackMetadata {
        status: Status::InProgress,
        priority: Priority::High,
        track_type: TrackType::Feature,
        branch: Some("feat/test".to_string()),
        tags: vec!["backend".to_string()],
        ..TrackMetadata::default()
    };
    track.merge_metadata(meta);
    assert_eq!(track.status, Status::InProgress);
    assert_eq!(track.priority, Priority::High);
    assert_eq!(track.track_type, TrackType::Feature);
    assert_eq!(track.branch.as_deref(), Some("feat/test"));
    assert_eq!(track.tags, vec!["backend"]);
}

#[test]
fn test_merge_metadata_keeps_defaults_when_meta_is_default() {
    let mut track = Track {
        status: Status::Complete,
        priority: Priority::Critical,
        ..Track::default()
    };
    let meta = TrackMetadata::default();
    track.merge_metadata(meta);
    assert_eq!(track.status, Status::Complete);
    assert_eq!(track.priority, Priority::Critical);
}

#[test]
fn merge_metadata_twice_is_merge_once() {
    let meta = || TrackMetadata {
        status: Status::Blocked,
        dependencies: vec!["a".to_string(), "a".to_string()],
        description: Some("why".to_string()),
        ..TrackMetadata::default()
    };
    let mut once = Track { tags: vec!["x".to_string()], ..Track::default() };
    once.merge_metadata(meta());
    let mut twice = Track { tags: vec!["x".to_string()], ..Track::default() };
    twice.merge_metadata(meta());
    twice.merge_metadata(meta());
    assert_eq!(once.status, twice.status);
    assert_eq!(once.dependencies, twice.dependencies);
    assert_eq!(twice.dependencies, vec![TrackId::new("a"), TrackId::new("a")]);
    assert_eq!(twice.tags, vec!["x"]);
    assert_eq!(twice.description.as_deref(), Some("why"));
}

#[test]
fn test_merge_plan_updates_task_counts() {
    let mut track = Track::default();
    let phases = vec![
        PlanPhase {
            name: "Phase 1".to_string(),
            status: PhaseStatus::Complete,
            tasks: vec![task("A", true), task("B", true)],
        },
        PlanPhase {
            name: "Phase 2".to_string(),
            status: PhaseStatus::Active,
            tasks: vec![task("C", true), task("D", false), task("E", false)],
        },
    ];
    track.merge_plan(phases);
    assert_eq!(track.tasks_total, 5);
    assert_eq!(track.tasks_completed, 3);
    assert_eq!(track.plan_phases.len(), 2);
    assert_eq!(track.phase, "Phase 2");
}

#[test]
fn merge_plan_replaces_earlier_counts() {
    let mut track = Track { tasks_total: 40, tasks_completed: 20, phase: "Old".to_string(), ..Track::default() };
    track.merge_plan(vec![PlanPhase {
        name: "Only".to_string(),
        status: PhaseStatus::Complete,
        tasks: vec![task("A", true)],
    }]);
    assert_eq!(track.tasks_total, 1);
    assert_eq!(track.tasks_completed, 1);
    assert_eq!(track.phase, "Only");
    track.merge_plan(Vec::new());
    assert_eq!(track.tasks_total, 0);
    assert_eq!(track.phase, "Only");
}

#[test]
fn mark_all_tasks_complete_ticks_every_task() {
    let mut track = Track::default();
    track.merge_plan(vec![PlanPhase {
        name: "Phase 1".to_string(),
        status: PhaseStatus::Active,
        tasks: vec![task("A", false), task("B", true)],
    }]);
    track.mark_all_tasks_complete();
    assert_eq!(track.tasks_completed, 2);
    assert!(track.plan_phases[0].tasks.iter().all(|t| t.done));
    assert_eq!(track.plan_phases[0].status, PhaseStatus::Complete);
}

#[test]
fn test_plan_phase_progress_empty() {
    let phase = PlanPhase { name: "Empty".to_string(), status: PhaseStatus::Pending, tasks: Vec::new() };
    assert_eq!(phase.tasks_completed(), 0);
}

#[test]
fn test_plan_phase_progress_partial() {
    let phase = PlanPhase {
        name: "Partial".to_string(),
        status: PhaseStatus::Active,
        tasks: vec![task("A", true), task("B", false), task("C", false), task("D", false)],
    };
    assert_eq!(phase.tasks_completed(), 1);
}

#[test]
fn test_status_labels() {
    assert_eq!(Status::New.label(), "New");
    assert_eq!(Status::InProgress.label(), "Active");
    assert_eq!(Status::Blocked.label(), "Blocked");
    assert_eq!(Status::Complete.label(), "Complete");
}

#[test]
fn test_priority_labels() {
    assert_eq!(Priority::Critical.label(), "CRITICAL");
    assert_eq!(Priority::High.label(), "HIGH");
    assert_eq!(Priority::Medium.label(), "MEDIUM");
    assert_eq!(Priority::Low.label(), "LOW");
}

#[test]
fn test_filter_mode_labels() {
    assert_eq!(FilterMode::All.label(), "All");
    assert_eq!(FilterMode::Active.label(), "Active");
    assert_eq!(FilterMode::Blocked.label(), "Blocked");
    assert_eq!(FilterMode::Complete.label(), "Done");
}

#[test]
fn test_sort_mode_labels() {
    assert_eq!(SortMode::Updated.label(), "Recent");
    assert_eq!(SortMode::Progress.label(), "Progress");
}

#[test]
fn phase_status_labels() {
    assert_eq!(PhaseStatus::Pending.label(), "Pending");
    assert_eq!(PhaseStatus::Active.label(), "Active");
}

#[test]
fn test_track_id_display() {
    let id = TrackId::new("my_track_123");
    assert_eq!(id.to_string(), "my_track_123");
    assert_eq!(id.as_str(), "my_track_123");
}

#[test]
fn test_track_id_from_string() {
    let id: TrackId = "test_track".into();
    assert_eq!(id.as_str(), "test_track");
    let id2: TrackId = String::from("another").into();
    assert_eq!(id2.as_str(), "another");
}

#[test]
fn test_priority_ordering() {
    assert!(Priority::Critical < Priority::High);
    assert!(Priority::High < Priority::Medium);
    assert!(Priority::Medium < Priority::Low);
}
