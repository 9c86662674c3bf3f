use conductor_dashboard::model::{PhaseStatus, Priority, ReloadScope, Status, TrackCache, TrackType};
use conductor_dashboard::model::listing::shown_track_ids;
use conductor_dashboard::model::{FilterMode, TrackId};
use conductor_dashboard::parser::load::tracks_from_index;
use conductor_dashboard::parser::metadata::{metadata_from_json, metadata_from_yaml, RawJsonMetadata, RawYamlMetadata};

fn yaml(status: &str) -> RawYamlMetadata {
    RawYamlMetadata {
        name: None,
        status: Some(status.to_string()),
        priority: None,
        created: None,
        completed: None,
        branch: None,
        tags: Vec::new(),
        commits: Vec::new(),
    }
}

const TWO_TRACKS: &str = r#"# Tracks

## [x] Track: Alpha Feature ✅ COMPLETE
*Link: [./conductor/tracks/alpha_track/](./conductor/tracks/alpha_track/)*
**Priority**: High
**Status**: Completed

---

## [~] Track: Beta Enhancement
*Link: [./conductor/tracks/beta_track/](./conductor/tracks/beta_track/)*
**Priority**: Medium
**Status**: In_progress
**Tags**: backend, api
"#;

#[test]
fn index_creates_tracks_in_identity_order() {
    let set = tracks_from_index("## Track: Zed\n[l](./tracks/zed/)\n\n## Track: Abe\n[l](./tracks/abe/)\n\n## Track: No link\n");
    assert_eq!(set.len(), 2);
    assert_eq!(set.at(0).id.as_str(), "abe");
    assert_eq!(set.at(1).id.as_str(), "zed");
    assert!(set.get("zed").is_some());
    assert!(set.get("none").is_none());
}

#[test]
fn later_index_entry_with_same_identity_wins() {
    let set = tracks_from_index("## Track: First\n[l](./tracks/same/)\n\n## Track: Second\n[l](./tracks/same/)\n");
    assert_eq!(set.len(), 1);
    assert_eq!(set.at(0).title, "Second");
}

#[test]
fn status_field_overrides_checkbox() {
    let set = tracks_from_index("## [x] Track: T\n[l](./tracks/t/)\n**Status**: blocked\n\n## [x] Track: U\n[l](./tracks/u/)\n\n## [x] Track: V\n[l](./tracks/v/)\n**Status**: not_started\n");
    assert_eq!(set.get("t").unwrap().status, Status::Blocked);
    assert_eq!(set.get("u").unwrap().status, Status::Complete);
    assert_eq!(set.get("v").unwrap().status, Status::New);
}

#[test]
fn metadata_status_overrides_completed_index_entry() {
    let mut set = tracks_from_index(
        "## [x] Track: Done Here\n[l](./tracks/done_here/)\n**Status**: Completed\n",
    );
    assert_eq!(set.at(0).status, Status::Complete);
    set.merge_at(0, Some(metadata_from_yaml(yaml("in_progress"))), None);
    assert_eq!(set.at(0).status, Status::InProgress);
}

#[test]
fn plan_with_three_phases_gives_statuses_and_counts() {
    let mut set = tracks_from_index("## [~] Track: P\n[l](./tracks/p/)\n");
    let plan = "## Phase A\n- [x] a1\n- [x] a2\n\n## Phase B\n- [x] b1\n- [ ] b2\n- [ ] b3\n\n## Phase C\n- [ ] c1\n- [ ] c2\n";
    set.merge_at(0, None, Some(plan));
    let t = set.at(0);
    let statuses: Vec<PhaseStatus> = t.plan_phases.iter().map(|p| p.status).collect();
    assert_eq!(statuses, vec![PhaseStatus::Complete, PhaseStatus::Active, PhaseStatus::Pending]);
    assert_eq!((t.tasks_total, t.tasks_completed), (7, 3));
    assert_eq!(t.progress_percent_hundredths(), 4286);
    assert_eq!(t.phase, "Phase B");
}

#[test]
fn complete_track_shows_every_task_done() {
    let mut set = tracks_from_index("## [ ] Track: C\n[l](./tracks/c/)\n");
    let plan = "## Phase 1\n- [x] a\n- [ ] b\n\n## Phase 2\n- [ ] c\n";
    set.merge_at(0, Some(metadata_from_yaml(yaml("done"))), Some(plan));
    let t = set.at(0);
    assert_eq!(t.status, Status::Complete);
    assert_eq!(t.tasks_total, 3);
    assert_eq!(t.tasks_completed, t.tasks_total);
    assert!(t.plan_phases.iter().all(|p| p.status == PhaseStatus::Complete && p.tasks.iter().all(|k| k.done)));
}

#[test]
fn changed_paths_classify_to_partial_then_full() {
    let cache = TrackCache::new();
    let mut batch = vec!["/root/tracks/a/plan.md".to_string(), "/root/tracks/b/meta.yaml".to_string()];
    match cache.classify_changes(&batch) {
        ReloadScope::Tracks(ids) => {
            let names: Vec<&str> = ids.iter().map(|i| i.as_str()).collect();
            assert_eq!(names, vec!["a", "b"]);
        }
        ReloadScope::Full => panic!("expected Tracks scope"),
    }
    batch.push("/root/tracks.md".to_string());
    assert!(matches!(cache.classify_changes(&batch), ReloadScope::Full));
}

#[test]
fn synthetic_conductor_contents() {
    let mut set = tracks_from_index(TWO_TRACKS);
    assert_eq!(set.len(), 2);
    let alpha_meta = metadata_from_json(RawJsonMetadata {
        id: None,
        track_id: None,
        name: None,
        status: Some("complete".to_string()),
        priority: None,
        track_type: Some("feature".to_string()),
        created_at: Some("2026-01-15T10:00:00Z".to_string()),
        updated_at: None,
        start_date: None,
        end_date: None,
        dependencies: Vec::new(),
        tags: vec!["frontend".to_string()],
        branch: None,
        description: None,
        owner: None,
    });
    set.merge_at(0, Some(alpha_meta), Some("## Phase 1: Setup\n- [x] Create project\n- [x] Add deps\n\n## Phase 2: Build\n- [x] Implement core\n- [x] Write tests\n"));
    let beta_meta = metadata_from_yaml(RawYamlMetadata {
        name: Some("Beta Enhancement".to_string()),
        status: Some("in_progress".to_string()),
        priority: Some("high".to_string()),
        created: Some("2026-02-01".to_string()),
        completed: None,
        branch: Some("feat/beta".to_string()),
        tags: vec!["backend".to_string(), "api".to_string()],
        commits: Vec::new(),
    });
    set.merge_at(1, Some(beta_meta), Some("## Phase 1: Foundation\n- [x] Setup database\n- [x] Create models\n\n## Phase 2: API Layer\n- [x] Build endpoints\n- [ ] Add validation\n\n## Phase 3: Testing\n- [ ] Unit tests\n- [ ] Integration tests\n"));

    let alpha = set.get("alpha_track").unwrap();
    assert_eq!(alpha.title, "Alpha Feature");
    assert_eq!(alpha.status, Status::Complete);
    assert_eq!(alpha.track_type, TrackType::Feature);
    assert_eq!((alpha.tasks_total, alpha.tasks_completed), (4, 4));
    assert_eq!(alpha.progress_percent_hundredths(), 10000);
    assert_eq!(alpha.plan_phases.len(), 2);
    assert_eq!(alpha.tags, vec!["frontend"]);

    let beta = set.get("beta_track").unwrap();
    assert_eq!(beta.title, "Beta Enhancement");
    assert_eq!(beta.status, Status::InProgress);
    assert_eq!(beta.priority, Priority::High);
    assert_eq!((beta.tasks_total, beta.tasks_completed), (6, 3));
    assert_eq!(beta.progress_percent_hundredths(), 5000);
    assert_eq!(beta.branch.as_deref(), Some("feat/beta"));
    assert_eq!(beta.plan_phases[0].status, PhaseStatus::Complete);
    assert_eq!(beta.plan_phases[1].status, PhaseStatus::Active);
    assert_eq!(beta.plan_phases[2].status, PhaseStatus::Pending);
}

#[test]
fn list_view_filters_by_status_and_search() {
    let set = tracks_from_index(
        "## [x] Track: Billing Export\n[l](./tracks/billing/)\n\n## [~] Track: Search UI\n[l](./tracks/search_ui/)\n\n## [~] Track: Reports\n[l](./tracks/reports/)\n",
    );
    let names = |ids: Vec<TrackId>| -> Vec<String> {
        ids.iter().map(|i| i.as_str().to_string()).collect()
    };
    assert_eq!(names(shown_track_ids(&set, FilterMode::All, "")), vec!["billing", "reports", "search_ui"]);
    assert_eq!(names(shown_track_ids(&set, FilterMode::Active, "")), vec!["reports", "search_ui"]);
    assert_eq!(names(shown_track_ids(&set, FilterMode::All, "EXPORT")), vec!["billing"]);
    assert_eq!(names(shown_track_ids(&set, FilterMode::Active, "_ui")), vec!["search_ui"]);
    assert!(shown_track_ids(&set, FilterMode::Blocked, "").is_empty());
}
