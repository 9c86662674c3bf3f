use conductor_dashboard::model::{CheckboxStatus, PhaseStatus, Priority, Status, TrackType};
use conductor_dashboard::parser::datetime::parse_datetime;
use conductor_dashboard::parser::index::{
    extract_track_id_from_link, parse_h2_heading, parse_index_content,
};
use conductor_dashboard::parser::metadata::{
    metadata_from_json, metadata_from_yaml, RawJsonMetadata, RawYamlMetadata,
};
use conductor_dashboard::parser::plan::{clean_task_text, is_phase_heading, parse_plan_content};

fn s(x: &str) -> Option<String> {
    Some(x.to_string())
}

fn empty_json() -> RawJsonMetadata {
    RawJsonMetadata {
        id: None,
        track_id: None,
        name: None,
        status: None,
        priority: None,
        track_type: None,
        created_at: None,
        updated_at: None,
        start_date: None,
        end_date: None,
        dependencies: Vec::new(),
        tags: Vec::new(),
        branch: None,
        description: None,
        owner: None,
    }
}

fn empty_yaml() -> RawYamlMetadata {
    RawYamlMetadata {
        name: None,
        status: None,
        priority: None,
        created: None,
        completed: None,
        branch: None,
        tags: Vec::new(),
        commits: Vec::new(),
    }
}

#[test]
fn test_parse_h2_checked() {
    let entry = parse_h2_heading("[x] Track: Dashboard UI Overhaul ✅ COMPLETE").unwrap();
    assert_eq!(entry.checkbox, CheckboxStatus::Checked);
    assert_eq!(entry.title, "Dashboard UI Overhaul");
}

#[test]
fn test_parse_h2_unchecked() {
    let entry = parse_h2_heading("[ ] Track: Compliance Workflow Enhancements").unwrap();
    assert_eq!(entry.checkbox, CheckboxStatus::Unchecked);
    assert_eq!(entry.title, "Compliance Workflow Enhancements");
}

#[test]
fn test_parse_h2_in_progress() {
    let entry = parse_h2_heading("[~] Track: Chatbot Robustness Hardening").unwrap();
    assert_eq!(entry.checkbox, CheckboxStatus::InProgress);
    assert_eq!(entry.title, "Chatbot Robustness Hardening");
}

#[test]
fn test_parse_h2_dash_progress() {
    let entry = parse_h2_heading(
        "[-] Track: Security & Authentication Hardening - IN PROGRESS (3/5 findings)",
    )
    .unwrap();
    assert_eq!(entry.checkbox, CheckboxStatus::InProgress);
    assert_eq!(entry.title, "Security & Authentication Hardening - IN PROGRESS (3/5 findings)");
}

#[test]
fn test_parse_h2_no_track_marker() {
    assert!(parse_h2_heading("Autopsy Remediation Tracks (2026-02-12)").is_none());
}

#[test]
fn heading_without_title_gives_no_entry() {
    assert!(parse_h2_heading("[x] Track:   ✅ COMPLETE").is_none());
    let e = parse_h2_heading("Track: Bare").unwrap();
    assert_eq!(e.checkbox, CheckboxStatus::Unchecked);
    assert_eq!(e.title, "Bare");
}

#[test]
fn index_test_extract_track_id() {
    assert_eq!(
        extract_track_id_from_link("./conductor/tracks/pad_compliance_20260125/"),
        Some("pad_compliance_20260125".to_string())
    );
    assert_eq!(
        extract_track_id_from_link("./tracks/otel_collector_20260212/"),
        Some("otel_collector_20260212".to_string())
    );
}

#[test]
fn link_id_takes_one_segment_or_falls_back() {
    assert_eq!(extract_track_id_from_link("./tracks/a/plan.md"), Some("a".to_string()));
    assert_eq!(extract_track_id_from_link("../other/b_track//"), Some("b_track".to_string()));
    assert_eq!(extract_track_id_from_link("/"), None);
}

#[test]
fn test_parse_simple_index() {
    let md = r#"# Project Tracks

## [x] Track: Dashboard UI Overhaul ✅ COMPLETE
*Link: [./conductor/tracks/dashboard_overhaul_20260206/](./conductor/tracks/dashboard_overhaul_20260206/)*
**Priority**: High
**Tags**: frontend, ui, dashboard
**Status**: Completed (2026-02-06)
**Branch**: feat/dashboard-overhaul

---

## [ ] Track: Compliance Workflow Enhancements
*Link: [./conductor/tracks/compliance_enhancements_20260127/](./conductor/tracks/compliance_enhancements_20260127/)*
**Priority**: High
**Status**: Not_started
"#;
    let entries = parse_index_content(md);
    assert_eq!(entries.len(), 2);
    assert_eq!(entries[0].title, "Dashboard UI Overhaul");
    assert_eq!(entries[0].id.as_str(), "dashboard_overhaul_20260206");
    assert_eq!(entries[0].checkbox, CheckboxStatus::Checked);
    assert_eq!(entries[0].priority, Priority::High);
    assert_eq!(entries[1].title, "Compliance Workflow Enhancements");
    assert_eq!(entries[1].id.as_str(), "compliance_enhancements_20260127");
    assert_eq!(entries[1].checkbox, CheckboxStatus::Unchecked);
}

#[test]
fn index_fields_on_separate_paragraphs() {
    let md = "## [~] Track: Fields\n\n[link](./tracks/fields_1/)\n\n**Tags**: api, (db), , web\n\n**Branch**: `feat/x`\n\n**Status**: blocked\n";
    let entries = parse_index_content(md);
    assert_eq!(entries.len(), 1);
    assert_eq!(entries[0].id.as_str(), "fields_1");
    assert_eq!(entries[0].tags, vec!["api", "db", "web"]);
    assert_eq!(entries[0].branch.as_deref(), Some("feat/x"));
    assert_eq!(entries[0].status, Some(Status::Blocked));
}

#[test]
fn index_list_items_lose_surrounding_punctuation() {
    let md = "## Track: Deps\n\n[l](./tracks/deps/)\n\n**Dependencies**: `a_track`, (`b_track`), (c) d, ``\n**Tags**: ( x ), `y`\n**Priority**: high\n";
    let entries = parse_index_content(md);
    assert_eq!(entries.len(), 1);
    assert_eq!(entries[0].dependencies, vec!["a_track", "b_track", "c) d"]);
    assert_eq!(entries[0].tags, vec!["x", "y"]);
    assert_eq!(entries[0].priority, Priority::High);
    assert_eq!(entries[0].status, None);
}

#[test]
fn thematic_break_closes_the_entry() {
    let md = "## Track: One\n\n[l](./tracks/one/)\n\n---\n\n**Priority**: Low\n";
    let entries = parse_index_content(md);
    assert_eq!(entries.len(), 1);
    assert_eq!(entries[0].priority, Priority::Medium);
}

#[test]
fn test_parse_empty_index_content() {
    assert!(parse_index_content("").is_empty());
}

#[test]
fn test_parse_index_no_tracks_heading() {
    assert!(parse_index_content("# Just a title\n\nSome text.\n").is_empty());
}

#[test]
fn test_unicode_track_title_in_index() {
    let md = r#"# Tracks

## [~] Track: Système de Gestion des Données — résumé
*Link: [./conductor/tracks/unicode_track_123/](./conductor/tracks/unicode_track_123/)*
**Priority**: Critical
"#;
    let entries = parse_index_content(md);
    assert_eq!(entries.len(), 1);
    assert!(entries[0].title.contains("Système"));
    assert!(entries[0].title.contains("résumé"));
    assert_eq!(entries[0].priority, Priority::Critical);
}

#[test]
fn test_index_with_dependencies() {
    let md = r#"# Tracks

## [ ] Track: Depends on Others
*Link: [./conductor/tracks/dependent_track/](./conductor/tracks/dependent_track/)*
**Priority**: High
**Dependencies**: track_a, track_b, track_c
"#;
    let entries = parse_index_content(md);
    assert_eq!(entries.len(), 1);
    assert_eq!(entries[0].dependencies.len(), 3);
    assert!(entries[0].dependencies.contains(&"track_a".to_string()));
    assert!(entries[0].dependencies.contains(&"track_b".to_string()));
    assert!(entries[0].dependencies.contains(&"track_c".to_string()));
}

#[test]
fn test_simple_plan() {
    let md = r#"# Implementation Plan

## Phase 1: Setup
- [x] Task: Create project structure
- [x] Task: Add dependencies
- [ ] Task: Configure CI

## Phase 2: Implementation
- [ ] Task: Build parser
- [ ] Task: Add tests
"#;
    let phases = parse_plan_content(md);
    assert_eq!(phases.len(), 2);
    assert_eq!(phases[0].name, "Phase 1: Setup");
    assert_eq!(phases[0].tasks.len(), 3);
    assert!(phases[0].tasks[0].done);
    assert!(phases[0].tasks[1].done);
    assert!(!phases[0].tasks[2].done);
    assert_eq!(phases[0].status, PhaseStatus::Active);
    assert_eq!(phases[1].name, "Phase 2: Implementation");
    assert_eq!(phases[1].tasks.len(), 2);
    assert!(!phases[1].tasks[0].done);
    assert_eq!(phases[1].status, PhaseStatus::Pending);
}

#[test]
fn test_all_complete() {
    let phases = parse_plan_content("## Phase 1: Done\n- [x] Task: A\n- [x] Task: B\n");
    assert_eq!(phases[0].status, PhaseStatus::Complete);
}

#[test]
fn test_empty_plan() {
    assert!(parse_plan_content("# Nothing here\n\nJust a description.\n").is_empty());
}

#[test]
fn test_task_text_cleanup() {
    assert_eq!(clean_task_text("Task: Build the parser"), "Build the parser");
    assert_eq!(clean_task_text("  Build the parser  "), "Build the parser");
    assert_eq!(clean_task_text("Task:  Do stuff"), "Do stuff");
}

#[test]
fn phase_heading_detection_ignores_case() {
    assert!(is_phase_heading("PHASE 3 (TDD)"));
    assert!(is_phase_heading("Second phase"));
    assert!(!is_phase_heading("Overview"));
}

#[test]
fn test_tasks_without_phase() {
    let phases = parse_plan_content("# Plan\n- [x] Do thing one\n- [ ] Do thing two\n");
    assert_eq!(phases.len(), 1);
    assert_eq!(phases[0].name, "Tasks");
    assert_eq!(phases[0].tasks.len(), 2);
}

#[test]
fn test_phase_with_description_paragraph() {
    let md = r#"## Phase 1: Infrastructure & Foundation
Establish the base container environment and configuration structure.

- [ ] Task: Create OTel configuration directory
- [ ] Task: Add service to docker-compose

## Phase 2: Collection (TDD)
Configure the collector.

- [x] Task: Write verification script
- [ ] Task: Implement filelog receiver
"#;
    let phases = parse_plan_content(md);
    assert_eq!(phases.len(), 2);
    assert_eq!(phases[0].tasks.len(), 2);
    assert_eq!(phases[1].tasks.len(), 2);
    assert!(phases[1].tasks[0].done);
}

#[test]
fn test_parse_plan_with_code_blocks() {
    let md = r#"## Phase 1: Fix Something

### Before
```python
old_code()
```

### After
```python
new_code()
```

- [x] Task: Apply the fix
- [ ] Task: Write tests
"#;
    let phases = parse_plan_content(md);
    assert_eq!(phases.len(), 1);
    assert_eq!(phases[0].tasks.len(), 2);
}

#[test]
fn plan_task_keeps_inline_code_and_joins_lines() {
    let md = "## Phase 1\n- [ ] Task: Run `cargo test`\n  then ship\n";
    let phases = parse_plan_content(md);
    assert_eq!(phases[0].tasks[0].text, "Run `cargo test` then ship");
}

#[test]
fn test_plan_whitespace_only() {
    assert!(parse_plan_content("   \n\n  \t  \n").is_empty());
}

#[test]
fn test_plan_with_deeply_nested_tasks() {
    let md = r#"## Phase 1: Complex Structure

- [x] Top-level task
  - Sub-item description (not a checkbox)
  - More nested text
- [ ] Another top-level task
  - [x] Nested checked item
"#;
    let phases = parse_plan_content(md);
    assert_eq!(phases.len(), 1);
    assert!(phases[0].tasks.len() >= 2);
}

#[test]
fn nested_content_is_not_task_text() {
    let md = "## Phase 1\n\n- [x] Top-level task\n  - Sub-item description\n- [ ] Second\n  ```\n  code()\n  ```\n  - [x] Nested checked item\n";
    let phases = parse_plan_content(md);
    assert_eq!(phases.len(), 1);
    let texts: Vec<&str> = phases[0].tasks.iter().map(|t| t.text.as_str()).collect();
    assert_eq!(texts, vec!["Top-level task", "Second", "Nested checked item"]);
}

#[test]
fn test_plan_phase_status_computation() {
    let md = r#"## Phase 1: Done Phase
- [x] A
- [x] B

## Phase 2: Active Phase
- [x] C
- [ ] D

## Phase 3: Future Phase
- [ ] E
- [ ] F
"#;
    let phases = parse_plan_content(md);
    assert_eq!(phases.len(), 3);
    assert_eq!(phases[0].status, PhaseStatus::Complete);
    assert_eq!(phases[1].status, PhaseStatus::Active);
    assert_eq!(phases[2].status, PhaseStatus::Pending);
}

#[test]
fn earliest_unfinished_phase_is_the_only_active_one() {
    let md = "## Phase 1\n- [ ] A\n\n## Phase 2\n\n## Phase 3\n- [x] B\n- [ ] C\n";
    let phases = parse_plan_content(md);
    assert_eq!(phases.len(), 3);
    assert_eq!(phases[0].status, PhaseStatus::Active);
    assert_eq!(phases[1].status, PhaseStatus::Pending);
    assert_eq!(phases[2].status, PhaseStatus::Pending);
}

#[test]
fn test_parse_datetime_iso() {
    let dt = parse_datetime("2026-02-12T14:45:00Z").unwrap();
    assert_eq!(dt.year, 2026);
}

#[test]
fn datetime_with_offset_is_brought_to_utc() {
    let dt = parse_datetime("2026-02-12T14:45:00+02:00").unwrap();
    assert_eq!((dt.hour, dt.minute), (12, 45));
}

#[test]
fn test_parse_datetime_date_only() {
    let dt = parse_datetime("2026-02-04").unwrap();
    assert_eq!(dt.year, 2026);
    assert_eq!(dt.month, 2);
    assert_eq!(dt.day, 4);
    assert_eq!((dt.hour, dt.minute, dt.second), (0, 0, 0));
}

#[test]
fn datetime_in_parentheses() {
    let dt = parse_datetime(" (2026-02-06) ").unwrap();
    assert_eq!((dt.year, dt.month, dt.day), (2026, 2, 6));
}

#[test]
fn test_parse_datetime_invalid() {
    assert!(parse_datetime("not a date").is_none());
    assert!(parse_datetime("").is_none());
}

#[test]
fn json_older_schema_fields() {
    let raw = RawJsonMetadata {
        id: s("critical_data_integrity_bugs_20260212"),
        name: s("Critical Data Integrity Bug Fixes"),
        status: s("not_started"),
        description: s("Fix all verified CRITICAL and HIGH logic bugs."),
        tags: vec!["bugs".to_string(), "data-integrity".to_string()],
        start_date: s("2026-01-02"),
        ..empty_json()
    };
    let meta = metadata_from_json(raw);
    assert_eq!(meta.status, Status::New);
    assert_eq!(meta.tags, vec!["bugs", "data-integrity"]);
    assert!(meta.description.is_some());
    assert_eq!(meta.created_at.unwrap().day, 2);
}

#[test]
fn json_newer_schema_fields() {
    let raw = RawJsonMetadata {
        track_id: s("otel_collector_20260212"),
        track_type: s("feature"),
        status: s("new"),
        created_at: s("2026-02-12T14:45:00Z"),
        updated_at: s("2026-02-12T14:45:00Z"),
        start_date: s("2020-01-01"),
        ..empty_json()
    };
    let meta = metadata_from_json(raw);
    assert_eq!(meta.status, Status::New);
    assert_eq!(meta.track_type, TrackType::Feature);
    assert_eq!(meta.created_at.unwrap().year, 2026);
}

#[test]
fn json_unreadable_newer_date_does_not_fall_back() {
    let raw = RawJsonMetadata { created_at: s("soon"), start_date: s("2026-01-01"), ..empty_json() };
    assert!(metadata_from_json(raw).created_at.is_none());
}

#[test]
fn json_all_defaults() {
    let meta = metadata_from_json(empty_json());
    assert_eq!(meta.status, Status::New);
    assert_eq!(meta.priority, Priority::Medium);
    assert_eq!(meta.track_type, TrackType::Other);
    assert!(meta.tags.is_empty());
    assert!(meta.created_at.is_none());
}

#[test]
fn yaml_fields() {
    let raw = RawYamlMetadata {
        name: s("Dashboard Summary Latency Fix"),
        status: s("in_progress"),
        priority: s("high"),
        created: s("2026-02-04"),
        branch: s("DSS-4074"),
        tags: vec!["performance".to_string(), "bug-fix".to_string()],
        ..empty_yaml()
    };
    let meta = metadata_from_yaml(raw);
    assert_eq!(meta.status, Status::InProgress);
    assert_eq!(meta.priority, Priority::High);
    assert!(meta.created_at.is_some());
    assert_eq!(meta.branch.as_deref(), Some("DSS-4074"));
    assert_eq!(meta.tags.len(), 2);
}

#[test]
fn yaml_minimal() {
    let meta = metadata_from_yaml(RawYamlMetadata { status: s("complete"), ..empty_yaml() });
    assert_eq!(meta.status, Status::Complete);
    assert_eq!(meta.priority, Priority::Medium);
    assert!(meta.tags.is_empty());
}
