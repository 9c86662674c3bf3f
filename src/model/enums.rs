//! The vocabularies of the track model and their lenient readers.
use vstd::prelude::*;

use crate::text::{chars_of, is_text, lower, lower_chars, trim, trim_chars};

verus! {

/// Lifecycle status of a track.
#[derive(Debug, Clone, Copy, PartialEq, Eq, Structural, Hash)]
pub enum Status {
    New,
    InProgress,
    Blocked,
    Complete,
}

/// The folded form of a vocabulary word: ASCII lower case, no surrounding
/// whitespace.
pub open spec fn folded(s: Seq<char>) -> Seq<char> {
    trim(lower(s))
}

fn folded_exec(s: &str) -> (r: Vec<char>)
    ensures
        r@ == folded(s@),
{
    let v = chars_of(s);
    let l = lower_chars(&v);
    trim_chars(&l)
}

/// The status a word names; anything unknown is `New`.
pub open spec fn status_of(s: Seq<char>) -> Status {
    let w = folded(s);
    if w == "complete"@ || w == "completed"@ || w == "done"@ {
        Status::Complete
    } else if w == "in_progress"@ || w == "in-progress"@ || w == "active"@ || w
        == "implementation"@ {
        Status::InProgress
    } else if w == "blocked"@ || w == "on_hold"@ {
        Status::Blocked
    } else {
        Status::New
    }
}

impl Status {
    pub fn label(self) -> (r: &'static str)
        ensures
            r@ == match self {
                Status::New => "New"@,
                Status::InProgress => "Active"@,
                Status::Blocked => "Blocked"@,
                Status::Complete => "Complete"@,
            },
    {
        match self {
            Status::New => "New",
            Status::InProgress => "Active",
            Status::Blocked => "Blocked",
            Status::Complete => "Complete",
        }
    }

    /// Reads a status word leniently: case and surrounding whitespace are
    /// ignored, and an unknown word gives `New`.
    pub fn from_str_loose(s: &str) -> (r: Status)
        ensures
            r == status_of(s@),
    {
        let w = folded_exec(s);
        if is_text(&w, "complete") || is_text(&w, "completed") || is_text(&w, "done") {
            Status::Complete
        } else if is_text(&w, "in_progress") || is_text(&w, "in-progress") || is_text(&w, "active")
            || is_text(&w, "implementation") {
            Status::InProgress
        } else if is_text(&w, "blocked") || is_text(&w, "on_hold") {
            Status::Blocked
        } else {
            Status::New
        }
    }
}

/// Priority of a track, ordered from most to least urgent.
#[derive(Debug, Clone, Copy, PartialEq, Eq, Structural, PartialOrd, Ord, Hash)]
pub enum Priority {
    Critical,
    High,
    Medium,
    Low,
}

/// The priority a word names; anything unknown is `Medium`.
pub open spec fn priority_of(s: Seq<char>) -> Priority {
    let w = folded(s);
    if w == "critical"@ {
        Priority::Critical
    } else if w == "high"@ {
        Priority::High
    } else if w == "low"@ {
        Priority::Low
    } else {
        Priority::Medium
    }
}

impl Priority {
    pub fn label(self) -> (r: &'static str)
        ensures
            r@ == match self {
                Priority::Critical => "CRITICAL"@,
                Priority::High => "HIGH"@,
                Priority::Medium => "MEDIUM"@,
                Priority::Low => "LOW"@,
            },
    {
        match self {
            Priority::Critical => "CRITICAL",
            Priority::High => "HIGH",
            Priority::Medium => "MEDIUM",
            Priority::Low => "LOW",
        }
    }

    /// Reads a priority word leniently; an unknown word gives `Medium`.
    pub fn from_str_loose(s: &str) -> (r: Priority)
        ensures
            r == priority_of(s@),
    {
        let w = folded_exec(s);
        if is_text(&w, "critical") {
            Priority::Critical
        } else if is_text(&w, "high") {
            Priority::High
        } else if is_text(&w, "low") {
            Priority::Low
        } else {
            Priority::Medium
        }
    }
}

/// The bracket token in front of an index heading.
#[derive(Debug, Clone, Copy, PartialEq, Eq, Structural, Hash)]
pub enum CheckboxStatus {
    Unchecked,
    InProgress,
    Checked,
}

/// The status a checkbox stands for when no status field is given.
pub open spec fn checkbox_status_of(c: CheckboxStatus) -> Status {
    match c {
        CheckboxStatus::Unchecked => Status::New,
        CheckboxStatus::InProgress => Status::InProgress,
        CheckboxStatus::Checked => Status::Complete,
    }
}

impl CheckboxStatus {
    pub fn to_status(self) -> (r: Status)
        ensures
            r == checkbox_status_of(self),
    {
        match self {
            CheckboxStatus::Unchecked => Status::New,
            CheckboxStatus::InProgress => Status::InProgress,
            CheckboxStatus::Checked => Status::Complete,
        }
    }
}

/// Status of a plan phase, derived from its tasks.
#[derive(Debug, Clone, Copy, PartialEq, Eq, Structural, Hash)]
pub enum PhaseStatus {
    Pending,
    Active,
    Complete,
    Blocked,
}

impl PhaseStatus {
    pub fn label(self) -> (r: &'static str)
        ensures
            r@ == match self {
                PhaseStatus::Pending => "Pending"@,
                PhaseStatus::Active => "Active"@,
                PhaseStatus::Complete => "Complete"@,
                PhaseStatus::Blocked => "Blocked"@,
            },
    {
        match self {
            PhaseStatus::Pending => "Pending",
            PhaseStatus::Active => "Active",
            PhaseStatus::Complete => "Complete",
            PhaseStatus::Blocked => "Blocked",
        }
    }
}

/// Kind of work a track is.
#[derive(Debug, Clone, Copy, PartialEq, Eq, Structural, Hash)]
pub enum TrackType {
    Feature,
    Bug,
    Migration,
    Refactor,
    Other,
}

/// The track type a word names; anything unknown is `Other`.
pub open spec fn track_type_of(s: Seq<char>) -> TrackType {
    let w = folded(s);
    if w == "feature"@ || w == "feat"@ {
        TrackType::Feature
    } else if w == "bug"@ || w == "bugfix"@ || w == "fix"@ {
        TrackType::Bug
    } else if w == "migration"@ || w == "migrate"@ {
        TrackType::Migration
    } else if w == "refactor"@ || w == "refactoring"@ {
        TrackType::Refactor
    } else {
        TrackType::Other
    }
}

impl TrackType {
    pub fn label(&self) -> (r: &'static str)
        ensures
            r@ == match *self {
                TrackType::Feature => "FEATURE"@,
                TrackType::Bug => "BUG"@,
                TrackType::Migration => "MIGRATION"@,
                TrackType::Refactor => "REFACTOR"@,
                TrackType::Other => "TRACK"@,
            },
    {
        match self {
            TrackType::Feature => "FEATURE",
            TrackType::Bug => "BUG",
            TrackType::Migration => "MIGRATION",
            TrackType::Refactor => "REFACTOR",
            TrackType::Other => "TRACK",
        }
    }

    /// Reads a track-type word leniently; an unknown word gives `Other`.
    pub fn from_str_loose(s: &str) -> (r: TrackType)
        ensures
            r == track_type_of(s@),
    {
        let w = folded_exec(s);
        if is_text(&w, "feature") || is_text(&w, "feat") {
            TrackType::Feature
        } else if is_text(&w, "bug") || is_text(&w, "bugfix") || is_text(&w, "fix") {
            TrackType::Bug
        } else if is_text(&w, "migration") || is_text(&w, "migrate") {
            TrackType::Migration
        } else if is_text(&w, "refactor") || is_text(&w, "refactoring") {
            TrackType::Refactor
        } else {
            TrackType::Other
        }
    }
}

/// Which tracks a list view shows.
#[derive(Debug, Clone, Copy, PartialEq, Eq, Structural)]
pub enum FilterMode {
    All,
    Active,
    Blocked,
    Complete,
}

impl FilterMode {
    /// The next mode in the cycle All, Active, Blocked, Complete, All.
    pub fn next(self) -> (r: FilterMode)
        ensures
            r == match self {
                FilterMode::All => FilterMode::Active,
                FilterMode::Active => FilterMode::Blocked,
                FilterMode::Blocked => FilterMode::Complete,
                FilterMode::Complete => FilterMode::All,
            },
    {
        match self {
            FilterMode::All => FilterMode::Active,
            FilterMode::Active => FilterMode::Blocked,
            FilterMode::Blocked => FilterMode::Complete,
            FilterMode::Complete => FilterMode::All,
        }
    }

    pub fn label(self) -> (r: &'static str)
        ensures
            r@ == match self {
                FilterMode::All => "All"@,
                FilterMode::Active => "Active"@,
                FilterMode::Blocked => "Blocked"@,
                FilterMode::Complete => "Done"@,
            },
    {
        match self {
            FilterMode::All => "All",
            FilterMode::Active => "Active",
            FilterMode::Blocked => "Blocked",
            FilterMode::Complete => "Done",
        }
    }
}

/// How a list view orders tracks.
#[derive(Debug, Clone, Copy, PartialEq, Eq, Structural)]
pub enum SortMode {
    Updated,
    Progress,
}

impl SortMode {
    /// The other mode.
    pub fn next(self) -> (r: SortMode)
        ensures
            r == match self {
                SortMode::Updated => SortMode::Progress,
                SortMode::Progress => SortMode::Updated,
            },
    {
        match self {
            SortMode::Updated => SortMode::Progress,
            SortMode::Progress => SortMode::Updated,
        }
    }

    pub fn label(self) -> (r: &'static str)
        ensures
            r@ == match self {
                SortMode::Updated => "Recent"@,
                SortMode::Progress => "Progress"@,
            },
    {
        match self {
            SortMode::Updated => "Recent",
            SortMode::Progress => "Progress",
        }
    }
}

} // verus!
