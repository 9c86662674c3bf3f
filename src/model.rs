//! The track model: vocabularies, tracks with their plans, and reload scopes.
pub mod cache;
pub mod enums;
pub mod listing;
pub mod track;
pub mod track_set;

pub use enums::{CheckboxStatus, FilterMode, PhaseStatus, Priority, SortMode, Status, TrackType};
pub use track::{PlanPhase, PlanTask, Timestamp, Track, TrackId, TrackMetadata};
pub use cache::{ReloadScope, TrackCache};
pub use track_set::TrackSet;
