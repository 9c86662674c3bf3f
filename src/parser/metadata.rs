//! Per-track metadata files. Two JSON schema generations and one YAML schema
//! are read field by field, every field optional; this module turns the
//! fields read into the metadata that is merged into a track.
use vstd::prelude::*;

use crate::model::enums::{priority_of, status_of, track_type_of, Priority, Status, TrackType};
use crate::model::track::{opt_view, strings_view, MetadataView, Timestamp, TrackMetadata};
use crate::parser::datetime::{datetime_of, parse_datetime};

verus! {

/// The fields of a JSON metadata file, as written. The older schema keys a
/// track by `id`, `name`, `owner`, `start_date` and `end_date`; the newer by
/// `track_id`, `type`, `created_at` and `updated_at`.
#[derive(Debug, Clone)]
pub struct RawJsonMetadata {
    pub id: Option<String>,
    pub track_id: Option<String>,
    pub name: Option<String>,
    pub status: Option<String>,
    pub priority: Option<String>,
    pub track_type: Option<String>,
    pub created_at: Option<String>,
    pub updated_at: Option<String>,
    pub start_date: Option<String>,
    pub end_date: Option<String>,
    pub dependencies: Vec<String>,
    pub tags: Vec<String>,
    pub branch: Option<String>,
    pub description: Option<String>,
    pub owner: Option<String>,
}

/// The fields of a YAML metadata file, as written.
#[derive(Debug, Clone)]
pub struct RawYamlMetadata {
    pub name: Option<String>,
    pub status: Option<String>,
    pub priority: Option<String>,
    pub created: Option<String>,
    pub completed: Option<String>,
    pub branch: Option<String>,
    pub tags: Vec<String>,
    pub commits: Vec<String>,
}

pub open spec fn status_field(s: Option<String>) -> Status {
    match s {
        Some(x) => status_of(x@),
        None => Status::New,
    }
}

pub open spec fn priority_field(s: Option<String>) -> Priority {
    match s {
        Some(x) => priority_of(x@),
        None => Priority::Medium,
    }
}

pub open spec fn track_type_field(s: Option<String>) -> TrackType {
    match s {
        Some(x) => track_type_of(x@),
        None => TrackType::Other,
    }
}

/// The first date text that is present, read as an instant.
pub open spec fn date_field(first: Option<String>, second: Option<String>) -> Option<Timestamp> {
    match first {
        Some(x) => datetime_of(x@),
        None => match second {
            Some(y) => datetime_of(y@),
            None => None,
        },
    }
}

/// JSON fields as metadata: absent words take their defaults, the newer date
/// keys win over the older ones, and unreadable dates are absent.
pub open spec fn json_metadata(raw: RawJsonMetadata) -> MetadataView {
    MetadataView {
        status: status_field(raw.status),
        priority: priority_field(raw.priority),
        track_type: track_type_field(raw.track_type),
        created_at: date_field(raw.created_at, raw.start_date),
        updated_at: date_field(raw.updated_at, raw.end_date),
        dependencies: strings_view(raw.dependencies@),
        tags: strings_view(raw.tags@),
        branch: opt_view(raw.branch),
        description: opt_view(raw.description),
    }
}

/// YAML fields as metadata: `created` and `completed` are the two dates,
/// and the schema has no type, dependencies or description.
pub open spec fn yaml_metadata(raw: RawYamlMetadata) -> MetadataView {
    MetadataView {
        status: status_field(raw.status),
        priority: priority_field(raw.priority),
        track_type: TrackType::Other,
        created_at: date_field(raw.created, None),
        updated_at: date_field(raw.completed, None),
        dependencies: Seq::empty(),
        tags: strings_view(raw.tags@),
        branch: opt_view(raw.branch),
        description: None,
    }
}

fn read_status(s: &Option<String>) -> (r: Status)
    ensures
        r == status_field(*s),
{
    match s {
        Some(x) => Status::from_str_loose(x.as_str()),
        None => Status::New,
    }
}

fn read_priority(s: &Option<String>) -> (r: Priority)
    ensures
        r == priority_field(*s),
{
    match s {
        Some(x) => Priority::from_str_loose(x.as_str()),
        None => Priority::Medium,
    }
}

fn read_track_type(s: &Option<String>) -> (r: TrackType)
    ensures
        r == track_type_field(*s),
{
    match s {
        Some(x) => TrackType::from_str_loose(x.as_str()),
        None => TrackType::Other,
    }
}

fn read_date(first: &Option<String>, second: &Option<String>) -> (r: Option<Timestamp>)
    ensures
        r == date_field(*first, *second),
{
    match first {
        Some(x) => parse_datetime(x.as_str()),
        None => match second {
            Some(y) => parse_datetime(y.as_str()),
            None => None,
        },
    }
}

/// Metadata from the fields of a JSON metadata file.
pub fn metadata_from_json(raw: RawJsonMetadata) -> (r: TrackMetadata)
    ensures
        r@ == json_metadata(raw),
{
    let status = read_status(&raw.status);
    let priority = read_priority(&raw.priority);
    let track_type = read_track_type(&raw.track_type);
    let created_at = read_date(&raw.created_at, &raw.start_date);
    let updated_at = read_date(&raw.updated_at, &raw.end_date);
    TrackMetadata {
        status,
        priority,
        track_type,
        created_at,
        updated_at,
        dependencies: raw.dependencies,
        tags: raw.tags,
        branch: raw.branch,
        description: raw.description,
    }
}

/// Metadata from the fields of a YAML metadata file.
pub fn metadata_from_yaml(raw: RawYamlMetadata) -> (r: TrackMetadata)
    ensures
        r@ == yaml_metadata(raw),
{
    let status = read_status(&raw.status);
    let priority = read_priority(&raw.priority);
    let created_at = read_date(&raw.created, &None);
    let updated_at = read_date(&raw.completed, &None);
    let r = TrackMetadata {
        status,
        priority,
        track_type: TrackType::Other,
        created_at,
        updated_at,
        dependencies: Vec::new(),
        tags: raw.tags,
        branch: raw.branch,
        description: None,
    };
    proof {
        assert(strings_view(r.dependencies@) =~= Seq::<Seq<char>>::empty());
    }
    r
}

} // verus!
