//! The markdown event stream that the index and plan parsers walk, as
//! pulldown-cmark produces it.
use vstd::prelude::*;

use pulldown_cmark::{BlockQuoteKind, Event, HeadingLevel, MetadataBlockKind, Options, Parser, Tag, TagEnd};

verus! {

/// pulldown-cmark's heading level, `H1` to `H6`; its variants are visible
/// so that verified code can tell heading levels apart.
#[verifier::external_type_specification]
pub struct ExHeadingLevel(HeadingLevel);

/// pulldown-cmark's block-quote kind, held opaquely inside `TagEnd`.
#[verifier::external_type_specification]
#[verifier::external_body]
pub struct ExBlockQuoteKind(BlockQuoteKind);

/// pulldown-cmark's metadata-block kind, held opaquely inside `TagEnd`.
#[verifier::external_type_specification]
#[verifier::external_body]
pub struct ExMetadataBlockKind(MetadataBlockKind);

/// pulldown-cmark's end-of-element tag; its variants are visible so that
/// verified code can match headings, paragraphs, bold runs and list items.
#[verifier::external_type_specification]
pub struct ExTagEnd(TagEnd);

/// One markdown event. A tag's start is given by the kind of its end, but
/// for a link, whose start carries the destination.
#[derive(Debug)]
pub enum MdEvent {
    Start(TagEnd),
    LinkStart(String),
    End(TagEnd),
    Text(String),
    Code(String),
    SoftBreak,
    HardBreak,
    TaskListMarker(bool),
    Rule,
    Other,
}

/// The events pulldown-cmark gives for a document, with task lists enabled.
pub uninterp spec fn events_of(s: Seq<char>) -> Seq<MdEvent>;

/// Relies on `pulldown_cmark::Parser::new_ext` with `ENABLE_TASKLISTS`: the
/// events depend on the text alone.
#[verifier::external_body]
pub(crate) fn markdown_events(s: &str) -> (r: Vec<MdEvent>)
    ensures
        r@ == events_of(s@),
{
    Parser::new_ext(s, Options::ENABLE_TASKLISTS).map(|e| match e {
        Event::Start(Tag::Link { dest_url, .. }) => MdEvent::LinkStart(dest_url.to_string()),
        Event::Start(t) => MdEvent::Start(t.into()),
        Event::End(t) => MdEvent::End(t),
        Event::Text(t) => MdEvent::Text(t.to_string()),
        Event::Code(t) => MdEvent::Code(t.to_string()),
        Event::SoftBreak => MdEvent::SoftBreak,
        Event::HardBreak => MdEvent::HardBreak,
        Event::TaskListMarker(b) => MdEvent::TaskListMarker(b),
        Event::Rule => MdEvent::Rule,
        _ => MdEvent::Other,
    }).collect()
}

/// Whether the end tag closes a heading of level two.
pub open spec fn is_h2(t: TagEnd) -> bool {
    t == TagEnd::Heading(HeadingLevel::H2)
}

pub fn is_h2_exec(t: &TagEnd) -> (r: bool)
    ensures
        r == is_h2(*t),
{
    match t {
        TagEnd::Heading(HeadingLevel::H2) => true,
        _ => false,
    }
}

} // verus!
