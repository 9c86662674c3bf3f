//! The master index: each level-two heading `[x] Track: Title` opens an
//! entry, and the bold-keyed lines below it fill the entry's fields.
use vstd::prelude::*;

use pulldown_cmark::TagEnd;

use crate::model::enums::{
    priority_of, status_of, CheckboxStatus, Priority, Status,
};
use crate::model::track::{opt_view, strings_view, TrackId};
use crate::parser::markdown::{events_of, is_h2, is_h2_exec, markdown_events, MdEvent};
use crate::text::{
    after_last_char, after_last_char_exec, append_chars, chars_of, copy_range, find, find_exec,
    keep_nonempty, keep_nonempty_exec, rfind, rfind_exec, split, split_chars, starts_with,
    starts_with_text, string_of, strip, strip_chars, strip_end, strip_end_chars, strip_start,
    strip_start_chars, trim, trim_chars, upto_char, upto_char_exec, views, CharClass, is_text,
};

verus! {

/// One track as the index describes it.
#[derive(Debug, Clone)]
pub struct IndexEntry {
    pub id: TrackId,
    pub title: String,
    pub checkbox: CheckboxStatus,
    /// The status the entry's `Status` field names, when it has one.
    pub status: Option<Status>,
    pub priority: Priority,
    pub tags: Vec<String>,
    pub branch: Option<String>,
    pub dependencies: Vec<String>,
}

pub struct EntryView {
    pub id: Seq<char>,
    pub title: Seq<char>,
    pub checkbox: CheckboxStatus,
    pub status: Option<Status>,
    pub priority: Priority,
    pub tags: Seq<Seq<char>>,
    pub branch: Option<Seq<char>>,
    pub dependencies: Seq<Seq<char>>,
}

impl View for IndexEntry {
    type V = EntryView;

    open spec fn view(&self) -> EntryView {
        EntryView {
            id: self.id@,
            title: self.title@,
            checkbox: self.checkbox,
            status: self.status,
            priority: self.priority,
            tags: strings_view(self.tags@),
            branch: opt_view(self.branch),
            dependencies: strings_view(self.dependencies@),
        }
    }
}

pub open spec fn entries_view(es: Seq<IndexEntry>) -> Seq<EntryView> {
    es.map_values(|e: IndexEntry| e@)
}

/// The checkbox state the heading's leading bracket token gives.
pub open spec fn checkbox_of(t: Seq<char>) -> CheckboxStatus {
    if starts_with(t, "[x]"@) || starts_with(t, "[X]"@) {
        CheckboxStatus::Checked
    } else if starts_with(t, "[~]"@) || starts_with(t, "[-]"@) {
        CheckboxStatus::InProgress
    } else {
        CheckboxStatus::Unchecked
    }
}

/// The entry a level-two heading opens: it must hold the marker `Track:`;
/// the title is what follows the marker up to the first check-mark glyph,
/// trimmed, and must not be empty.
pub open spec fn heading_entry(text: Seq<char>) -> Option<EntryView> {
    let t = trim(text);
    match find(t, "Track:"@) {
        None => None,
        Some(m) => {
            let title = trim(upto_char(t.skip(m + "Track:"@.len()), '\u{2705}'));
            if title.len() == 0 {
                None
            } else {
                Some(
                    EntryView {
                        id: Seq::empty(),
                        title,
                        checkbox: checkbox_of(t),
                        status: None,
                        priority: Priority::Medium,
                        tags: Seq::empty(),
                        branch: None,
                        dependencies: Seq::empty(),
                    },
                )
            }
        },
    }
}

/// The identity a link destination names: the path segment after the last
/// `/tracks/`, else the destination's last segment; trailing slashes are
/// ignored, and an empty result is no identity.
pub open spec fn link_id(url: Seq<char>) -> Option<Seq<char>> {
    let u = strip_end(url, CharClass::Exactly('/'));
    let seg = match rfind(u, "/tracks/"@) {
        Some(p) => upto_char(u.skip(p + "/tracks/"@.len()), '/'),
        None => Seq::empty(),
    };
    let id = if seg.len() > 0 {
        seg
    } else {
        after_last_char(u, '/')
    };
    if id.len() > 0 {
        Some(id)
    } else {
        None
    }
}

/// One item of a comma-separated list, without the whitespace, backticks
/// and parentheses around it, in any mix.
pub open spec fn clean_item(d: Seq<char>) -> Seq<char> {
    strip(d, CharClass::ItemWrap)
}

pub open spec fn clean_all(s: Seq<Seq<char>>) -> Seq<Seq<char>> {
    s.map_values(|d: Seq<char>| clean_item(d))
}

/// The non-empty cleaned items of a comma-separated list.
pub open spec fn list_items(v: Seq<char>) -> Seq<Seq<char>> {
    keep_nonempty(clean_all(split(v, ',')))
}

/// An entry after the field `key` is given `value`.
pub open spec fn apply_field_spec(e: EntryView, key: Seq<char>, value: Seq<char>) -> EntryView {
    let v = trim(value);
    if key == "Priority"@ {
        EntryView { priority: priority_of(v), ..e }
    } else if key == "Status"@ {
        EntryView { status: Some(status_of(v)), ..e }
    } else if key == "Tags"@ {
        EntryView { tags: list_items(v), ..e }
    } else if key == "Branch"@ {
        let b = strip(v, CharClass::Exactly('`'));
        if b.len() > 0 {
            EntryView { branch: Some(b), ..e }
        } else {
            e
        }
    } else if key == "Dependencies"@ || key == "Depends on"@ {
        EntryView { dependencies: list_items(v), ..e }
    } else {
        e
    }
}

/// Where a walk over the index's events stands.
pub struct ScanView {
    pub entries: Seq<EntryView>,
    pub current: Option<EntryView>,
    pub in_h2: bool,
    pub h2_text: Seq<char>,
    pub in_paragraph: bool,
    pub in_strong: bool,
    pub strong_text: Seq<char>,
    pub field_key: Option<Seq<char>>,
    pub field_value: Seq<char>,
}

pub open spec fn scan_start() -> ScanView {
    ScanView {
        entries: Seq::empty(),
        current: None,
        in_h2: false,
        h2_text: Seq::empty(),
        in_paragraph: false,
        in_strong: false,
        strong_text: Seq::empty(),
        field_key: None,
        field_value: Seq::empty(),
    }
}

/// The entries closed so far, with the open one closed too.
pub open spec fn flushed(st: ScanView) -> Seq<EntryView> {
    match st.current {
        Some(c) => st.entries.push(c),
        None => st.entries,
    }
}

/// A field's value as written after its bold key: trimmed, without a
/// leading colon.
pub open spec fn field_text(raw: Seq<char>) -> Seq<char> {
    let v = trim(raw);
    if v.len() > 0 && v[0] == ':' {
        trim(strip_start(v, CharClass::Exactly(':')))
    } else {
        v
    }
}

/// Ends the pending field: a non-empty value is given to the open entry.
pub open spec fn settle(st: ScanView) -> ScanView {
    let cur = match (st.current, st.field_key) {
        (Some(c), Some(k)) => if field_text(st.field_value).len() > 0 {
            Some(apply_field_spec(c, k, field_text(st.field_value)))
        } else {
            Some(c)
        },
        _ => st.current,
    };
    ScanView { current: cur, field_key: None, field_value: Seq::empty(), ..st }
}

/// Text that goes to the heading, to the bold key, or to a pending field's
/// value.
pub open spec fn text_step(st: ScanView, t: Seq<char>) -> ScanView {
    if st.in_h2 {
        ScanView { h2_text: st.h2_text + t, ..st }
    } else if st.in_strong {
        ScanView { strong_text: st.strong_text + t, ..st }
    } else if st.in_paragraph && st.field_key is Some {
        ScanView { field_value: st.field_value + t, ..st }
    } else {
        st
    }
}

/// An inline code span, which counts only in a field's value, with its
/// backticks.
pub open spec fn code_step(st: ScanView, t: Seq<char>) -> ScanView {
    if !st.in_h2 && !st.in_strong && st.in_paragraph && st.field_key is Some {
        ScanView { field_value: st.field_value + seq!['`'] + t + seq!['`'], ..st }
    } else {
        st
    }
}

/// One event of the index: a level-two heading or a thematic break closes
/// the open entry, the heading's text may open a new one, a bold run names a
/// field, and the text after it up to the end of the line, the next bold run
/// or the end of the paragraph is the field's value.
pub open spec fn index_step(st: ScanView, e: MdEvent) -> ScanView {
    match e {
        MdEvent::Start(t) => if is_h2(t) {
            ScanView {
                entries: flushed(st),
                current: None,
                in_h2: true,
                h2_text: Seq::empty(),
                ..st
            }
        } else if t == TagEnd::Strong {
            ScanView { in_strong: true, strong_text: Seq::empty(), ..settle(st) }
        } else if t == TagEnd::Paragraph {
            ScanView { in_paragraph: true, ..st }
        } else {
            st
        },
        MdEvent::End(t) => if is_h2(t) {
            ScanView {
                in_h2: false,
                current: match heading_entry(st.h2_text) {
                    Some(x) => Some(x),
                    None => st.current,
                },
                ..st
            }
        } else if t == TagEnd::Strong {
            ScanView {
                in_strong: false,
                field_key: if st.current is Some {
                    Some(trim(strip_end(st.strong_text, CharClass::Exactly(':'))))
                } else {
                    st.field_key
                },
                field_value: Seq::empty(),
                ..st
            }
        } else if t == TagEnd::Paragraph {
            ScanView { in_paragraph: false, ..settle(st) }
        } else {
            st
        },
        MdEvent::LinkStart(u) => match (st.current, link_id(u@)) {
            (Some(c), Some(id)) => if c.id.len() == 0 {
                ScanView { current: Some(EntryView { id, ..c }), ..st }
            } else {
                st
            },
            _ => st,
        },
        MdEvent::Text(t) => text_step(st, t@),
        MdEvent::Code(t) => code_step(st, t@),
        MdEvent::SoftBreak => settle(st),
        MdEvent::HardBreak => settle(st),
        MdEvent::Rule => ScanView {
            entries: flushed(st),
            current: None,
            field_key: None,
            field_value: Seq::empty(),
            ..st
        },
        _ => st,
    }
}

/// The state after walking `events` in order.
pub open spec fn scan(events: Seq<MdEvent>) -> ScanView
    decreases events.len(),
{
    if events.len() == 0 {
        scan_start()
    } else {
        index_step(scan(events.drop_last()), events.last())
    }
}

/// The entries an index's events give, in document order.
pub open spec fn index_entries(events: Seq<MdEvent>) -> Seq<EntryView> {
    flushed(scan(events))
}

fn strings_of(v: &Vec<Vec<char>>) -> (r: Vec<String>)
    ensures
        strings_view(r@) == views(v@),
{
    let mut r: Vec<String> = Vec::new();
    let mut i: usize = 0;
    while i < v.len()
        invariant
            i <= v@.len(),
            r@.len() == i,
            forall|k: int| 0 <= k < i ==> #[trigger] r@[k]@ == v@[k]@,
        decreases v.len() - i,
    {
        r.push(string_of(&v[i]));
        i += 1;
    }
    proof {
        assert(strings_view(r@) =~= views(v@));
    }
    r
}

fn clean_item_exec(d: &Vec<char>) -> (r: Vec<char>)
    ensures
        r@ == clean_item(d@),
{
    strip_chars(d, CharClass::ItemWrap)
}

fn list_items_exec(v: &Vec<char>) -> (r: Vec<String>)
    ensures
        strings_view(r@) == list_items(v@),
{
    let parts = split_chars(v, ',');
    let mut cleaned: Vec<Vec<char>> = Vec::new();
    let mut i: usize = 0;
    while i < parts.len()
        invariant
            views(parts@) == split(v@, ','),
            i <= parts@.len(),
            cleaned@.len() == i,
            forall|k: int| 0 <= k < i ==> #[trigger] cleaned@[k]@ == clean_item(parts@[k]@),
        decreases parts.len() - i,
    {
        cleaned.push(clean_item_exec(&parts[i]));
        i += 1;
    }
    proof {
        assert(views(cleaned@) =~= clean_all(split(v@, ',')));
    }
    let kept = keep_nonempty_exec(cleaned);
    strings_of(&kept)
}

/// Gives the field `key` of `entry` the value `value`; unknown keys change
/// nothing.
pub fn apply_field(entry: &mut IndexEntry, key: &Vec<char>, value: &Vec<char>)
    ensures
        final(entry)@ == apply_field_spec(old(entry)@, key@, value@),
{
    let v = trim_chars(value);
    if is_text(key, "Priority") {
        let s = string_of(&v);
        entry.priority = Priority::from_str_loose(s.as_str());
    } else if is_text(key, "Status") {
        let s = string_of(&v);
        entry.status = Some(Status::from_str_loose(s.as_str()));
    } else if is_text(key, "Tags") {
        entry.tags = list_items_exec(&v);
    } else if is_text(key, "Branch") {
        let b = strip_chars(&v, CharClass::Exactly('`'));
        if b.len() > 0 {
            entry.branch = Some(string_of(&b));
        }
    } else if is_text(key, "Dependencies") || is_text(key, "Depends on") {
        entry.dependencies = list_items_exec(&v);
    }
}

fn checkbox_exec(t: &Vec<char>) -> (r: CheckboxStatus)
    ensures
        r == checkbox_of(t@),
{
    if starts_with_text(t, "[x]") || starts_with_text(t, "[X]") {
        CheckboxStatus::Checked
    } else if starts_with_text(t, "[~]") || starts_with_text(t, "[-]") {
        CheckboxStatus::InProgress
    } else {
        CheckboxStatus::Unchecked
    }
}

fn heading_entry_exec(text: &Vec<char>) -> (r: Option<IndexEntry>)
    ensures
        match r {
            Some(e) => heading_entry(text@) == Some(e@),
            None => heading_entry(text@) is None,
        },
{
    let t = trim_chars(text);
    let marker = chars_of("Track:");
    match find_exec(&t, &marker) {
        None => None,
        Some(m) => {
            let n = t.len();
            let rest = copy_range(&t, m + marker.len(), n);
            proof {
                assert(rest@ =~= t@.skip(m + "Track:"@.len()));
            }
            let head = upto_char_exec(&rest, '\u{2705}');
            let title = trim_chars(&head);
            if title.len() == 0 {
                None
            } else {
                let e = IndexEntry {
                    id: TrackId(String::new()),
                    title: string_of(&title),
                    checkbox: checkbox_exec(&t),
                    status: None,
                    priority: Priority::Medium,
                    tags: Vec::new(),
                    branch: None,
                    dependencies: Vec::new(),
                };
                proof {
                    assert(strings_view(e.tags@) =~= Seq::<Seq<char>>::empty());
                    assert(strings_view(e.dependencies@) =~= Seq::<Seq<char>>::empty());
                }
                Some(e)
            }
        },
    }
}

/// Reads an index heading; `None` unless it names a track with a title.
pub fn parse_h2_heading(text: &str) -> (r: Option<IndexEntry>)
    ensures
        match r {
            Some(e) => heading_entry(text@) == Some(e@),
            None => heading_entry(text@) is None,
        },
{
    let v = chars_of(text);
    heading_entry_exec(&v)
}

fn link_id_exec(url: &Vec<char>) -> (r: Option<Vec<char>>)
    ensures
        match r {
            Some(x) => link_id(url@) == Some(x@),
            None => link_id(url@) is None,
        },
{
    let u = strip_end_chars(url, CharClass::Exactly('/'));
    let marker = chars_of("/tracks/");
    let seg = match rfind_exec(&u, &marker) {
        Some(p) => {
            let n = u.len();
            let rest = copy_range(&u, p + marker.len(), n);
            proof {
                assert(rest@ =~= u@.skip(p + "/tracks/"@.len()));
            }
            upto_char_exec(&rest, '/')
        },
        None => Vec::new(),
    };
    let id = if seg.len() > 0 {
        seg
    } else {
        after_last_char_exec(&u, '/')
    };
    if id.len() > 0 {
        Some(id)
    } else {
        None
    }
}

/// The identity a link destination names, if any.
pub fn extract_track_id_from_link(url: &str) -> (r: Option<String>)
    ensures
        match r {
            Some(x) => link_id(url@) == Some(x@),
            None => link_id(url@) is None,
        },
{
    let v = chars_of(url);
    match link_id_exec(&v) {
        Some(x) => Some(string_of(&x)),
        None => None,
    }
}

struct IndexScan {
    entries: Vec<IndexEntry>,
    current: Option<IndexEntry>,
    in_h2: bool,
    h2_text: Vec<char>,
    in_paragraph: bool,
    in_strong: bool,
    strong_text: Vec<char>,
    field_key: Option<Vec<char>>,
    field_value: Vec<char>,
}

impl View for IndexScan {
    type V = ScanView;

    closed spec fn view(&self) -> ScanView {
        ScanView {
            entries: entries_view(self.entries@),
            current: match self.current {
                Some(c) => Some(c@),
                None => None,
            },
            in_h2: self.in_h2,
            h2_text: self.h2_text@,
            in_paragraph: self.in_paragraph,
            in_strong: self.in_strong,
            strong_text: self.strong_text@,
            field_key: match self.field_key {
                Some(k) => Some(k@),
                None => None,
            },
            field_value: self.field_value@,
        }
    }
}

fn flush(st: &mut IndexScan)
    ensures
        final(st)@ == (ScanView { entries: flushed(old(st)@), current: None, ..old(st)@ }),
{
    let cur = st.current.take();
    match cur {
        Some(c) => {
            let ghost before = entries_view(st.entries@);
            st.entries.push(c);
            proof {
                assert(entries_view(st.entries@) =~= before.push(c@));
            }
        },
        None => {},
    }
}

fn field_text_exec(raw: &Vec<char>) -> (r: Vec<char>)
    ensures
        r@ == field_text(raw@),
{
    let v = trim_chars(raw);
    if v.len() > 0 && v[0] == ':' {
        let a = strip_start_chars(&v, CharClass::Exactly(':'));
        trim_chars(&a)
    } else {
        v
    }
}

fn settle_exec(st: &mut IndexScan)
    ensures
        final(st)@ == settle(old(st)@),
{
    let cur = st.current.take();
    let key = st.field_key.take();
    match (cur, key) {
        (Some(mut c), Some(k)) => {
            let v = field_text_exec(&st.field_value);
            if v.len() > 0 {
                apply_field(&mut c, &k, &v);
            }
            st.current = Some(c);
        },
        (c, _) => {
            st.current = c;
        },
    }
    st.field_value = Vec::new();
}

fn index_step_exec(st: &mut IndexScan, e: &MdEvent)
    ensures
        final(st)@ == index_step(old(st)@, *e),
{
    match e {
        MdEvent::Start(t) => {
            if is_h2_exec(t) {
                flush(st);
                st.in_h2 = true;
                st.h2_text = Vec::new();
            } else if matches!(t, TagEnd::Strong) {
                settle_exec(st);
                st.in_strong = true;
                st.strong_text = Vec::new();
            } else if matches!(t, TagEnd::Paragraph) {
                st.in_paragraph = true;
            }
        },
        MdEvent::End(t) => {
            if is_h2_exec(t) {
                st.in_h2 = false;
                match heading_entry_exec(&st.h2_text) {
                    Some(x) => {
                        st.current = Some(x);
                    },
                    None => {},
                }
            } else if matches!(t, TagEnd::Strong) {
                st.in_strong = false;
                if st.current.is_some() {
                    let a = strip_end_chars(&st.strong_text, CharClass::Exactly(':'));
                    st.field_key = Some(trim_chars(&a));
                }
                st.field_value = Vec::new();
            } else if matches!(t, TagEnd::Paragraph) {
                settle_exec(st);
                st.in_paragraph = false;
            }
        },
        MdEvent::LinkStart(u) => {
            let uv = chars_of(u.as_str());
            let found = link_id_exec(&uv);
            let cur = st.current.take();
            match (cur, found) {
                (Some(mut c), Some(id)) => {
                    if c.id.0.as_str().unicode_len() == 0 {
                        c.id = TrackId(string_of(&id));
                    }
                    st.current = Some(c);
                },
                (c, _) => {
                    st.current = c;
                },
            }
        },
        MdEvent::Text(t) => {
            let tv = chars_of(t.as_str());
            if st.in_h2 {
                append_chars(&mut st.h2_text, &tv);
            } else if st.in_strong {
                append_chars(&mut st.strong_text, &tv);
            } else if st.in_paragraph && st.field_key.is_some() {
                append_chars(&mut st.field_value, &tv);
            }
        },
        MdEvent::Code(t) => {
            if !st.in_h2 && !st.in_strong && st.in_paragraph && st.field_key.is_some() {
                let tv = chars_of(t.as_str());
                let mut w: Vec<char> = Vec::new();
                w.push('`');
                append_chars(&mut w, &tv);
                w.push('`');
                proof {
                    assert(st.field_value@ + w@ =~= st.field_value@ + seq!['`'] + tv@ + seq!['`']);
                }
                append_chars(&mut st.field_value, &w);
            }
        },
        MdEvent::SoftBreak | MdEvent::HardBreak => {
            settle_exec(st);
        },
        MdEvent::Rule => {
            flush(st);
            st.field_key = None;
            st.field_value = Vec::new();
        },
        _ => {},
    }
}

/// The entries that an index's events give, in document order.
pub fn entries_from_events(events: &Vec<MdEvent>) -> (r: Vec<IndexEntry>)
    ensures
        entries_view(r@) == index_entries(events@),
{
    let mut st = IndexScan {
        entries: Vec::new(),
        current: None,
        in_h2: false,
        h2_text: Vec::new(),
        in_paragraph: false,
        in_strong: false,
        strong_text: Vec::new(),
        field_key: None,
        field_value: Vec::new(),
    };
    proof {
        assert(events@.take(0) =~= Seq::<MdEvent>::empty());
        assert(entries_view(st.entries@) =~= Seq::<EntryView>::empty());
        assert(st@ == scan_start());
    }
    let mut i: usize = 0;
    while i < events.len()
        invariant
            i <= events@.len(),
            st@ == scan(events@.take(i as int)),
        decreases events.len() - i,
    {
        proof {
            assert(events@.take(i + 1).drop_last() =~= events@.take(i as int));
        }
        index_step_exec(&mut st, &events[i]);
        i += 1;
    }
    proof {
        assert(events@.take(i as int) =~= events@);
    }
    flush(&mut st);
    st.entries
}

/// The entries of an index document, in document order.
pub fn parse_index_content(content: &str) -> (r: Vec<IndexEntry>)
    ensures
        entries_view(r@) == index_entries(events_of(content@)),
{
    let events = markdown_events(content);
    entries_from_events(&events)
}

} // verus!
