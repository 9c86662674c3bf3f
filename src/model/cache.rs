//! What a batch of changed files asks to reload.
use vstd::prelude::*;

use crate::model::track::TrackId;
use crate::text::{chars_of, is_text, same_chars, split, split_chars, string_of, views};

verus! {

/// What a batch of changed files asks to reload.
#[derive(Debug, Clone)]
pub enum ReloadScope {
    /// The index changed: everything is parsed again.
    Full,
    /// Only these tracks changed.
    Tracks(Vec<TrackId>),
}

pub enum ScopeView {
    Full,
    Tracks(Seq<Seq<char>>),
}

impl View for ReloadScope {
    type V = ScopeView;

    open spec fn view(&self) -> ScopeView {
        match self {
            ReloadScope::Full => ScopeView::Full,
            ReloadScope::Tracks(ids) => ScopeView::Tracks(ids@.map_values(|i: TrackId| i@)),
        }
    }
}

/// The components of a `/`-separated path, without empty and `.` parts.
pub open spec fn keep_components(s: Seq<Seq<char>>) -> Seq<Seq<char>>
    decreases s.len(),
{
    if s.len() == 0 {
        Seq::empty()
    } else if s.last().len() > 0 && s.last() != seq!['.'] {
        keep_components(s.drop_last()).push(s.last())
    } else {
        keep_components(s.drop_last())
    }
}

pub open spec fn components(p: Seq<char>) -> Seq<Seq<char>> {
    keep_components(split(p, '/'))
}

/// The last component of a path, unless it is `..`.
pub open spec fn file_name(p: Seq<char>) -> Option<Seq<char>> {
    let c = components(p);
    if c.len() > 0 && c.last() != ".."@ {
        Some(c.last())
    } else {
        None
    }
}

/// The track a path belongs to: the directory holding the file, when that
/// directory sits in one named `tracks`.
pub open spec fn path_track_id(p: Seq<char>) -> Option<Seq<char>> {
    let c = components(p);
    let n = c.len();
    if n >= 3 && c[n - 1] != ".."@ && c[n - 2] != ".."@ && c[n - 3] == "tracks"@ {
        Some(c[n - 2])
    } else {
        None
    }
}

/// The master index's file name.
pub open spec fn is_index_path(p: Seq<char>) -> bool {
    file_name(p) == Some("tracks.md"@)
}

/// The tracks the paths name, each once, in the order first seen.
pub open spec fn distinct_ids(ps: Seq<Seq<char>>) -> Seq<Seq<char>>
    decreases ps.len(),
{
    if ps.len() == 0 {
        Seq::empty()
    } else {
        let r = distinct_ids(ps.drop_last());
        match path_track_id(ps.last()) {
            Some(id) => if r.contains(id) {
                r
            } else {
                r.push(id)
            },
            None => r,
        }
    }
}

/// A change to the index reloads everything; otherwise the tracks whose
/// files changed are reloaded.
pub open spec fn classify(ps: Seq<Seq<char>>) -> ScopeView {
    if exists|i: int| 0 <= i < ps.len() && is_index_path(#[trigger] ps[i]) {
        ScopeView::Full
    } else {
        ScopeView::Tracks(distinct_ids(ps))
    }
}

fn components_exec(p: &Vec<char>) -> (r: Vec<Vec<char>>)
    ensures
        views(r@) == components(p@),
{
    let parts = split_chars(p, '/');
    let ghost pv = views(parts@);
    let mut r: Vec<Vec<char>> = Vec::new();
    let mut i: usize = 0;
    while i < parts.len()
        invariant
            pv == views(parts@),
            i <= parts@.len(),
            views(r@) == keep_components(pv.take(i as int)),
        decreases parts.len() - i,
    {
        proof {
            assert(pv.take(i + 1).drop_last() =~= pv.take(i as int));
            assert(pv.take(i + 1).last() == parts@[i as int]@);
        }
        if parts[i].len() > 0 && !is_text(&parts[i], ".") {
            let ghost before = views(r@);
            let n = parts[i].len();
            let c = crate::text::copy_range(&parts[i], 0, n);
            proof {
                assert(c@ =~= parts@[i as int]@);
                assert("."@ =~= seq!['.']) by {
                    reveal_strlit(".");
                }
            }
            r.push(c);
            proof {
                assert(views(r@) =~= before.push(parts@[i as int]@));
            }
        } else {
            proof {
                assert("."@ =~= seq!['.']) by {
                    reveal_strlit(".");
                }
            }
        }
        i += 1;
    }
    proof {
        assert(pv.take(i as int) =~= pv);
    }
    r
}

fn file_name_exec(p: &Vec<char>) -> (r: Option<Vec<char>>)
    ensures
        match r {
            Some(x) => file_name(p@) == Some(x@),
            None => file_name(p@) is None,
        },
{
    let c = components_exec(p);
    let n = c.len();
    if n > 0 && !is_text(&c[n - 1], "..") {
        let m = c[n - 1].len();
        let x = crate::text::copy_range(&c[n - 1], 0, m);
        proof {
            assert(x@ =~= c@[n - 1]@);
        }
        Some(x)
    } else {
        None
    }
}

fn path_track_id_exec(p: &Vec<char>) -> (r: Option<Vec<char>>)
    ensures
        match r {
            Some(x) => path_track_id(p@) == Some(x@),
            None => path_track_id(p@) is None,
        },
{
    let c = components_exec(p);
    let n = c.len();
    if n >= 3 && !is_text(&c[n - 1], "..") && !is_text(&c[n - 2], "..") && is_text(&c[n - 3], "tracks") {
        let m = c[n - 2].len();
        let x = crate::text::copy_range(&c[n - 2], 0, m);
        proof {
            assert(x@ =~= c@[n - 2]@);
        }
        Some(x)
    } else {
        None
    }
}

fn contains_chars(v: &Vec<Vec<char>>, x: &Vec<char>) -> (r: bool)
    ensures
        r == views(v@).contains(x@),
{
    let mut i: usize = 0;
    while i < v.len()
        invariant
            i <= v@.len(),
            forall|k: int| 0 <= k < i ==> #[trigger] v@[k]@ != x@,
        decreases v.len() - i,
    {
        if same_chars(&v[i], x) {
            proof {
                assert(views(v@)[i as int] == x@);
            }
            return true;
        }
        i += 1;
    }
    proof {
        if views(v@).contains(x@) {
            let k = choose|k: int| 0 <= k < views(v@).len() && views(v@)[k] == x@;
            assert(v@[k]@ == x@);
        }
    }
    false
}

/// The track a file path belongs to, for paths shaped
/// `.../tracks/<id>/<file>`.
pub fn extract_track_id_from_path(path: &str) -> (r: Option<TrackId>)
    ensures
        match r {
            Some(id) => path_track_id(path@) == Some(id@),
            None => path_track_id(path@) is None,
        },
{
    let p = chars_of(path);
    match path_track_id_exec(&p) {
        Some(x) => Some(TrackId(string_of(&x))),
        None => None,
    }
}

/// The file names the dashboard watches: the index, the two metadata files
/// and the plan.
pub open spec fn is_watched_name(n: Seq<char>) -> bool {
    n == "tracks.md"@ || n == "metadata.json"@ || n == "meta.yaml"@ || n == "plan.md"@
}

/// Whether a changed path is one of the watched files.
pub fn is_conductor_file(path: &str) -> (r: bool)
    ensures
        r == (file_name(path@) matches Some(n) && is_watched_name(n)),
{
    let p = chars_of(path);
    match file_name_exec(&p) {
        Some(n) => is_text(&n, "tracks.md") || is_text(&n, "metadata.json") || is_text(&n, "meta.yaml")
            || is_text(&n, "plan.md"),
        None => false,
    }
}

/// Classifies batches of changed files into the reload they need.
#[derive(Debug, Clone, Copy)]
pub struct TrackCache {}

impl TrackCache {
    pub fn new() -> (r: TrackCache) {
        TrackCache {  }
    }

    /// Classifies changed paths: if any names the master index, everything
    /// reloads; otherwise each track named by a path `.../tracks/<id>/<file>`
    /// reloads, each once, in the order first seen.
    pub fn classify_changes(&self, paths: &Vec<String>) -> (r: ReloadScope)
        ensures
            r@ == classify(paths@.map_values(|p: String| p@)),
    {
        let ghost ps = paths@.map_values(|p: String| p@);
        let mut full = false;
        let mut ids: Vec<Vec<char>> = Vec::new();
        let mut i: usize = 0;
        while i < paths.len()
            invariant
                ps == paths@.map_values(|p: String| p@),
                i <= paths@.len(),
                full == exists|j: int| 0 <= j < i && is_index_path(#[trigger] ps[j]),
                views(ids@) == distinct_ids(ps.take(i as int)),
            decreases paths.len() - i,
        {
            proof {
                assert(ps.take(i + 1).drop_last() =~= ps.take(i as int));
                assert(ps.take(i + 1).last() == ps[i as int]);
            }
            let p = chars_of(paths[i].as_str());
            match file_name_exec(&p) {
                Some(name) => {
                    if is_text(&name, "tracks.md") {
                        full = true;
                    }
                },
                None => {},
            }
            match path_track_id_exec(&p) {
                Some(id) => {
                    if !contains_chars(&ids, &id) {
                        let ghost before = views(ids@);
                        ids.push(id);
                        proof {
                            assert(views(ids@) =~= before.push(id@));
                        }
                    }
                },
                None => {},
            }
            i += 1;
        }
        proof {
            assert(ps.take(i as int) =~= ps);
        }
        if full {
            ReloadScope::Full
        } else {
            let mut out: Vec<TrackId> = Vec::new();
            let mut k: usize = 0;
            while k < ids.len()
                invariant
                    k <= ids@.len(),
                    out@.len() == k,
                    forall|m: int| 0 <= m < k ==> #[trigger] out@[m]@ == ids@[m]@,
                decreases ids.len() - k,
            {
                out.push(TrackId(string_of(&ids[k])));
                k += 1;
            }
            proof {
                assert(out@.map_values(|i: TrackId| i@) =~= views(ids@));
            }
            ReloadScope::Tracks(out)
        }
    }
}

} // verus!
