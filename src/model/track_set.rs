//! The merged tracks, keyed by identity and kept in identity order.
use vstd::prelude::*;

use crate::model::track::{Track, TrackMetadata, TrackView};
use crate::parser::load::{merged_track, meta_opt_view};
use crate::parser::markdown::events_of;
use crate::parser::plan::{parse_plan_content, plan_phases};
use crate::text::chars_of;

verus! {

/// Lexicographic order on character sequences, by code point; this is the
/// order of `String`'s `Ord`.
pub open spec fn lex_lt(a: Seq<char>, b: Seq<char>) -> bool
    decreases a.len(),
{
    if b.len() == 0 {
        false
    } else if a.len() == 0 {
        true
    } else if a[0] != b[0] {
        a[0] < b[0]
    } else {
        lex_lt(a.drop_first(), b.drop_first())
    }
}

pub proof fn lemma_lex_irreflexive(a: Seq<char>)
    ensures
        !lex_lt(a, a),
    decreases a.len(),
{
    if a.len() > 0 {
        lemma_lex_irreflexive(a.drop_first());
    }
}

pub proof fn lemma_lex_transitive(a: Seq<char>, b: Seq<char>, c: Seq<char>)
    requires
        lex_lt(a, b),
        lex_lt(b, c),
    ensures
        lex_lt(a, c),
    decreases a.len(),
{
    if a.len() > 0 && a[0] == b[0] && b[0] == c[0] {
        lemma_lex_transitive(a.drop_first(), b.drop_first(), c.drop_first());
    }
}

pub proof fn lemma_lex_total(a: Seq<char>, b: Seq<char>)
    requires
        a != b,
        !lex_lt(a, b),
    ensures
        lex_lt(b, a),
    decreases a.len(),
{
    if a.len() == 0 && b.len() == 0 {
        assert(a =~= b);
    }
    if a.len() > 0 && b.len() > 0 && a[0] == b[0] {
        if a.drop_first() == b.drop_first() {
            assert(a.drop_first().len() == a.len() - 1);
            assert(b.drop_first().len() == b.len() - 1);
            assert forall|i: int| 0 <= i < a.len() implies a[i] == b[i] by {
                if i > 0 {
                    assert(a[i] == a.drop_first()[i - 1]);
                    assert(b[i] == b.drop_first()[i - 1]);
                }
            }
            assert(a =~= b);
        } else {
            lemma_lex_total(a.drop_first(), b.drop_first());
        }
    }
}

/// Whether `a` sorts before `b`.
pub fn lex_less(a: &Vec<char>, b: &Vec<char>) -> (r: bool)
    ensures
        r == lex_lt(a@, b@),
{
    let mut i: usize = 0;
    proof {
        assert(a@.skip(0) =~= a@);
        assert(b@.skip(0) =~= b@);
    }
    while i < a.len() && i < b.len() && a[i] == b[i]
        invariant
            i <= a@.len(),
            i <= b@.len(),
            lex_lt(a@, b@) == lex_lt(a@.skip(i as int), b@.skip(i as int)),
        decreases a.len() - i,
    {
        proof {
            assert(a@.skip(i as int).drop_first() =~= a@.skip(i + 1));
            assert(b@.skip(i as int).drop_first() =~= b@.skip(i + 1));
            assert(a@.skip(i as int)[0] == a@[i as int]);
            assert(b@.skip(i as int)[0] == b@[i as int]);
        }
        i += 1;
    }
    proof {
        if i < a.len() {
            assert(a@.skip(i as int)[0] == a@[i as int]);
        }
        if i < b.len() {
            assert(b@.skip(i as int)[0] == b@[i as int]);
        }
    }
    if i == b.len() {
        false
    } else if i == a.len() {
        true
    } else {
        a[i] < b[i]
    }
}

/// Identities strictly increasing.
pub open spec fn sorted_ids(s: Seq<TrackView>) -> bool {
    forall|i: int, j: int| 0 <= i < j < s.len() ==> lex_lt(#[trigger] s[i].id, #[trigger] s[j].id)
}

/// The tracks as a map from identity to track; a later track with an
/// identity already present replaces the earlier one.
pub open spec fn as_map(s: Seq<TrackView>) -> Map<Seq<char>, TrackView>
    decreases s.len(),
{
    if s.len() == 0 {
        Map::empty()
    } else {
        as_map(s.drop_last()).insert(s.last().id, s.last())
    }
}

pub proof fn lemma_as_map_dom(s: Seq<TrackView>, k: Seq<char>)
    ensures
        as_map(s).dom().contains(k) <==> exists|i: int| 0 <= i < s.len() && #[trigger] s[i].id == k,
    decreases s.len(),
{
    if s.len() > 0 {
        lemma_as_map_dom(s.drop_last(), k);
        if as_map(s.drop_last()).dom().contains(k) {
            let i = choose|i: int| 0 <= i < s.drop_last().len() && #[trigger] s.drop_last()[i].id == k;
            assert(s[i].id == k);
        }
        if exists|i: int| 0 <= i < s.len() && #[trigger] s[i].id == k {
            let i = choose|i: int| 0 <= i < s.len() && #[trigger] s[i].id == k;
            if i < s.len() - 1 {
                assert(s.drop_last()[i].id == k);
            }
        }
    }
}

/// In a sorted sequence, the track at `i` is what the map holds for its key.
pub proof fn lemma_as_map_at(s: Seq<TrackView>, i: int)
    requires
        sorted_ids(s),
        0 <= i < s.len(),
    ensures
        as_map(s).dom().contains(s[i].id),
        as_map(s)[s[i].id] == s[i],
    decreases s.len(),
{
    if i < s.len() - 1 {
        assert(sorted_ids(s.drop_last()));
        lemma_as_map_at(s.drop_last(), i);
        assert(lex_lt(s[i].id, s.last().id));
        lemma_lex_irreflexive(s[i].id);
    }
}

pub proof fn lemma_as_map_insert(s: Seq<TrackView>, p: int, t: TrackView)
    requires
        0 <= p <= s.len(),
        forall|i: int| 0 <= i < s.len() ==> #[trigger] s[i].id != t.id,
    ensures
        as_map(s.insert(p, t)) == as_map(s).insert(t.id, t),
    decreases s.len(),
{
    if p == s.len() {
        assert(s.insert(p, t).drop_last() =~= s);
    } else {
        let u = s.insert(p, t);
        assert(u.drop_last() =~= s.drop_last().insert(p, t));
        assert(u.last() == s.last());
        lemma_as_map_insert(s.drop_last(), p, t);
        assert(as_map(u) =~= as_map(s).insert(t.id, t));
    }
}

pub proof fn lemma_as_map_update(s: Seq<TrackView>, p: int, t: TrackView)
    requires
        0 <= p < s.len(),
        s[p].id == t.id,
        forall|i: int| 0 <= i < s.len() && i != p ==> #[trigger] s[i].id != t.id,
    ensures
        as_map(s.update(p, t)) == as_map(s).insert(t.id, t),
    decreases s.len(),
{
    let u = s.update(p, t);
    if p == s.len() - 1 {
        assert(u.drop_last() =~= s.drop_last());
        assert(as_map(u) =~= as_map(s).insert(t.id, t));
    } else {
        assert(u.drop_last() =~= s.drop_last().update(p, t));
        assert(u.last() == s.last());
        lemma_as_map_update(s.drop_last(), p, t);
        assert(as_map(u) =~= as_map(s).insert(t.id, t));
    }
}

fn id_before(t: &Track, k: &Vec<char>) -> (r: bool)
    ensures
        r == lex_lt(t@.id, k@),
{
    let c = chars_of(t.id.as_str());
    lex_less(&c, k)
}

/// Tracks keyed by identity, in identity order.
#[derive(Debug, Clone)]
pub struct TrackSet {
    tracks: Vec<Track>,
}

pub open spec fn tracks_view(v: Seq<Track>) -> Seq<TrackView> {
    v.map_values(|t: Track| t@)
}

impl View for TrackSet {
    type V = Seq<TrackView>;

    closed spec fn view(&self) -> Seq<TrackView> {
        tracks_view(self.tracks@)
    }
}

impl TrackSet {
    /// Identities strictly increasing.
    pub open spec fn wf(&self) -> bool {
        sorted_ids(self@)
    }

    pub fn new() -> (r: TrackSet)
        ensures
            r.wf(),
            r@ == Seq::<TrackView>::empty(),
    {
        let r = TrackSet { tracks: Vec::new() };
        proof {
            assert(r@ =~= Seq::<TrackView>::empty());
        }
        r
    }

    pub fn len(&self) -> (r: usize)
        ensures
            r == self@.len(),
    {
        self.tracks.len()
    }

    /// The tracks, in identity order.
    pub fn tracks(&self) -> (r: &Vec<Track>)
        ensures
            tracks_view(r@) == self@,
    {
        &self.tracks
    }

    /// The track at position `i` in identity order.
    pub fn at(&self, i: usize) -> (r: &Track)
        requires
            i < self@.len(),
        ensures
            r@ == self@[i as int],
    {
        &self.tracks[i]
    }

    /// The track with identity `id`, if any.
    pub fn get(&self, id: &str) -> (r: Option<&Track>)
        requires
            self.wf(),
        ensures
            match r {
                Some(t) => as_map(self@).dom().contains(id@) && t@ == as_map(self@)[id@],
                None => !as_map(self@).dom().contains(id@),
            },
    {
        let k = chars_of(id);
        let mut i: usize = 0;
        while i < self.tracks.len()
            invariant
                self.wf(),
                k@ == id@,
                i <= self@.len(),
                self@ == tracks_view(self.tracks@),
                forall|j: int| 0 <= j < i ==> #[trigger] self@[j].id != id@,
            decreases self.tracks.len() - i,
        {
            let c = chars_of(self.tracks[i].id.as_str());
            proof {
                assert(self@[i as int] == self.tracks@[i as int]@);
            }
            let hit = crate::text::same_chars(&c, &k);
            proof {
                assert(c@ == self@[i as int].id);
            }
            if hit {
                proof {
                    lemma_as_map_at(self@, i as int);
                }
                return Some(&self.tracks[i]);
            }
            i += 1;
        }
        proof {
            lemma_as_map_dom(self@, id@);
        }
        None
    }

    /// Folds a track's metadata and plan document into the track at
    /// position `i`, then shows its plan as done if its status is Complete.
    pub fn merge_at(&mut self, i: usize, metadata: Option<TrackMetadata>, plan: Option<&str>)
        requires
            old(self).wf(),
            i < old(self)@.len(),
        ensures
            final(self).wf(),
            final(self)@ == old(self)@.update(
                i as int,
                merged_track(
                    old(self)@[i as int],
                    meta_opt_view(metadata),
                    match plan {
                        Some(p) => Some(plan_phases(events_of(p@))),
                        None => None,
                    },
                ),
            ),
    {
        let phases = match plan {
            Some(p) => Some(parse_plan_content(p)),
            None => None,
        };
        let ghost s = self@;
        let mut t = self.tracks.remove(i);
        proof {
            assert(t@ == s[i as int]);
        }
        t.merge_sources(metadata, phases);
        self.tracks.insert(i, t);
        proof {
            assert(self@ =~= s.update(i as int, t@));
            assert(t@.id == s[i as int].id);
            assert forall|a: int, b: int| 0 <= a < b < self@.len() implies lex_lt(
                #[trigger] self@[a].id,
                #[trigger] self@[b].id,
            ) by {
                assert(lex_lt(s[a].id, s[b].id));
            }
        }
    }

    /// Adds a track; one with the same identity is replaced.
    pub fn insert(&mut self, t: Track)
        requires
            old(self).wf(),
        ensures
            final(self).wf(),
            as_map(final(self)@) == as_map(old(self)@).insert(t@.id, t@),
    {
        let k = chars_of(t.id.as_str());
        let ghost s = self@;
        let mut p: usize = 0;
        while p < self.tracks.len() && id_before(&self.tracks[p], &k)
            invariant
                s == self@,
                s == tracks_view(self.tracks@),
                k@ == t@.id,
                p <= s.len(),
                forall|j: int| 0 <= j < p ==> lex_lt(#[trigger] s[j].id, k@),
            decreases self.tracks.len() - p,
        {
            p += 1;
        }
        let same = if p < self.tracks.len() {
            let c = chars_of(self.tracks[p].id.as_str());
            crate::text::same_chars(&c, &k)
        } else {
            false
        };
        if same {
            self.tracks.remove(p);
            self.tracks.insert(p, t);
            proof {
                assert(self@ =~= s.update(p as int, t@));
                assert forall|i: int| 0 <= i < s.len() && i != p implies #[trigger] s[i].id != t@.id by {
                    if i < p {
                        assert(lex_lt(s[i].id, s[p as int].id));
                    } else {
                        assert(lex_lt(s[p as int].id, s[i].id));
                    }
                    lemma_lex_irreflexive(s[p as int].id);
                }
                lemma_as_map_update(s, p as int, t@);
            }
        } else {
            self.tracks.insert(p, t);
            proof {
                assert(self@ =~= s.insert(p as int, t@));
                if p < s.len() {
                    lemma_lex_total(s[p as int].id, k@);
                }
                assert forall|i: int| 0 <= i < s.len() implies #[trigger] s[i].id != t@.id by {
                    if i < p {
                        lemma_lex_irreflexive(k@);
                    } else {
                        if i > p {
                            lemma_lex_transitive(k@, s[p as int].id, s[i].id);
                        }
                        lemma_lex_irreflexive(k@);
                    }
                }
                assert forall|i: int, j: int| 0 <= i < j < self@.len() implies lex_lt(
                    #[trigger] self@[i].id,
                    #[trigger] self@[j].id,
                ) by {
                    if j < p {
                    } else if j == p {
                    } else if i < p {
                        lemma_lex_transitive(s[i].id, k@, s[p as int].id);
                        if j - 1 > p {
                            lemma_lex_transitive(s[i].id, s[p as int].id, s[j - 1].id);
                        }
                    } else if i == p {
                        if j - 1 > p {
                            lemma_lex_transitive(k@, s[p as int].id, s[j - 1].id);
                        }
                    } else {
                    }
                }
                lemma_as_map_insert(s, p as int, t@);
            }
        }
    }
}

} // verus!
