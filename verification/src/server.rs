//! The four request handlers of the route-guide service: point lookup,
//! range query, route aggregation, and the location-keyed note relay.
//!
//! Streamed calls are modelled as explicit per-call state (`RouteRecorder`,
//! `NoteBuffer`) advanced once per incoming message; the whole-sequence
//! methods state what a complete call returns.

use vstd::prelude::*;
use crate::types::{Feature, FeatureDatabase, Point, Rectangle, RouteNote, RouteSummary};
use crate::util::{
    check_feature, feature_exists, in_range, point_eq, spec_feature_exists, spec_find_feature,
    spec_in_range,
};

verus! {

/// The features of `features` that are named and lie in `rect`, in their
/// original order.
pub open spec fn spec_features_in_range(features: Seq<Feature>, rect: Rectangle) -> Seq<Feature>
    decreases features.len(),
{
    if features.len() == 0 {
        Seq::empty()
    } else {
        let rest = spec_features_in_range(features.drop_last(), rect);
        if spec_feature_exists(features.last()) && spec_in_range(features.last().location, rect) {
            rest.push(features.last())
        } else {
            rest
        }
    }
}

/// The named features of `features`, in their original order.
pub open spec fn spec_named_features(features: Seq<Feature>) -> Seq<Feature>
    decreases features.len(),
{
    if features.len() == 0 {
        Seq::empty()
    } else {
        let rest = spec_named_features(features.drop_last());
        if spec_feature_exists(features.last()) {
            rest.push(features.last())
        } else {
            rest
        }
    }
}

/// Whether the first stored feature at `point` is a named one.
pub open spec fn spec_found_named(features: Seq<Feature>, point: Point) -> bool {
    match spec_find_feature(features, point) {
        Some(f) => spec_feature_exists(f),
        None => false,
    }
}

/// How many of `points`, counted with multiplicity, hit a named stored
/// feature.
pub open spec fn spec_named_count(features: Seq<Feature>, points: Seq<Point>) -> int
    decreases points.len(),
{
    if points.len() == 0 {
        0
    } else {
        spec_named_count(features, points.drop_last()) + if spec_found_named(
            features,
            points.last(),
        ) {
            1int
        } else {
            0int
        }
    }
}

/// The sum of a sequence of leg distances.
pub open spec fn spec_sum(dists: Seq<i32>) -> int
    decreases dists.len(),
{
    if dists.len() == 0 {
        0
    } else {
        spec_sum(dists.drop_last()) + dists.last()
    }
}

/// The notes of `notes` located exactly at `location`, in arrival order.
pub open spec fn spec_notes_at(notes: Seq<RouteNote>, location: Point) -> Seq<RouteNote>
    decreases notes.len(),
{
    if notes.len() == 0 {
        Seq::empty()
    } else {
        let rest = spec_notes_at(notes.drop_last(), location);
        if notes.last().location == location {
            rest.push(notes.last())
        } else {
            rest
        }
    }
}

/// Everything a complete chat call emits: for each incoming note, in
/// arrival order, the earlier notes at its location.
pub open spec fn spec_route_chat(notes: Seq<RouteNote>) -> Seq<RouteNote>
    decreases notes.len(),
{
    if notes.len() == 0 {
        Seq::empty()
    } else {
        spec_route_chat(notes.drop_last()) + spec_notes_at(
            notes.drop_last(),
            notes.last().location,
        )
    }
}

/// The per-call accumulator of a route-recording call. The caller feeds it
/// one point at a time together with the length of the leg from the
/// previous point (the first point has no leg).
pub struct RouteRecorder {
    pub prev: Option<Point>,
    pub point_count: i32,
    pub feature_count: i32,
    pub distance: i32,
}

impl RouteRecorder {
    /// The counters never go astray: at most one feature per point.
    pub open spec fn wf(&self) -> bool {
        0 <= self.feature_count <= self.point_count
    }

    /// A fresh accumulator: no previous point, all counters zero.
    pub fn new() -> (r: Self)
        ensures
            r.wf(),
            r.prev is None,
            r.point_count == 0,
            r.feature_count == 0,
            r.distance == 0,
    {
        RouteRecorder { prev: None, point_count: 0, feature_count: 0, distance: 0 }
    }

    /// The most recent point fed in, if any; the next leg starts here.
    pub fn prev_point(&self) -> (r: Option<Point>)
        ensures
            r == self.prev,
    {
        self.prev
    }

    /// Folds one incoming point into the running summary: the point is
    /// counted, a named stored feature at it is counted, and the leg from
    /// the previous point — `dist_from_prev`, ignored for the first point —
    /// is added to the total.
    pub fn add_point(&mut self, features: &FeatureDatabase, point: Point, dist_from_prev: i32)
        requires
            old(self).wf(),
            old(self).point_count < i32::MAX,
            old(self).prev is Some ==> i32::MIN <= old(self).distance + dist_from_prev
                <= i32::MAX,
        ensures
            final(self).wf(),
            final(self).point_count == old(self).point_count + 1,
            final(self).feature_count == old(self).feature_count + if spec_found_named(
                features@,
                point,
            ) {
                1int
            } else {
                0int
            },
            final(self).distance == old(self).distance + if old(self).prev is Some {
                dist_from_prev as int
            } else {
                0int
            },
            final(self).prev == Some(point),
    {
        self.point_count = self.point_count + 1;
        match check_feature(&features.feature, &point) {
            Some(f) => {
                if feature_exists(&f) {
                    self.feature_count = self.feature_count + 1;
                }
            },
            None => {},
        }
        match self.prev {
            Some(_) => {
                self.distance = self.distance + dist_from_prev;
            },
            None => {},
        }
        self.prev = Some(point);
    }

    /// Closes the call: the counters become the summary, and the measured
    /// call duration its elapsed time. Never more features than points.
    pub fn finish(self, elapsed_time: i32) -> (r: RouteSummary)
        requires
            self.wf(),
        ensures
            r.point_count == self.point_count,
            r.feature_count == self.feature_count,
            r.distance == self.distance,
            r.elapsed_time == elapsed_time,
            0 <= r.feature_count <= r.point_count,
    {
        RouteSummary {
            point_count: self.point_count,
            feature_count: self.feature_count,
            distance: self.distance,
            elapsed_time,
        }
    }
}

/// The per-call buffer of a chat call: every note received so far on this
/// call, in arrival order.
pub struct NoteBuffer {
    pub notes: Vec<RouteNote>,
}

impl NoteBuffer {
    /// A fresh, empty buffer.
    pub fn new() -> (b: Self)
        ensures
            b.notes@ == Seq::<RouteNote>::empty(),
    {
        NoteBuffer { notes: Vec::new() }
    }

    /// Handles one incoming note: returns the replay — every strictly
    /// earlier note at the same location, in arrival order — and only then
    /// appends the note itself, so a note never matches itself.
    pub fn process_note(&mut self, note: RouteNote) -> (replay: Vec<RouteNote>)
        ensures
            replay@ == spec_notes_at(old(self).notes@, note.location),
            final(self).notes@ == old(self).notes@.push(note),
    {
        let mut replay: Vec<RouteNote> = Vec::new();
        let n = self.notes.len();
        let mut i: usize = 0;
        proof {
            assert(self.notes@.take(0) =~= Seq::<RouteNote>::empty());
        }
        while i < n
            invariant
                0 <= i <= n,
                n == self.notes@.len(),
                self.notes@ == old(self).notes@,
                replay@ == spec_notes_at(self.notes@.take(i as int), note.location),
            decreases n - i,
        {
            proof {
                assert(self.notes@.take(i as int + 1).drop_last() =~= self.notes@.take(i as int));
                assert(self.notes@.take(i as int + 1).last() == self.notes@[i as int]);
            }
            if point_eq(&self.notes[i].location, &note.location) {
                replay.push(self.notes[i].duplicate());
            }
            i += 1;
        }
        proof {
            assert(self.notes@.take(n as int) =~= self.notes@);
        }
        self.notes.push(note);
        replay
    }
}

/// The service façade: owns the immutable feature database and answers the
/// four kinds of call from it. No handler ever changes the database.
pub struct RouteGuideService {
    pub features: FeatureDatabase,
}

impl RouteGuideService {
    /// The stored features, as the contracts speak of them.
    pub open spec fn db(&self) -> Seq<Feature> {
        self.features@
    }

    /// A service answering from the given database.
    pub fn new(features: FeatureDatabase) -> (s: Self)
        ensures
            s.db() == features@,
    {
        RouteGuideService { features }
    }

    /// Point lookup: the stored feature at exactly this point, unchanged;
    /// if there is none, a feature with an empty name carrying the queried
    /// point back. Always succeeds.
    pub fn get_feature(&self, point: &Point) -> (r: Feature)
        ensures
            spec_find_feature(self.db(), *point) matches Some(f) ==> r == f,
            spec_find_feature(self.db(), *point) is None ==> r.name@
                == Seq::<char>::empty() && r.location == *point,
    {
        match check_feature(&self.features.feature, point) {
            Some(f) => f,
            None => Feature { name: String::new(), location: *point },
        }
    }

    /// Range query: the named features inside the rectangle, in the
    /// database's original order. An empty answer is a valid one.
    pub fn list_features(&self, rect: &Rectangle) -> (r: Vec<Feature>)
        ensures
            r@ == spec_features_in_range(self.db(), *rect),
    {
        let mut r: Vec<Feature> = Vec::new();
        let feats = &self.features.feature;
        let n = feats.len();
        let mut i: usize = 0;
        proof {
            assert(feats@.take(0) =~= Seq::<Feature>::empty());
        }
        while i < n
            invariant
                0 <= i <= n,
                n == feats@.len(),
                r@ == spec_features_in_range(feats@.take(i as int), *rect),
            decreases n - i,
        {
            proof {
                assert(feats@.take(i as int + 1).drop_last() =~= feats@.take(i as int));
                assert(feats@.take(i as int + 1).last() == feats@[i as int]);
            }
            let f = &feats[i];
            if feature_exists(f) && in_range(&f.location, rect) {
                r.push(f.duplicate());
            }
            i += 1;
        }
        proof {
            assert(feats@.take(n as int) =~= feats@);
        }
        r
    }

    /// Route aggregation over a complete input sequence. `dists` holds the
    /// leg lengths, one per consecutive pair of points, as the caller
    /// measured them; `elapsed_time` is the measured call duration. The
    /// summary counts every point, counts the points that hit a named
    /// stored feature, and sums the legs.
    pub fn record_route(
        &self,
        points: &Vec<Point>,
        dists: &Vec<i32>,
        elapsed_time: i32,
    ) -> (r: RouteSummary)
        requires
            points@.len() == 0 ==> dists@.len() == 0,
            points@.len() > 0 ==> dists@.len() == points@.len() - 1,
            points@.len() <= i32::MAX,
            forall|k: int|
                0 <= k <= dists@.len() ==> i32::MIN <= spec_sum(#[trigger] dists@.take(k))
                    <= i32::MAX,
        ensures
            r.point_count == points@.len(),
            r.feature_count == spec_named_count(self.db(), points@),
            r.distance == spec_sum(dists@),
            r.elapsed_time == elapsed_time,
            0 <= r.feature_count <= r.point_count,
    {
        let mut rec = RouteRecorder::new();
        let n = points.len();
        let mut i: usize = 0;
        proof {
            assert(points@.take(0) =~= Seq::<Point>::empty());
            assert(dists@.take(0) =~= Seq::<i32>::empty());
        }
        while i < n
            invariant
                0 <= i <= n,
                n == points@.len(),
                points@.len() <= i32::MAX,
                points@.len() > 0 ==> dists@.len() == points@.len() - 1,
                forall|k: int|
                    0 <= k <= dists@.len() ==> i32::MIN <= spec_sum(#[trigger] dists@.take(k))
                        <= i32::MAX,
                rec.wf(),
                rec.point_count == i,
                rec.feature_count == spec_named_count(self.db(), points@.take(i as int)),
                rec.distance == spec_sum(dists@.take(if i == 0 {
                    0int
                } else {
                    i - 1
                })),
                rec.prev == (if i == 0 {
                    Option::<Point>::None
                } else {
                    Some(points@[i as int - 1])
                }),
            decreases n - i,
        {
            let d: i32 = if i == 0 {
                0
            } else {
                proof {
                    assert(dists@.take(i as int).drop_last() =~= dists@.take(i as int - 1));
                    assert(dists@.take(i as int).last() == dists@[i as int - 1]);
                    assert(i32::MIN <= spec_sum(dists@.take(i as int)) <= i32::MAX);
                    assert(i32::MIN <= spec_sum(dists@.take(i as int - 1)) <= i32::MAX);
                }
                dists[i - 1]
            };
            proof {
                assert(points@.take(i as int + 1).drop_last() =~= points@.take(i as int));
                assert(points@.take(i as int + 1).last() == points@[i as int]);
            }
            rec.add_point(&self.features, points[i], d);
            i += 1;
        }
        proof {
            assert(points@.take(n as int) =~= points@);
            if n > 0 {
                assert(dists@.take(n as int - 1) =~= dists@);
            }
        }
        rec.finish(elapsed_time)
    }

    /// Note relay over a complete input sequence: the concatenation, in
    /// arrival order, of each note's replay — the strictly earlier notes at
    /// its location.
    pub fn route_chat(&self, notes: &Vec<RouteNote>) -> (out: Vec<RouteNote>)
        ensures
            out@ == spec_route_chat(notes@),
    {
        let mut out: Vec<RouteNote> = Vec::new();
        let mut buffer = NoteBuffer::new();
        let n = notes.len();
        let mut i: usize = 0;
        proof {
            assert(notes@.take(0) =~= Seq::<RouteNote>::empty());
        }
        while i < n
            invariant
                0 <= i <= n,
                n == notes@.len(),
                buffer.notes@ == notes@.take(i as int),
                out@ == spec_route_chat(notes@.take(i as int)),
            decreases n - i,
        {
            proof {
                assert(notes@.take(i as int + 1).drop_last() =~= notes@.take(i as int));
                assert(notes@.take(i as int + 1).last() == notes@[i as int]);
            }
            let mut replay = buffer.process_note(notes[i].duplicate());
            out.append(&mut replay);
            i += 1;
        }
        proof {
            assert(notes@.take(n as int) =~= notes@);
        }
        out
    }
}

/// No point of the route hits more named features than there are points:
/// the feature count of a summary can never exceed its point count.
pub proof fn lemma_named_count_bounds(features: Seq<Feature>, points: Seq<Point>)
    ensures
        0 <= spec_named_count(features, points) <= points.len(),
    decreases points.len(),
{
    if points.len() > 0 {
        lemma_named_count_bounds(features, points.drop_last());
    }
}

/// A rectangle containing no named feature yields an empty range query.
pub proof fn lemma_list_features_empty(features: Seq<Feature>, rect: Rectangle)
    requires
        forall|i: int|
            0 <= i < features.len() ==> !(spec_feature_exists(#[trigger] features[i])
                && spec_in_range(features[i].location, rect)),
    ensures
        spec_features_in_range(features, rect) == Seq::<Feature>::empty(),
    decreases features.len(),
{
    if features.len() > 0 {
        assert(forall|i: int|
            0 <= i < features.drop_last().len() ==> features.drop_last()[i] == features[i]);
        lemma_list_features_empty(features.drop_last(), rect);
    }
}

/// A rectangle containing every named feature yields exactly the named
/// features, in the database's original order.
pub proof fn lemma_list_features_all(features: Seq<Feature>, rect: Rectangle)
    requires
        forall|i: int|
            0 <= i < features.len() ==> (spec_feature_exists(#[trigger] features[i])
                ==> spec_in_range(features[i].location, rect)),
    ensures
        spec_features_in_range(features, rect) == spec_named_features(features),
    decreases features.len(),
{
    if features.len() > 0 {
        assert(forall|i: int|
            0 <= i < features.drop_last().len() ==> features.drop_last()[i] == features[i]);
        lemma_list_features_all(features.drop_last(), rect);
    }
}

/// A replay splits over the buffer: the notes at a location among
/// `earlier + later` are those among `earlier` followed by those among
/// `later`. With the two lemmas below this pins the replay order down.
pub proof fn lemma_notes_at_split(earlier: Seq<RouteNote>, later: Seq<RouteNote>, location: Point)
    ensures
        spec_notes_at(earlier + later, location) == spec_notes_at(earlier, location)
            + spec_notes_at(later, location),
    decreases later.len(),
{
    if later.len() == 0 {
        assert(earlier + later =~= earlier);
        assert(spec_notes_at(earlier, location) + spec_notes_at(later, location)
            =~= spec_notes_at(earlier, location));
    } else {
        assert((earlier + later).drop_last() =~= earlier + later.drop_last());
        assert((earlier + later).last() == later.last());
        lemma_notes_at_split(earlier, later.drop_last(), location);
    }
}

/// Notes all located at `location` are replayed whole and in order.
pub proof fn lemma_notes_at_all(notes: Seq<RouteNote>, location: Point)
    requires
        forall|i: int| 0 <= i < notes.len() ==> (#[trigger] notes[i]).location == location,
    ensures
        spec_notes_at(notes, location) == notes,
    decreases notes.len(),
{
    if notes.len() > 0 {
        assert(forall|i: int|
            0 <= i < notes.drop_last().len() ==> notes.drop_last()[i] == notes[i]);
        lemma_notes_at_all(notes.drop_last(), location);
        assert(spec_notes_at(notes, location) =~= notes);
    }
}

/// A note at a location with no prior note there gets no replay.
pub proof fn lemma_notes_at_none(notes: Seq<RouteNote>, location: Point)
    requires
        forall|i: int| 0 <= i < notes.len() ==> (#[trigger] notes[i]).location != location,
    ensures
        spec_notes_at(notes, location) == Seq::<RouteNote>::empty(),
    decreases notes.len(),
{
    if notes.len() > 0 {
        assert(forall|i: int|
            0 <= i < notes.drop_last().len() ==> notes.drop_last()[i] == notes[i]);
        lemma_notes_at_none(notes.drop_last(), location);
    }
}

} // verus!
