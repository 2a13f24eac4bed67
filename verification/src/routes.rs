//! The client-streaming aggregation: consume a route of points one at a
//! time, and produce a single summary once the inbound stream ends.

use vstd::prelude::*;

use crate::geo::{distance, spec_distance, valid_point, Point};
use crate::store::{spec_lookup, Feature, FeatureStore};

verus! {

/// The aggregate returned once per client-streaming call: how many points
/// arrived, how many matched a stored feature, the summed path distance in
/// whole meters, and the wall-clock seconds the call took.
#[derive(Clone, Copy, PartialEq, Eq, Structural, Debug)]
pub struct RouteSummary {
    pub point_count: u32,
    pub feature_count: u32,
    pub distance: u64,
    pub elapsed_time: u32,
}

/// One when the point matches a stored feature exactly, else zero.
pub open spec fn spec_hit(store: Seq<Feature>, p: Point) -> int {
    if spec_lookup(store, p) is Some {
        1
    } else {
        0
    }
}

/// How many points of the route match a stored feature exactly.
pub open spec fn spec_feature_hits(store: Seq<Feature>, pts: Seq<Point>) -> int
    decreases pts.len(),
{
    if pts.len() == 0 {
        0
    } else {
        spec_feature_hits(store, pts.drop_last()) + spec_hit(store, pts.last())
    }
}

/// The sum of the distances between consecutive points of the route:
/// zero for an empty or single-point route.
pub open spec fn spec_path_distance(pts: Seq<Point>) -> int
    decreases pts.len(),
{
    if pts.len() < 2 {
        0
    } else {
        spec_path_distance(pts.drop_last()) + spec_distance(pts[pts.len() - 2], pts.last())
    }
}

/// A route the aggregator accepts: every point carries real coordinates,
/// and the count fits the summary's counter.
pub open spec fn spec_valid_route(pts: Seq<Point>) -> bool {
    &&& pts.len() <= u32::MAX
    &&& forall|i: int| 0 <= i < pts.len() ==> valid_point(#[trigger] pts[i])
}

/// The running state of one client-streaming call, owned by that call
/// alone: counts, the distance so far, and the previous point if any.
/// A call that aborts mid-stream simply drops the accumulator; no partial
/// summary is ever produced from it.
pub struct RouteAccumulator {
    pub point_count: u32,
    pub feature_count: u32,
    pub distance: u64,
    pub previous: Option<Point>,
}

impl RouteAccumulator {
    pub fn new() -> (a: Self)
        ensures
            a.point_count == 0,
            a.feature_count == 0,
            a.distance == 0,
            a.previous is None,
    {
        RouteAccumulator { point_count: 0, feature_count: 0, distance: 0, previous: None }
    }

    /// Consumes one inbound point: counts it, counts an exact feature
    /// match, and adds the distance from the previous point when there is
    /// one.
    pub fn add_point(&mut self, store: &FeatureStore, p: Point)
        requires
            valid_point(p),
            old(self).point_count < u32::MAX,
            old(self).feature_count <= old(self).point_count,
            old(self).distance <= 0xffff_ffff_ffff_ffff - 20_015_087,
            old(self).previous matches Some(q) ==> valid_point(q),
        ensures
            final(self).point_count == old(self).point_count + 1,
            final(self).feature_count as int == old(self).feature_count + spec_hit(store@, p),
            final(self).distance as int == old(self).distance + (match old(self).previous {
                Some(q) => spec_distance(q, p),
                None => 0int,
            }),
            final(self).previous == Some(p),
    {
        self.point_count = self.point_count + 1;
        match self.previous {
            Some(q) => {
                let d: u64 = distance(q, p);
                self.distance = self.distance + d;
            },
            None => {},
        }
        if self.find_hit(store, p) {
            self.feature_count = self.feature_count + 1;
        }
        self.previous = Some(p);
    }

    /// Whether the point matches a stored feature exactly.
    fn find_hit(&self, store: &FeatureStore, p: Point) -> (hit: bool)
        ensures
            hit == (spec_hit(store@, p) == 1),
    {
        store.find_exact(p).is_some()
    }

    /// Closes the aggregation once the inbound stream ended normally.
    /// `elapsed_time` is the wall-clock duration of the call in whole
    /// seconds, measured by the caller.
    pub fn finish(self, elapsed_time: u32) -> (s: RouteSummary)
        ensures
            s.point_count == self.point_count,
            s.feature_count == self.feature_count,
            s.distance == self.distance,
            s.elapsed_time == elapsed_time,
    {
        RouteSummary {
            point_count: self.point_count,
            feature_count: self.feature_count,
            distance: self.distance,
            elapsed_time: elapsed_time,
        }
    }
}

/// Consumes a whole route and produces its summary: the point count is
/// the route length, the feature count is the number of exact matches,
/// and the distance is the sum over consecutive pairs.
pub fn record_route(store: &FeatureStore, points: &Vec<Point>, elapsed_time: u32) -> (s:
    RouteSummary)
    requires
        spec_valid_route(points@),
    ensures
        s.point_count as int == points@.len(),
        s.feature_count as int == spec_feature_hits(store@, points@),
        s.distance as int == spec_path_distance(points@),
        s.elapsed_time == elapsed_time,
{
    let mut acc = RouteAccumulator::new();
    let mut i: usize = 0;
    while i < points.len()
        invariant
            i <= points@.len(),
            spec_valid_route(points@),
            acc.point_count as int == i as int,
            acc.feature_count <= acc.point_count,
            acc.feature_count as int == spec_feature_hits(store@, points@.take(i as int)),
            acc.distance as int == spec_path_distance(points@.take(i as int)),
            acc.distance as int <= 20_015_087 * (i as int),
            if i == 0 {
                acc.previous is None
            } else {
                acc.previous == Some(points@[i as int - 1])
            },
        decreases points@.len() - i,
    {
        let p = points[i];
        acc.add_point(store, p);
        proof {
            assert(points@.take(i as int + 1).drop_last() =~= points@.take(i as int));
            assert(points@.take(i as int + 1).last() == points@[i as int]);
        }
        i = i + 1;
    }
    proof {
        assert(points@.take(points@.len() as int) =~= points@);
    }
    acc.finish(elapsed_time)
}

/// The feature count never exceeds the point count: each point adds at
/// most one hit.
pub proof fn lemma_feature_hits_at_most_len(store: Seq<Feature>, pts: Seq<Point>)
    ensures
        0 <= spec_feature_hits(store, pts) <= pts.len(),
    decreases pts.len(),
{
    if pts.len() > 0 {
        lemma_feature_hits_at_most_len(store, pts.drop_last());
    }
}

} // verus!
