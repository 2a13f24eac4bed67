//! The feature store: an immutable, ordered collection of located records,
//! loaded once before the first call and only ever read afterwards.

use vstd::prelude::*;

use crate::geo::{in_range, lemma_in_range_corner_swap, spec_in_range, spec_swapped, Point, Rectangle};

verus! {

/// A named record at a location. An empty name means the record is
/// unnamed; an absent location is the not-found representation that the
/// unary handler returns.
pub struct Feature {
    pub name: String,
    pub location: Option<Point>,
}

impl Clone for Feature {
    fn clone(&self) -> (r: Self)
        ensures
            r == *self,
    {
        Feature { name: self.name.clone(), location: self.location }
    }
}

/// The point with both coordinates zero stands for an absent location;
/// exact lookup treats it as matching nothing.
pub open spec fn spec_sentinel(p: Point) -> bool {
    p.latitude == 0 && p.longitude == 0
}

/// The first feature of `s` located exactly at `p`, if any.
pub open spec fn spec_find_first(s: Seq<Feature>, p: Point) -> Option<Feature>
    decreases s.len(),
{
    if s.len() == 0 {
        None
    } else if s.first().location == Some(p) {
        Some(s.first())
    } else {
        spec_find_first(s.drop_first(), p)
    }
}

/// Exact lookup: the first feature at `p`, none when `p` is absent from
/// the store or is the absent-location sentinel.
pub open spec fn spec_lookup(s: Seq<Feature>, p: Point) -> Option<Feature> {
    if spec_sentinel(p) {
        None
    } else {
        spec_find_first(s, p)
    }
}

/// Whether a feature has a location inside the rectangle.
pub open spec fn spec_located_in(f: Feature, r: Rectangle) -> bool {
    match f.location {
        Some(p) => spec_in_range(p, r),
        None => false,
    }
}

/// The subsequence of features located in `r`, in store order.
pub open spec fn spec_features_in(s: Seq<Feature>, r: Rectangle) -> Seq<Feature>
    decreases s.len(),
{
    if s.len() == 0 {
        Seq::empty()
    } else {
        let rest = spec_features_in(s.drop_last(), r);
        if spec_located_in(s.last(), r) {
            rest.push(s.last())
        } else {
            rest
        }
    }
}

/// The shared read-only dataset. It is populated once by the loader
/// outside the call path and never mutated afterwards, so concurrent
/// calls may read it without coordination.
pub struct FeatureStore {
    pub features: Vec<Feature>,
}

impl View for FeatureStore {
    type V = Seq<Feature>;

    open spec fn view(&self) -> Seq<Feature> {
        self.features@
    }
}

impl FeatureStore {
    /// Wraps an already-loaded dataset. Loading itself (file parsing and
    /// the like) is the collaborator's job, outside the call path.
    pub fn new(features: Vec<Feature>) -> (s: Self)
        ensures
            s@ == features@,
    {
        FeatureStore { features }
    }

    pub fn len(&self) -> (n: usize)
        ensures
            n == self@.len(),
    {
        self.features.len()
    }

    /// Linear scan for the first feature located exactly at `p`. The
    /// sentinel point (both coordinates zero) matches nothing.
    pub fn find_exact(&self, p: Point) -> (r: Option<Feature>)
        ensures
            r == spec_lookup(self@, p),
    {
        if p.latitude == 0 && p.longitude == 0 {
            return None;
        }
        let mut i: usize = 0;
        proof {
            assert(self@.skip(0) =~= self@);
        }
        while i < self.features.len()
            invariant
                i <= self@.len(),
                !spec_sentinel(p),
                spec_find_first(self@.skip(i as int), p) == spec_find_first(self@, p),
            decreases self@.len() - i,
        {
            proof {
                assert(self@.skip(i as int).first() == self@[i as int]);
            }
            let found: bool = match self.features[i].location {
                Some(loc) => loc == p,
                None => false,
            };
            if found {
                return Some(self.features[i].clone());
            }
            proof {
                assert(self@.skip(i as int).drop_first() =~= self@.skip(i as int + 1));
            }
            i = i + 1;
        }
        proof {
            assert(self@.skip(i as int) =~= Seq::<Feature>::empty());
        }
        None
    }

    /// Linear scan for every feature whose location lies in `r`, yielded
    /// in store order.
    pub fn find_in_rectangle(&self, r: Rectangle) -> (v: Vec<Feature>)
        ensures
            v@ == spec_features_in(self@, r),
    {
        let mut v: Vec<Feature> = Vec::new();
        let mut i: usize = 0;
        while i < self.features.len()
            invariant
                i <= self@.len(),
                v@ == spec_features_in(self@.take(i as int), r),
            decreases self@.len() - i,
        {
            let inside: bool = match self.features[i].location {
                Some(loc) => in_range(loc, r),
                None => false,
            };
            if inside {
                v.push(self.features[i].clone());
            }
            proof {
                assert(self@.take(i as int + 1).drop_last() =~= self@.take(i as int));
                assert(self@.take(i as int + 1).last() == self@[i as int]);
            }
            i = i + 1;
        }
        proof {
            assert(self@.take(self@.len() as int) =~= self@);
        }
        v
    }
}

/// The rectangle scan is unaffected by corner order: exchanging the two
/// corners selects the same features.
pub proof fn lemma_features_in_corner_swap(s: Seq<Feature>, r: Rectangle)
    ensures
        spec_features_in(s, r) == spec_features_in(s, spec_swapped(r)),
    decreases s.len(),
{
    if s.len() > 0 {
        lemma_features_in_corner_swap(s.drop_last(), r);
        match s.last().location {
            Some(p) => lemma_in_range_corner_swap(p, r),
            None => {},
        }
    }
}

/// The rectangle scan is exactly the filter of the store by containment:
/// every feature inside the rectangle, only those, in store order.
pub proof fn lemma_features_in_is_filter(s: Seq<Feature>, r: Rectangle)
    ensures
        spec_features_in(s, r) == s.filter(|f: Feature| spec_located_in(f, r)),
    decreases s.len(),
{
    reveal(Seq::filter);
    let pred = |f: Feature| spec_located_in(f, r);
    if s.len() == 0 {
        assert(s =~= Seq::<Feature>::empty());
        assert(s.filter(pred) =~= Seq::<Feature>::empty());
    } else {
        lemma_features_in_is_filter(s.drop_last(), r);
        assert(s.filter(pred) == if pred(s.last()) {
            s.drop_last().filter(pred).push(s.last())
        } else {
            s.drop_last().filter(pred)
        });
    }
}

/// A point at which no feature of the store is located is never found by
/// exact lookup.
pub proof fn lemma_absent_point_not_found(s: Seq<Feature>, p: Point)
    requires
        forall|i: int| 0 <= i < s.len() ==> (#[trigger] s[i]).location != Some(p),
    ensures
        spec_lookup(s, p) is None,
    decreases s.len(),
{
    if !spec_sentinel(p) && s.len() > 0 {
        assert forall|i: int| 0 <= i < s.drop_first().len() implies (#[trigger] s.drop_first()[i]).location
            != Some(p) by {
            assert(s.drop_first()[i] == s[i + 1]);
        }
        lemma_absent_point_not_found(s.drop_first(), p);
    }
}

} // verus!
