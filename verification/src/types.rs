//! Data model: points in fixed-point degrees, rectangles, named features,
//! the immutable feature database, and the per-call record/chat values.

use vstd::prelude::*;

verus! {

/// A geographic point. Latitude and longitude are degrees scaled by 10^7
/// and stored as exact integers; two points are equal iff both fields match.
#[derive(Clone, Copy, Debug, PartialEq, Eq, Structural)]
pub struct Point {
    pub latitude: i32,
    pub longitude: i32,
}

/// An axis-aligned box given by two corner points. Neither corner is
/// required to be the numerically smaller one: containment tests normalize
/// the min/max envelope on each axis.
#[derive(Clone, Copy, Debug, PartialEq, Eq, Structural)]
pub struct Rectangle {
    pub lo: Point,
    pub hi: Point,
}

/// A named location. A feature with an empty name is the sentinel for
/// "nothing stored at this point".
#[derive(Debug)]
pub struct Feature {
    pub name: String,
    pub location: Point,
}

/// The immutable collection of features a service instance answers from,
/// in insertion order.
#[derive(Debug)]
pub struct FeatureDatabase {
    pub feature: Vec<Feature>,
}

/// One message of a chat call: a text tied to a location.
#[derive(Debug)]
pub struct RouteNote {
    pub location: Point,
    pub message: String,
}

/// The aggregate answer of a route-recording call.
#[derive(Clone, Copy, Debug, PartialEq, Eq, Structural)]
pub struct RouteSummary {
    pub point_count: i32,
    pub feature_count: i32,
    pub distance: i32,
    pub elapsed_time: i32,
}

impl View for FeatureDatabase {
    type V = Seq<Feature>;

    open spec fn view(&self) -> Seq<Feature> {
        self.feature@
    }
}

impl FeatureDatabase {
    /// The stored features, in insertion order.
    pub fn get_feature(&self) -> (r: &Vec<Feature>)
        ensures
            r@ == self@,
    {
        &self.feature
    }
}

impl Feature {
    /// An exact copy: same name, same location.
    pub fn duplicate(&self) -> (r: Feature)
        ensures
            r == *self,
    {
        Feature { name: self.name.clone(), location: self.location }
    }
}

impl RouteNote {
    /// An exact copy: same location, same message.
    pub fn duplicate(&self) -> (r: RouteNote)
        ensures
            r == *self,
    {
        RouteNote { location: self.location, message: self.message.clone() }
    }
}

} // verus!
