//! A single touch that began at an edge, from first contact to release.

use vstd::prelude::*;
use crate::edge::{edge_at, Edge};
use crate::percent::{steps_per_percent, Percent, FULL_SCALE, UNITS_PER_PERCENT};

verus! {

/// A position on the screen, in percent of its width and height.
#[derive(Clone, Copy, Debug, PartialEq, Eq, Structural)]
pub struct Point {
    pub x: Percent,
    pub y: Percent,
}

/// A touch that started next to an edge and has not been judged yet.
///
/// `start` and `edge` are fixed when the finger lands; `position` follows
/// the finger.
#[derive(Clone, Copy, Debug, PartialEq, Eq, Structural)]
pub struct Gesture {
    pub start: Point,
    pub position: Point,
    pub edge: Edge,
}

impl Gesture {
    /// The gesture that a finger landing at `(x, y)` begins, if the point
    /// lies in the band of an edge.
    pub open spec fn begun_at(x: Percent, y: Percent, threshold: i32) -> Option<Gesture> {
        match edge_at(x, y, threshold as int) {
            Some(edge) => Some(
                Gesture { start: Point { x, y }, position: Point { x, y }, edge },
            ),
            None => None,
        }
    }

    /// This gesture after the finger has moved to `(x, y)`.
    pub open spec fn moved_to(self, x: Percent, y: Percent) -> Gesture {
        Gesture { start: self.start, position: Point { x, y }, edge: self.edge }
    }

    /// The coordinate of the finger that runs away from the edge at which
    /// the gesture started.
    pub open spec fn across_edge(self) -> Percent {
        match self.edge {
            Edge::Left | Edge::Right => self.position.x,
            Edge::Top | Edge::Bottom => self.position.y,
        }
    }

    /// The coordinate of the finger that runs along the edge at which the
    /// gesture started.
    pub open spec fn along_edge(self) -> Percent {
        match self.edge {
            Edge::Left | Edge::Right => self.position.y,
            Edge::Top | Edge::Bottom => self.position.x,
        }
    }

    /// How far the finger now is from the edge at which it started, in
    /// steps (see [`Percent::steps`]): the coordinate itself from the left
    /// and the top edge, what is left to a hundred percent from the right
    /// and the bottom edge.
    pub open spec fn distance(self) -> int {
        match self.edge {
            Edge::Left | Edge::Top => self.across_edge().steps(),
            Edge::Right | Edge::Bottom => 100 * steps_per_percent() - self.across_edge().steps(),
        }
    }

    /// Whether the gesture counts as a swipe: its distance must exceed
    /// `min_distance` units; reaching it is not enough. A position that is
    /// a NaN has no distance and makes no swipe.
    pub open spec fn is_swipe(self, min_distance: int) -> bool {
        !self.across_edge().is_nan() && self.distance() * UNITS_PER_PERCENT > min_distance
            * steps_per_percent()
    }

    /// Starts a gesture for a finger that lands at `(x, y)`. A touch in the
    /// interior starts none.
    pub fn begin(x: Percent, y: Percent, threshold: i32) -> (begun: Option<Gesture>)
        ensures
            begun == Gesture::begun_at(x, y, threshold),
            begun is Some <==> edge_at(x, y, threshold as int) is Some,
    {
        match Edge::classify(x, y, threshold) {
            Some(edge) => Some(Gesture { start: Point { x, y }, position: Point { x, y }, edge }),
            None => None,
        }
    }

    /// Records a new position of the finger. Start and edge stay.
    pub fn move_to(&mut self, x: Percent, y: Percent)
        ensures
            *final(self) == old(self).moved_to(x, y),
            final(self).start == old(self).start,
            final(self).edge == old(self).edge,
    {
        self.position = Point { x, y };
    }

    /// Computes [`Gesture::along_edge`].
    pub fn position_along_edge(&self) -> (position: Percent)
        ensures
            position == self.along_edge(),
    {
        match self.edge {
            Edge::Left | Edge::Right => self.position.y,
            Edge::Top | Edge::Bottom => self.position.x,
        }
    }

    /// Decides [`Gesture::is_swipe`].
    pub fn qualifies(&self, min_distance: i32) -> (swipe: bool)
        ensures
            swipe == self.is_swipe(min_distance as int),
    {
        let near: i64 = min_distance as i64;
        let far: i64 = FULL_SCALE as i64 - min_distance as i64;
        proof {
            lemma_remainder_exceeds(self.across_edge(), min_distance as int);
        }
        match self.edge {
            Edge::Left => self.position.x.above_bound(near),
            Edge::Top => self.position.y.above_bound(near),
            Edge::Right => self.position.x.below_bound(far),
            Edge::Bottom => self.position.y.below_bound(far),
        }
    }
}

/// What is left to a hundred percent exceeds a number of units exactly
/// when the value lies below a hundred percent less those units.
proof fn lemma_remainder_exceeds(value: Percent, units: int)
    ensures
        value.below(FULL_SCALE - units) <==> !value.is_nan() && (100 * steps_per_percent()
            - value.steps()) * UNITS_PER_PERCENT > units * steps_per_percent(),
{
    let grid = steps_per_percent();
    let steps = value.steps();
    assert((steps * 1000 < (100000 - units) * grid) <==> ((100 * grid - steps) * 1000 > units
        * grid)) by (nonlinear_arith);
}

/// A gesture whose distance is exactly the minimum is no swipe; one whose
/// distance exceeds the minimum by anything at all is one.
pub proof fn lemma_swipe_threshold(gesture: Gesture, min_distance: int)
    ensures
        gesture.distance() * UNITS_PER_PERCENT == min_distance * steps_per_percent()
            ==> !gesture.is_swipe(min_distance),
        gesture.distance() * UNITS_PER_PERCENT < min_distance * steps_per_percent()
            ==> !gesture.is_swipe(min_distance),
        !gesture.across_edge().is_nan() && gesture.distance() * UNITS_PER_PERCENT > min_distance
            * steps_per_percent() ==> gesture.is_swipe(min_distance),
{
}

/// Moving the finger changes neither where the gesture started nor its edge,
/// and only the last position counts.
pub proof fn lemma_motion_keeps_origin(
    gesture: Gesture,
    x1: Percent,
    y1: Percent,
    x2: Percent,
    y2: Percent,
)
    ensures
        gesture.moved_to(x1, y1).start == gesture.start,
        gesture.moved_to(x1, y1).edge == gesture.edge,
        gesture.moved_to(x1, y1).moved_to(x2, y2) == gesture.moved_to(x2, y2),
{
}

} // verus!
