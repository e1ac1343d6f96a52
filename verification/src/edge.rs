//! Screen edges: naming them and deciding which one a touch starts at.

use vstd::prelude::*;
use vstd::string::StrSliceExecFns;
use crate::error::TriggerError;
use crate::percent::{Percent, FULL_SCALE};

verus! {

/// Default width of the band along each edge in which a gesture may start:
/// one percent.
pub const EDGE_THRESHOLD: i32 = 1_000;

/// One of the four screen boundaries.
#[derive(Clone, Copy, Debug, PartialEq, Eq, Structural)]
pub enum Edge {
    Left,
    Top,
    Right,
    Bottom,
}

/// The edge at which a touch at `(x, y)` starts, for a band that is
/// `threshold` units wide. Left is tried first, then top, right and bottom,
/// so a touch in a corner belongs to the left or the top edge. `None` is
/// the interior. Each test is made on the exact value that was reported.
pub open spec fn edge_at(x: Percent, y: Percent, threshold: int) -> Option<Edge> {
    if x.below(threshold) {
        Some(Edge::Left)
    } else if y.below(threshold) {
        Some(Edge::Top)
    } else if x.above(FULL_SCALE - threshold) {
        Some(Edge::Right)
    } else if y.above(FULL_SCALE - threshold) {
        Some(Edge::Bottom)
    } else {
        None
    }
}

/// The edge that a configuration names, if it names one.
pub open spec fn edge_named(name: Seq<char>) -> Option<Edge> {
    if name == "left"@ {
        Some(Edge::Left)
    } else if name == "top"@ {
        Some(Edge::Top)
    } else if name == "right"@ {
        Some(Edge::Right)
    } else if name == "bottom"@ {
        Some(Edge::Bottom)
    } else {
        None
    }
}

/// Whether two strings hold the same characters.
fn same_text(a: &str, b: &str) -> (same: bool)
    ensures
        same == (a@ == b@),
{
    let n: usize = a.unicode_len();
    if n != b.unicode_len() {
        return false;
    }
    let mut i: usize = 0;
    while i < n
        invariant
            i <= n,
            n == a@.len(),
            n == b@.len(),
            forall|j: int| 0 <= j < i ==> a@[j] == b@[j],
        decreases n - i,
    {
        if a.get_char(i) != b.get_char(i) {
            return false;
        }
        i = i + 1;
    }
    assert(a@ =~= b@);
    true
}

impl Edge {
    /// Classifies the point `(x, y)`: the result is [`edge_at`].
    pub fn classify(x: Percent, y: Percent, threshold: i32) -> (edge: Option<Edge>)
        ensures
            edge == edge_at(x, y, threshold as int),
            x.below(threshold as int) ==> edge == Some(Edge::Left),
    {
        let near: i64 = threshold as i64;
        let far: i64 = FULL_SCALE as i64 - threshold as i64;
        if x.below_bound(near) {
            Some(Edge::Left)
        } else if y.below_bound(near) {
            Some(Edge::Top)
        } else if x.above_bound(far) {
            Some(Edge::Right)
        } else if y.above_bound(far) {
            Some(Edge::Bottom)
        } else {
            None
        }
    }

    /// Reads an edge from its lower-case name: `left`, `top`, `right` or
    /// `bottom`. Any other text is [`TriggerError::InvalidEdge`].
    pub fn from_str(name: &str) -> (parsed: Result<Edge, TriggerError>)
        ensures
            parsed == match edge_named(name@) {
                Some(edge) => Ok::<Edge, TriggerError>(edge),
                None => Err::<Edge, TriggerError>(TriggerError::InvalidEdge),
            },
    {
        if same_text(name, "left") {
            Ok(Edge::Left)
        } else if same_text(name, "top") {
            Ok(Edge::Top)
        } else if same_text(name, "right") {
            Ok(Edge::Right)
        } else if same_text(name, "bottom") {
            Ok(Edge::Bottom)
        } else {
            Err(TriggerError::InvalidEdge)
        }
    }

    /// The configuration name of the edge.
    pub open spec fn name_text(self) -> Seq<char> {
        match self {
            Edge::Left => "left"@,
            Edge::Top => "top"@,
            Edge::Right => "right"@,
            Edge::Bottom => "bottom"@,
        }
    }

    /// The name under which [`Edge::from_str`] accepts this edge.
    pub fn name(&self) -> (text: &'static str)
        ensures
            text@ == self.name_text(),
    {
        match self {
            Edge::Left => "left",
            Edge::Top => "top",
            Edge::Right => "right",
            Edge::Bottom => "bottom",
        }
    }
}

/// The left edge wins wherever the point lies in its band, whatever `y` is:
/// also in the two left corners, where the top or bottom band overlaps it.
pub proof fn lemma_left_edge_first(x: Percent, y: Percent, threshold: int)
    requires
        x.below(threshold),
    ensures
        edge_at(x, y, threshold) == Some(Edge::Left),
{
}

/// The four bands are tried in the order left, top, right, bottom, and a
/// point in none of them starts nothing.
pub proof fn lemma_edge_priority(x: Percent, y: Percent, threshold: int)
    ensures
        !x.below(threshold) && y.below(threshold) ==> edge_at(x, y, threshold) == Some(Edge::Top),
        !x.below(threshold) && !y.below(threshold) && x.above(FULL_SCALE - threshold) ==> edge_at(
            x,
            y,
            threshold,
        ) == Some(Edge::Right),
        !x.below(threshold) && !y.below(threshold) && !x.above(FULL_SCALE - threshold) && y.above(
            FULL_SCALE - threshold,
        ) ==> edge_at(x, y, threshold) == Some(Edge::Bottom),
        !x.below(threshold) && !y.below(threshold) && !x.above(FULL_SCALE - threshold) && !y.above(
            FULL_SCALE - threshold,
        ) ==> edge_at(x, y, threshold) is None,
        x.is_nan() && y.is_nan() ==> edge_at(x, y, threshold) is None,
{
}

/// Every edge is read back from its own name.
pub proof fn lemma_name_round_trip(edge: Edge)
    ensures
        edge_named(edge.name_text()) == Some(edge),
{
    reveal_strlit("left");
    reveal_strlit("top");
    reveal_strlit("right");
    reveal_strlit("bottom");
    assert("top"@.len() == 3);
    assert("left"@.len() == 4);
    assert("right"@.len() == 5);
    assert("bottom"@.len() == 6);
}

} // verus!
