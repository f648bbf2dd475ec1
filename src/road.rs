use vstd::prelude::*;
use crate::text::text_equals;

verus! {

/// The way a turn bends: clockwise or counter-clockwise.
#[derive(Debug, Clone, Copy, PartialEq, Eq, Structural)]
pub enum RoadTurnDirection {
    CW,
    CCW,
}

/// One road primitive. `N` is the scalar type of the geometry; the road graph
/// and the map loader carry it without computing on it.
#[derive(Debug)]
pub enum Road<N> {
    /// An arc of the circle of `radius` around `coordinates`, running from
    /// `start_angle` to `end_angle` in `direction`.
    Turn {
        coordinates: (N, N),
        radius: N,
        start_angle: N,
        end_angle: N,
        direction: RoadTurnDirection,
    },
    /// A straight segment from `start` to `end`.
    Line { start: (N, N), end: (N, N) },
}

/// The direction that a map document's token names, if any.
pub open spec fn direction_of_notation(s: Seq<char>) -> Option<RoadTurnDirection> {
    if s == "CW"@ {
        Some(RoadTurnDirection::CW)
    } else if s == "CCW"@ {
        Some(RoadTurnDirection::CCW)
    } else {
        None
    }
}

impl RoadTurnDirection {
    /// Reads a direction token: `CW` or `CCW`.
    pub fn from_notation(s: &str) -> (r: Option<RoadTurnDirection>)
        ensures
            r == direction_of_notation(s@),
    {
        if text_equals(s, "CW") {
            Some(RoadTurnDirection::CW)
        } else if text_equals(s, "CCW") {
            Some(RoadTurnDirection::CCW)
        } else {
            None
        }
    }
}

} // verus!
