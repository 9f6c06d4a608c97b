use vstd::prelude::*;

verus! {

/// Greatest magnitude a canvas coordinate may take. Keeping coordinates in
/// this range lets every distance and clamping computation stay inside `i64`.
pub const MAX_COORD: i64 = 1_000_000_000;

/// A point on the canvas, in integer canvas units.
#[derive(Clone, Copy, PartialEq, Eq, Structural, Debug)]
pub struct SerializablePoint {
    pub x: i64,
    pub y: i64,
}

impl SerializablePoint {
    /// Both coordinates lie within the coordinate budget.
    pub open spec fn wf(self) -> bool {
        &&& -MAX_COORD <= self.x <= MAX_COORD
        &&& -MAX_COORD <= self.y <= MAX_COORD
    }

    pub fn new(x: i64, y: i64) -> (r: Self)
        ensures
            r == (SerializablePoint { x, y }),
    {
        SerializablePoint { x, y }
    }
}

} // verus!
