use crate::serialize_point::SerializablePoint;
use vstd::prelude::*;

verus! {

/// The polyline drawn while a connection is being dragged out.
#[derive(Debug)]
pub struct LinePath {
    pub points: Vec<SerializablePoint>,
}

impl View for LinePath {
    type V = Seq<SerializablePoint>;

    open spec fn view(&self) -> Seq<SerializablePoint> {
        self.points@
    }
}

impl LinePath {
    /// A path begins with its anchor point.
    pub fn new(start_point: SerializablePoint) -> (r: Self)
        ensures
            r@ == seq![start_point],
    {
        let mut points: Vec<SerializablePoint> = Vec::new();
        points.push(start_point);
        proof {
            assert(points@ =~= seq![start_point]);
        }
        Self { points }
    }

    pub fn add_point(&mut self, point: SerializablePoint)
        ensures
            final(self)@ == old(self)@.push(point),
    {
        self.points.push(point);
    }

    pub fn last_point(&self) -> (r: Option<&SerializablePoint>)
        ensures
            match r {
                Option::Some(p) => self@.len() > 0 && *p == self@.last(),
                Option::None => self@.len() == 0,
            },
    {
        self.points.last()
    }
}

impl Clone for LinePath {
    fn clone(&self) -> (r: Self)
        ensures
            r@ == self@,
    {
        let points = self.points.clone();
        proof {
            assert(points@ =~= self.points@);
        }
        LinePath { points }
    }
}

} // verus!
