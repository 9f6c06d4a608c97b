use crate::serialize_point::SerializablePoint;
use vstd::prelude::*;

verus! {

/// A recorded link between two node indices, carrying an "active" flag
/// (whether the wire carries current) and the polyline along which it is
/// drawn.
#[derive(Debug)]
pub struct Connection {
    pub from: usize,
    pub to: usize,
    pub is_active: bool,
    pub path: Vec<SerializablePoint>,
}

/// The mathematical image of a [`Connection`].
#[verifier::ext_equal]
pub struct ConnectionV {
    pub from: usize,
    pub to: usize,
    pub is_active: bool,
    pub path: Seq<SerializablePoint>,
}

impl View for Connection {
    type V = ConnectionV;

    open spec fn view(&self) -> ConnectionV {
        ConnectionV { from: self.from, to: self.to, is_active: self.is_active, path: self.path@ }
    }
}

impl Connection {
    /// A fresh connection starts out inactive.
    pub fn new(from: usize, to: usize, path: Vec<SerializablePoint>) -> (r: Self)
        ensures
            r@ == (ConnectionV { from, to, is_active: false, path: path@ }),
    {
        Self { from, to, is_active: false, path }
    }
}

impl Clone for Connection {
    fn clone(&self) -> (r: Self)
        ensures
            r@ == self@,
    {
        let path = self.path.clone();
        proof {
            assert(path@ =~= self.path@);
        }
        Connection { from: self.from, to: self.to, is_active: self.is_active, path }
    }
}

} // verus!
