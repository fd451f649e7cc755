use crate::geometry::Rect;
use vstd::prelude::*;

verus! {

/// A trigger region that sends the player to another map when entered while
/// grounded and looking down. Immutable once loaded.
#[derive(Clone, Debug)]
pub struct Door {
    pub destination: String,
    pub position: Rect,
}

impl Door {
    pub fn new(destination: String, position: Rect) -> (r: Door)
        ensures
            r == (Door { destination, position }),
    {
        Door { destination, position }
    }
}

} // verus!
