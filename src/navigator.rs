use std::rc::Rc;
use vstd::prelude::*;
use crate::map::{RoadIndex, RoadMap};

verus! {

/// Why a navigator cannot be placed on a map.
#[derive(Debug, PartialEq, Eq, Structural)]
pub enum NavigatorCreationError {
    CurrentIndexOutOfBounds,
}

/// A cursor over a shared road map. It walks the map by first successors and
/// never changes the map.
pub struct Navigator<R> {
    map: Rc<RoadMap<R>>,
    current_id: RoadIndex,
}

impl<R> Navigator<R> {
    #[verifier::type_invariant]
    spec fn inv(&self) -> bool {
        self.current_id < (*self.map).len()
    }

    /// The map that the navigator walks.
    pub closed spec fn map(&self) -> RoadMap<R> {
        *self.map
    }

    /// The index of the node the navigator stands on.
    pub closed spec fn current(&self) -> RoadIndex {
        self.current_id
    }

    /// Places a navigator on node `current_id` of `map`.
    pub fn new(map: Rc<RoadMap<R>>, current_id: RoadIndex) -> (r: Result<Self, NavigatorCreationError>)
        ensures
            r is Ok <==> current_id < (*map).len(),
            r matches Err(e) ==> e == NavigatorCreationError::CurrentIndexOutOfBounds,
            r matches Ok(n) ==> n.map() == *map && n.current() == current_id,
    {
        if current_id >= map.get_amount_of_roads() {
            Err(NavigatorCreationError::CurrentIndexOutOfBounds)
        } else {
            Ok(Navigator { map, current_id })
        }
    }

    /// The index of the current node.
    pub fn current_id(&self) -> (r: RoadIndex)
        ensures
            r == self.current(),
            r < self.map().len(),
    {
        proof {
            use_type_invariant(self);
        }
        self.current_id
    }

    /// The road of the current node.
    pub fn get_road(&self) -> (r: &R)
        ensures
            *r == self.map().roads()[self.current() as int],
    {
        proof {
            use_type_invariant(self);
        }
        self.map.get_road_by_id(self.current_id)
    }

    /// The road of the current node's first successor.
    pub fn get_next_road(&self) -> (r: &R)
        ensures
            *r == self.map().roads()[self.map().successor(self.current()) as int],
    {
        proof {
            use_type_invariant(self);
        }
        let next = self.map.get_next_roads(self.current_id);
        self.map.get_road_by_id(next[0])
    }

    /// Moves to the first successor of the current node.
    pub fn switch_to_next_road(&mut self)
        ensures
            final(self).map() == old(self).map(),
            final(self).current() == old(self).map().successor(old(self).current()),
    {
        proof {
            use_type_invariant(&*self);
        }
        let next = self.map.get_next_roads(self.current_id)[0];
        self.current_id = next;
    }
}

} // verus!
