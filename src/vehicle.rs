use vstd::prelude::*;

verus! {

/// A vehicle that decides, once per tick, the speed and steering it wants
/// from its pose and the roads its navigator shows it.
pub trait Thinker {
    fn think(&mut self);
}

/// A vehicle that moves one tick toward the speed and steering it wants.
pub trait Physics {
    fn update(&mut self);
}

} // verus!
