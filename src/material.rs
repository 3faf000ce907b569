use vstd::prelude::*;

verus! {

/// The placeholder that sits at index 0 of every scene's material pool.
///
/// No object is ever bound to it: a hit record carries it only until the
/// first real intersection has been found.
#[derive(Debug, Clone, Copy, PartialEq, Eq, Structural)]
pub struct DefaultMaterial {}

/// One entry of a scene's material pool.
#[derive(Debug)]
pub enum MaterialSlot<M> {
    /// The reserved placeholder at index 0.
    Unassigned(DefaultMaterial),
    /// A material that objects may be bound to.
    Assigned(M),
}

impl<M> MaterialSlot<M> {
    /// The material held in this slot, if it is a real one.
    pub fn assigned(&self) -> (r: Option<&M>)
        ensures
            match self {
                MaterialSlot::Unassigned(_) => r.is_none(),
                MaterialSlot::Assigned(m) => r == Some(m),
            },
    {
        match self {
            MaterialSlot::Unassigned(_) => None,
            MaterialSlot::Assigned(m) => Some(m),
        }
    }
}

} // verus!
