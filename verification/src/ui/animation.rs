//! Animation easing identifiers.

use vstd::prelude::*;

verus! {

/// The easing curve an animation runs under.
#[derive(Debug, Clone, Copy, PartialEq, Eq, Structural)]
pub enum Easing {
    Linear,
    EaseIn,
    EaseOut,
    EaseInOut,
    Bounce,
}

impl Default for Easing {
    /// The default curve is linear.
    fn default() -> (r: Self)
        ensures
            r == Easing::Linear,
    {
        Easing::Linear
    }
}

} // verus!
