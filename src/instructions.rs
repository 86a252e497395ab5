use vstd::prelude::*;

verus! {

/// An application that an inbound instruction may call into.
#[derive(Clone, Copy, PartialEq, Eq, Debug, Structural)]
pub enum Application {
    DEX,
}

} // verus!
