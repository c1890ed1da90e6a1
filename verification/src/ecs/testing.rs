use vstd::prelude::*;

verus! {

/// A minimal component for exercising the registry.
#[derive(Clone, Copy, Debug, PartialEq, Eq, Structural)]
pub struct ComponentA {
    pub value: u32,
}

/// A second minimal component for exercising the registry.
#[derive(Clone, Copy, Debug, PartialEq, Eq, Structural)]
pub struct ComponentB {
    pub value: u32,
}

} // verus!
