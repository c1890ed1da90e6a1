use vstd::prelude::*;
use crate::ecs::ECS;

verus! {

/// A game system: it reacts to an action by reading and updating the
/// entity registry. Implementations are supplied by the game built on this
/// engine.
pub trait System<A> {
    fn handle(&mut self, ecs: &mut ECS, action: &A);
}

/// A fixed roster of systems, each handed every action in turn.
#[verifier::reject_recursive_types(A)]
pub struct SystemMgr<A> {
    systems: Vec<Box<dyn System<A>>>,
}

impl<A> SystemMgr<A> {
    /// Hand `action` to every system, in roster order.
    pub fn handle(&mut self, ecs: &mut ECS, action: &A) {
        let mut i: usize = 0;

        while i < self.systems.len()
            decreases self.systems.len() - i,
        {
            let system = &mut self.systems[i];
            system.handle(ecs, action);
            i = i + 1;
        }
    }
}

} // verus!
