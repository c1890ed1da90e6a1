use vstd::prelude::*;

verus! {

/// The coarse condition of a character, from healthy down to dead.
#[derive(PartialEq, Eq, Structural, Clone, Debug)]
pub enum HealthState {
    Healthy,
    Reeling,
    Unconsciousness,
    Dead,
}

impl HealthState {
    /// The next state down the ladder; `Dead` stays `Dead`.
    pub open spec fn spec_worse(self) -> HealthState {
        match self {
            HealthState::Healthy => HealthState::Reeling,
            HealthState::Reeling => HealthState::Unconsciousness,
            HealthState::Unconsciousness => HealthState::Dead,
            HealthState::Dead => HealthState::Dead,
        }
    }

    /// The next state down the ladder; `Dead` stays `Dead`.
    pub fn get_worse(&self) -> (r: HealthState)
        ensures
            r == self.spec_worse(),
    {
        match self {
            HealthState::Healthy => HealthState::Reeling,
            HealthState::Reeling => HealthState::Unconsciousness,
            HealthState::Unconsciousness => HealthState::Dead,
            HealthState::Dead => HealthState::Dead,
        }
    }
}

/// The health component: a state and an accumulated wound penalty.
#[derive(PartialEq, Eq, Structural, Clone, Debug)]
pub struct Health {
    pub state: HealthState,
    pub penalty: u32,
}

impl Default for Health {
    /// A fresh character: healthy, with no penalty.
    fn default() -> (r: Health)
        ensures
            r.state is Healthy,
            r.penalty == 0,
    {
        Health { state: HealthState::Healthy, penalty: 0 }
    }
}


} // verus!
