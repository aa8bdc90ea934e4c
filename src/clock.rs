//! The simulation clock: runs one tick at a time over the registry.
use vstd::prelude::*;

use crate::registry::{Registry, RegistryModel, SimError};
use crate::systems::tick;

verus! {

/// The clock is idle between ticks and ticking during one.
#[derive(Clone, Copy, Debug, PartialEq, Eq, Structural)]
pub enum ClockState {
    Idle,
    Ticking,
}

/// A registry driven by a clock. Entities are set up through `registry` while
/// the clock is idle.
pub struct Simulation {
    pub state: ClockState,
    pub registry: Registry,
}

impl Simulation {
    pub open spec fn wf(&self) -> bool {
        self.registry.wf()
    }

    /// An idle clock over an empty registry.
    pub fn new() -> (s: Simulation)
        ensures
            s.state == ClockState::Idle,
            s.registry@.next_id == 1,
            s.registry@.records.len() == 0,
            s.wf(),
    {
        Simulation { state: ClockState::Idle, registry: Registry::new() }
    }

    /// Runs exactly one tick: movement, targeting, combat, then the removal of the
    /// entities that died in it. Fails with `ReentrantTick`, changing nothing, when
    /// a tick is already running.
    pub fn advance(&mut self) -> (r: Result<(), SimError>)
        requires
            old(self).wf(),
        ensures
            final(self).wf(),
            old(self).state == ClockState::Ticking ==> r == Err::<(), SimError>(
                SimError::ReentrantTick,
            ) && final(self).state == ClockState::Ticking && final(self).registry@
                == old(self).registry@,
            old(self).state == ClockState::Idle ==> r is Ok && final(self).state == ClockState::Idle
                && final(self).registry@ == (RegistryModel {
                next_id: old(self).registry@.next_id,
                records: tick(old(self).registry@.records),
            }),
    {
        if self.state == ClockState::Ticking {
            return Err(SimError::ReentrantTick);
        }
        self.state = ClockState::Ticking;
        self.registry.run_tick();
        self.state = ClockState::Idle;
        Ok(())
    }
}

} // verus!
