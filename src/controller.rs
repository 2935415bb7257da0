//! The controller that owns the board's actuator states and configuration.

use crate::protocol::{
    command_symbol, decode_reading, decode_result, encode_command, merge, valid_utf8,
    ActivationPatch, ActivationState, ProtocolError, Reading,
};
use crate::settings::{Actuators, Sensors, IO};
use vstd::prelude::*;

verus! {

/// Which of the controller's two states an operation reads.
#[derive(Clone, Copy, Debug, PartialEq, Eq, Structural)]
pub enum Modes {
    /// What the actuators are driven to now.
    Active,
    /// What the firmware's autonomous logic should aim for.
    Auto,
}

/// Byte that asks the board for one sample of every sensor.
pub const SAMPLE_REQUEST: u8 = 48;

/// How long the board is given to answer a sample request, in milliseconds.
pub const SETTLE_DELAY_MS: u64 = 100;

/// Largest sample response read from the board, in bytes.
pub const RESPONSE_BUFFER_LEN: usize = 64;

/// Decisions of the one owner of the board: the manual and automatic
/// states and the configuration fixed at construction. The caller holds
/// the serial link and the lock that serialises operations on it.
pub struct BoardControl {
    state: ActivationState,
    auto_modes: ActivationState,
    io: IO,
}

/// The flag of actuator `a` in state `s`.
pub open spec fn actuator_on(s: ActivationState, a: Actuators) -> bool {
    match a {
        Actuators::Irrigator => s.irrigator,
        Actuators::Heater => s.heater,
        Actuators::Lighting => s.lighting,
        Actuators::UV => s.uv,
        Actuators::Shading => s.shading,
    }
}

impl BoardControl {
    pub closed spec fn sensors(&self) -> Seq<Sensors> {
        self.io.sensors@
    }

    pub closed spec fn actuators(&self) -> Seq<Actuators> {
        self.io.actuators@
    }

    /// The manual state.
    pub closed spec fn manual(&self) -> ActivationState {
        self.state
    }

    /// The automatic preference.
    pub closed spec fn automatic(&self) -> ActivationState {
        self.auto_modes
    }

    pub open spec fn mode_state(&self, mode: Modes) -> ActivationState {
        match mode {
            Modes::Active => self.manual(),
            Modes::Auto => self.automatic(),
        }
    }

    /// A controller for the board that `io` describes: everything off, and
    /// everything left to the automatic logic.
    pub fn new(io: IO) -> (r: BoardControl)
        ensures
            r.manual() == ActivationState::all(false),
            r.automatic() == ActivationState::all(true),
            r.sensors() == io.sensors@,
            r.actuators() == io.actuators@,
    {
        BoardControl {
            state: ActivationState::new(),
            auto_modes: ActivationState {
                irrigator: true,
                heater: true,
                lighting: true,
                uv: true,
                shading: true,
            },
            io,
        }
    }

    /// The configured sensors, in the order the firmware reports them.
    pub fn sensor_list(&self) -> (r: &Vec<Sensors>)
        ensures
            r@ == self.sensors(),
    {
        &self.io.sensors
    }

    /// Merges `patch` into the manual state and returns the command byte
    /// to send for the new state.
    pub fn set_activation(&mut self, patch: &ActivationPatch) -> (r: u8)
        ensures
            final(self).manual() == merge(old(self).manual(), *patch),
            final(self).automatic() == old(self).automatic(),
            final(self).sensors() == old(self).sensors(),
            final(self).actuators() == old(self).actuators(),
            r == command_symbol(final(self).manual()),
    {
        self.state.apply(patch);
        encode_command(&self.state)
    }

    /// Merges `patch` into the automatic preference; nothing is sent.
    pub fn set_auto_modes(&mut self, patch: &ActivationPatch)
        ensures
            final(self).automatic() == merge(old(self).automatic(), *patch),
            final(self).manual() == old(self).manual(),
            final(self).sensors() == old(self).sensors(),
            final(self).actuators() == old(self).actuators(),
    {
        self.auto_modes.apply(patch);
    }

    /// The flags of the configured actuators in the state `mode` names, in
    /// configuration order.
    pub fn get_activation(&self, mode: Modes) -> (r: Vec<(Actuators, bool)>)
        ensures
            r@.len() == self.actuators().len(),
            forall|i: int|
                0 <= i < r@.len() ==> #[trigger] r@[i] == (
                    self.actuators()[i],
                    actuator_on(self.mode_state(mode), self.actuators()[i]),
                ),
    {
        let s = match mode {
            Modes::Active => &self.state,
            Modes::Auto => &self.auto_modes,
        };
        let mut r: Vec<(Actuators, bool)> = Vec::new();
        let mut i: usize = 0;
        while i < self.io.actuators.len()
            invariant
                0 <= i <= self.actuators().len(),
                *s == self.mode_state(mode),
                r@.len() == i,
                forall|k: int|
                    0 <= k < i ==> #[trigger] r@[k] == (
                        self.actuators()[k],
                        actuator_on(self.mode_state(mode), self.actuators()[k]),
                    ),
            decreases self.actuators().len() - i,
        {
            let a = self.io.actuators[i];
            let on = match a {
                Actuators::Irrigator => s.irrigator,
                Actuators::Heater => s.heater,
                Actuators::Lighting => s.lighting,
                Actuators::UV => s.uv,
                Actuators::Shading => s.shading,
            };
            r.push((a, on));
            i = i + 1;
        }
        r
    }

    /// Decodes the board's answer to a sample request under the configured
    /// sensors.
    pub fn poll_sensors(&self, response: &[u8]) -> (r: Result<Reading, ProtocolError>)
        ensures
            decode_result(response@, valid_utf8(response@), self.sensors(), r),
    {
        decode_reading(response, &self.io.sensors)
    }
}

} // verus!
