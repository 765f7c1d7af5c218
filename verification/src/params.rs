//! The tunable constants of a simulation, in fixed point.
//!
//! Lengths and speeds count 256 units to a cell, fractions 256 to the whole,
//! and angles 65536 to the full turn. A tick reads one set, by value, at its
//! start; nothing changed afterwards is seen before the next tick.

use vstd::prelude::*;
use crate::error::SetupError;

verus! {

/// The farthest a sensor may reach: 50 cells.
pub const MAX_SENSOR_DISTANCE: u32 = 12800;

/// The widest the two side sensors may stand off the heading: half a turn.
pub const MAX_SENSOR_SPREAD: u32 = 32768;

/// The largest steer amount and the largest inertia: the whole, 256.
pub const MAX_FRACTION: u32 = 256;

/// The fastest an agent may be driven: 50 cells a pass.
pub const MAX_MOVEMENT_SPEED: u32 = 12800;

/// The most diffusion passes in one pass sequence.
pub const MAX_BLUR_PASSES: u32 = 10;

/// One snapshot of the tunable constants.
#[derive(Clone, Copy, Debug, PartialEq, Eq, Structural)]
pub struct ParameterSet {
    /// How far ahead the sensors sit, in 1/256 cell.
    pub sensor_distance: u32,
    /// The angle between the heading and each side sensor, in 1/65536 turn.
    pub sensor_spread: u32,
    /// The most an agent turns in one pass, as a fraction of a full turn, in 1/256.
    pub steer_amount: u32,
    /// The speed an agent is driven to, in 1/256 cell a pass.
    pub movement_speed: u32,
    /// How much of its old velocity an agent keeps, in 1/256.
    pub inertia: u32,
    /// Diffusion passes in one pass sequence.
    pub blur_pass_count: u32,
}

impl ParameterSet {
    /// Every field lies in its declared range.
    pub open spec fn wf(&self) -> bool {
        &&& self.sensor_distance <= MAX_SENSOR_DISTANCE
        &&& self.sensor_spread <= MAX_SENSOR_SPREAD
        &&& self.steer_amount <= MAX_FRACTION
        &&& self.movement_speed <= MAX_MOVEMENT_SPEED
        &&& self.inertia <= MAX_FRACTION
        &&& self.blur_pass_count <= MAX_BLUR_PASSES
    }

    /// The set with every field brought into its declared range.
    pub open spec fn spec_clamped(&self) -> ParameterSet {
        ParameterSet {
            sensor_distance: spec_at_most(self.sensor_distance, MAX_SENSOR_DISTANCE),
            sensor_spread: spec_at_most(self.sensor_spread, MAX_SENSOR_SPREAD),
            steer_amount: spec_at_most(self.steer_amount, MAX_FRACTION),
            movement_speed: spec_at_most(self.movement_speed, MAX_MOVEMENT_SPEED),
            inertia: spec_at_most(self.inertia, MAX_FRACTION),
            blur_pass_count: spec_at_most(self.blur_pass_count, MAX_BLUR_PASSES),
        }
    }

    /// The set a simulation starts with: sensors 10 cells ahead and 0.2 radian
    /// to the sides, a fifth of a turn of steering, 5 cells a pass, no inertia,
    /// two diffusion passes.
    pub open spec fn spec_initial() -> ParameterSet {
        ParameterSet {
            sensor_distance: 2560,
            sensor_spread: 2086,
            steer_amount: 51,
            movement_speed: 1280,
            inertia: 0,
            blur_pass_count: 2,
        }
    }

    /// The set a simulation starts with.
    pub fn initial() -> (set: ParameterSet)
        ensures
            set == Self::spec_initial(),
            set.wf(),
    {
        ParameterSet {
            sensor_distance: 2560,
            sensor_spread: 2086,
            steer_amount: 51,
            movement_speed: 1280,
            inertia: 0,
            blur_pass_count: 2,
        }
    }

    /// A set of the given values, if each lies in its declared range.
    pub fn new(
        sensor_distance: u32,
        sensor_spread: u32,
        steer_amount: u32,
        movement_speed: u32,
        inertia: u32,
        blur_pass_count: u32,
    ) -> (made: Result<ParameterSet, SetupError>)
        ensures
            made == (if (ParameterSet {
                sensor_distance,
                sensor_spread,
                steer_amount,
                movement_speed,
                inertia,
                blur_pass_count,
            }).wf() {
                Ok::<ParameterSet, SetupError>(
                    ParameterSet {
                        sensor_distance,
                        sensor_spread,
                        steer_amount,
                        movement_speed,
                        inertia,
                        blur_pass_count,
                    },
                )
            } else {
                Err::<ParameterSet, SetupError>(SetupError::ParameterOutOfRange)
            }),
    {
        let set = ParameterSet {
            sensor_distance,
            sensor_spread,
            steer_amount,
            movement_speed,
            inertia,
            blur_pass_count,
        };
        if set.is_valid() {
            Ok(set)
        } else {
            Err(SetupError::ParameterOutOfRange)
        }
    }

    /// Whether every field lies in its declared range.
    pub fn is_valid(&self) -> (ok: bool)
        ensures
            ok == self.wf(),
    {
        self.sensor_distance <= MAX_SENSOR_DISTANCE && self.sensor_spread <= MAX_SENSOR_SPREAD
            && self.steer_amount <= MAX_FRACTION && self.movement_speed <= MAX_MOVEMENT_SPEED
            && self.inertia <= MAX_FRACTION && self.blur_pass_count <= MAX_BLUR_PASSES
    }

    /// The set with every field that is above its range brought down to the
    /// top of it. A set in range comes back unchanged.
    pub fn clamped(&self) -> (set: ParameterSet)
        ensures
            set == self.spec_clamped(),
            set.wf(),
            self.wf() ==> set == *self,
    {
        ParameterSet {
            sensor_distance: at_most(self.sensor_distance, MAX_SENSOR_DISTANCE),
            sensor_spread: at_most(self.sensor_spread, MAX_SENSOR_SPREAD),
            steer_amount: at_most(self.steer_amount, MAX_FRACTION),
            movement_speed: at_most(self.movement_speed, MAX_MOVEMENT_SPEED),
            inertia: at_most(self.inertia, MAX_FRACTION),
            blur_pass_count: at_most(self.blur_pass_count, MAX_BLUR_PASSES),
        }
    }
}

/// The smaller of `v` and `top`.
pub open spec fn spec_at_most(v: u32, top: u32) -> u32 {
    if v > top {
        top
    } else {
        v
    }
}

/// The smaller of `v` and `top`.
pub fn at_most(v: u32, top: u32) -> (r: u32)
    ensures
        r == spec_at_most(v, top),
{
    if v > top {
        top
    } else {
        v
    }
}

} // verus!
