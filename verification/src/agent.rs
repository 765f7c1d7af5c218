//! One agent: where it is, how it moves, and how it answers the field.
//!
//! In a pass an agent reads the field at three sensors, turns toward the
//! strongest, blends its velocity toward the new heading, and moves, going
//! round the torus where it leaves the grid. It sees no other agent.

use vstd::prelude::*;
use vstd::arithmetic::div_mod::lemma_mod_bound;
use vstd::arithmetic::div_mod::lemma_mod_multiples_vanish;
use crate::field::cell_index;
use crate::field::valid_dims;
use crate::field::wrap;
use crate::field::TrailField;
use crate::field::MAX_DIM;
use crate::params::ParameterSet;
use crate::trig::cos_fixed;
use crate::trig::div_trunc_scale;
use crate::trig::sin_fixed;
use crate::trig::spec_cos;
use crate::trig::spec_div_trunc;
use crate::trig::spec_sin;
use crate::trig::turn_by;
use crate::trig::FULL_TURN;

verus! {

/// The state of one agent.
#[derive(Clone, Copy, Debug, PartialEq, Eq, Structural)]
pub struct AgentRecord {
    /// Position along the columns, in 1/256 cell.
    pub x: u32,
    /// Position along the rows, in 1/256 cell.
    pub y: u32,
    /// Velocity along the columns, in 1/256 cell a pass.
    pub vx: i16,
    /// Velocity along the rows, in 1/256 cell a pass.
    pub vy: i16,
    /// Heading, in 1/65536 turn.
    pub heading: u16,
}

/// Which way an agent turns after reading its sensors.
#[derive(Clone, Copy, Debug, PartialEq, Eq, Structural)]
pub enum Steer {
    /// Keep the heading.
    Ahead,
    /// Turn toward the sensor at plus the spread.
    Left,
    /// Turn toward the sensor at minus the spread.
    Right,
}

impl AgentRecord {
    /// The agent stands inside a grid of `w` columns and `h` rows.
    pub open spec fn in_bounds(&self, w: int, h: int) -> bool {
        self.x < w * 256 && self.y < h * 256
    }

    /// Index of the cell the agent stands in.
    pub open spec fn spec_cell(&self, w: int) -> int {
        cell_index(self.x as int / 256, self.y as int / 256, w)
    }

    /// The record with its position brought onto the torus.
    pub open spec fn spec_normalized(&self, w: int, h: int) -> AgentRecord {
        AgentRecord {
            x: wrap(self.x as int, w * 256) as u32,
            y: wrap(self.y as int, h * 256) as u32,
            vx: self.vx,
            vy: self.vy,
            heading: self.heading,
        }
    }
}

/// The part of `length` that falls along an axis on which the direction has
/// the component `unit / 256`.
pub open spec fn spec_reach(length: int, unit: int) -> int {
    spec_div_trunc(length * unit, 256)
}

/// Index of the cell under the sensor that sits `distance` away from the
/// agent, `offset` angle units off its heading.
pub open spec fn spec_sensor_cell(
    agent: AgentRecord,
    offset: int,
    distance: int,
    w: int,
    h: int,
) -> int {
    let angle = (agent.heading + offset) % (FULL_TURN as int);
    let sx = wrap(agent.x + spec_reach(distance, spec_cos(angle)), w * 256);
    let sy = wrap(agent.y + spec_reach(distance, spec_sin(angle)), h * 256);
    cell_index(sx / 256, sy / 256, w)
}

/// The turn an agent makes on the three readings. It keeps its heading when
/// the two side readings are equal, and when none is above the reading ahead;
/// else it turns to the side that reads more.
pub open spec fn spec_steer(ahead: u32, left: u32, right: u32) -> Steer {
    if left == right || (ahead >= left && ahead >= right) {
        Steer::Ahead
    } else if left > right {
        Steer::Left
    } else {
        Steer::Right
    }
}

/// The most an agent turns in one pass: up to the side sensor, but no more
/// than the steer amount allows.
pub open spec fn spec_turn_limit(params: ParameterSet) -> int {
    if params.sensor_spread <= params.steer_amount * 256 {
        params.sensor_spread as int
    } else {
        params.steer_amount * 256
    }
}

/// The heading after the turn.
pub open spec fn spec_heading_after(heading: int, steer: Steer, params: ParameterSet) -> int {
    match steer {
        Steer::Ahead => heading,
        Steer::Left => (heading + spec_turn_limit(params)) % (FULL_TURN as int),
        Steer::Right => (heading - spec_turn_limit(params)) % (FULL_TURN as int),
    }
}

/// One component of the new velocity: `inertia` of the old one and the rest
/// of the driven one, which is `speed` along a direction of component `unit / 256`.
pub open spec fn spec_blend(old_v: int, inertia: int, speed: int, unit: int) -> int {
    spec_div_trunc(inertia * old_v + (256 - inertia) * spec_reach(speed, unit), 256)
}

/// The agent after one pass over the field `cells` of `w` columns and `h` rows.
pub open spec fn spec_update_agent(
    agent: AgentRecord,
    cells: Seq<u32>,
    w: int,
    h: int,
    params: ParameterSet,
) -> AgentRecord {
    let distance = params.sensor_distance as int;
    let spread = params.sensor_spread as int;
    let ahead = cells[spec_sensor_cell(agent, 0, distance, w, h)];
    let left = cells[spec_sensor_cell(agent, spread, distance, w, h)];
    let right = cells[spec_sensor_cell(agent, -spread, distance, w, h)];
    let heading = spec_heading_after(
        agent.heading as int,
        spec_steer(ahead, left, right),
        params,
    );
    let vx = spec_blend(
        agent.vx as int,
        params.inertia as int,
        params.movement_speed as int,
        spec_cos(heading),
    );
    let vy = spec_blend(
        agent.vy as int,
        params.inertia as int,
        params.movement_speed as int,
        spec_sin(heading),
    );
    AgentRecord {
        x: wrap(agent.x + vx, w * 256) as u32,
        y: wrap(agent.y + vy, h * 256) as u32,
        vx: vx as i16,
        vy: vy as i16,
        heading: heading as u16,
    }
}

/// A length along a direction reaches no farther than the length itself.
pub proof fn lemma_reach_range(length: int, unit: int)
    requires
        0 <= length,
        -256 <= unit <= 256,
    ensures
        -length <= spec_reach(length, unit) <= length,
        -256 * length <= length * unit <= 256 * length,
{
    assert(-256 * length <= length * unit <= 256 * length) by (nonlinear_arith)
        requires
            0 <= length,
            -256 <= unit <= 256,
    ;
}

/// A blend of a velocity that fits sixteen bits with a driven one that does
/// fits sixteen bits too.
pub proof fn lemma_blend_range(old_v: int, inertia: int, driven: int)
    requires
        -32768 <= old_v <= 32767,
        0 <= inertia <= 256,
        -32767 <= driven <= 32767,
    ensures
        -8388608 <= inertia * old_v <= 8388352,
        -8388352 <= (256 - inertia) * driven <= 8388352,
        -8388608 <= inertia * old_v + (256 - inertia) * driven <= 8388352,
        -32768 <= spec_div_trunc(inertia * old_v + (256 - inertia) * driven, 256) <= 32767,
{
    assert(-32768 * inertia <= inertia * old_v <= 32767 * inertia) by (nonlinear_arith)
        requires
            -32768 <= old_v <= 32767,
            0 <= inertia,
    ;
    assert(-32767 * (256 - inertia) <= (256 - inertia) * driven <= 32767 * (256 - inertia))
        by (nonlinear_arith)
        requires
            -32767 <= driven <= 32767,
            0 <= 256 - inertia,
    ;
}

/// With no inertia the velocity is the driven one: the speed along the heading.
pub proof fn lemma_blend_without_inertia(old_v: int, speed: int, unit: int)
    ensures
        spec_blend(old_v, 0, speed, unit) == spec_reach(speed, unit),
{
}

/// With full inertia the velocity stays as it was.
pub proof fn lemma_blend_full_inertia(old_v: int, speed: int, unit: int)
    ensures
        spec_blend(old_v, 256, speed, unit) == old_v,
{
}

/// A position moved by `delta` along a side of `side` cells, going round the torus.
pub fn wrap_coord(pos: u32, delta: i32, side: usize) -> (moved: u32)
    requires
        1 <= side <= MAX_DIM,
        pos < side * 256,
    ensures
        moved == wrap(pos + delta, side * 256),
        moved < side * 256,
{
    let m: i64 = (side as i64) * 256;
    let t: i64 = pos as i64 + delta as i64 + 8388608 * m;
    proof {
        lemma_mod_multiples_vanish(8388608, pos + delta, m as int);
        lemma_mod_bound(pos + delta, m as int);
    }
    let r: i64 = t % m;
    r as u32
}

/// The turn an agent makes on the three readings.
pub fn steer(ahead: u32, left: u32, right: u32) -> (turn: Steer)
    ensures
        turn == spec_steer(ahead, left, right),
{
    if left == right || (ahead >= left && ahead >= right) {
        Steer::Ahead
    } else if left > right {
        Steer::Left
    } else {
        Steer::Right
    }
}

/// The part of `length` that falls along an axis on which the direction has
/// the component `unit / 256`.
pub fn reach(length: u32, unit: i32) -> (part: i32)
    requires
        length <= 32767,
        -256 <= unit <= 256,
    ensures
        part == spec_reach(length as int, unit as int),
        -length <= part <= length,
{
    proof {
        lemma_reach_range(length as int, unit as int);
    }
    let product: i64 = (length as i64) * (unit as i64);
    div_trunc_scale(product) as i32
}

/// One component of the new velocity.
pub fn blend(old_v: i16, inertia: u32, speed: u32, unit: i32) -> (v: i16)
    requires
        inertia <= 256,
        speed <= 32767,
        -256 <= unit <= 256,
    ensures
        v == spec_blend(old_v as int, inertia as int, speed as int, unit as int),
{
    let driven: i32 = reach(speed, unit);
    proof {
        lemma_blend_range(old_v as int, inertia as int, driven as int);
    }
    let kept: i64 = (inertia as i64) * (old_v as i64);
    let pushed: i64 = (256 - inertia as i64) * (driven as i64);
    div_trunc_scale(kept + pushed) as i16
}

impl AgentRecord {
    /// Whether the agent stands inside a grid of `w` columns and `h` rows.
    pub fn is_in_bounds(&self, w: usize, h: usize) -> (inside: bool)
        requires
            valid_dims(w as int, h as int),
        ensures
            inside == self.in_bounds(w as int, h as int),
    {
        (self.x as u64) < (w as u64) * 256 && (self.y as u64) < (h as u64) * 256
    }

    /// The record with its position brought onto the torus.
    pub fn normalized(&self, w: usize, h: usize) -> (on_torus: AgentRecord)
        requires
            valid_dims(w as int, h as int),
        ensures
            on_torus == self.spec_normalized(w as int, h as int),
            on_torus.in_bounds(w as int, h as int),
    {
        let mx: u64 = (w as u64) * 256;
        let my: u64 = (h as u64) * 256;
        AgentRecord {
            x: ((self.x as u64) % mx) as u32,
            y: ((self.y as u64) % my) as u32,
            vx: self.vx,
            vy: self.vy,
            heading: self.heading,
        }
    }

    /// Column and row of the cell the agent stands in.
    pub fn cell(&self, w: usize, h: usize) -> (at: (usize, usize))
        requires
            valid_dims(w as int, h as int),
            self.in_bounds(w as int, h as int),
        ensures
            at.0 == self.x as int / 256,
            at.1 == self.y as int / 256,
            at.0 < w,
            at.1 < h,
            cell_index(at.0 as int, at.1 as int, w as int) == self.spec_cell(w as int),
    {
        ((self.x / 256) as usize, (self.y / 256) as usize)
    }

    /// The value the field holds under the sensor `offset` angle units off the heading.
    pub fn sense(&self, field: &TrailField, offset: i32, distance: u32) -> (reading: u32)
        requires
            field.wf(),
            self.in_bounds(field.spec_width(), field.spec_height()),
            distance <= 32767,
        ensures
            reading == field@[spec_sensor_cell(
                *self,
                offset as int,
                distance as int,
                field.spec_width(),
                field.spec_height(),
            )],
    {
        proof {
            field.lemma_wf();
        }
        let angle: u16 = turn_by(self.heading, offset);
        let dx: i32 = reach(distance, cos_fixed(angle));
        let dy: i32 = reach(distance, sin_fixed(angle));
        let sx: u32 = wrap_coord(self.x, dx, field.width());
        let sy: u32 = wrap_coord(self.y, dy, field.height());
        field.get((sx / 256) as usize, (sy / 256) as usize)
    }

    /// The agent after one pass: it reads its three sensors, turns, blends
    /// its velocity toward the new heading and moves round the torus.
    pub fn update(&self, field: &TrailField, params: &ParameterSet) -> (next: AgentRecord)
        requires
            field.wf(),
            params.wf(),
            self.in_bounds(field.spec_width(), field.spec_height()),
        ensures
            next == spec_update_agent(
                *self,
                field@,
                field.spec_width(),
                field.spec_height(),
                *params,
            ),
            next.in_bounds(field.spec_width(), field.spec_height()),
    {
        proof {
            field.lemma_wf();
        }
        let spread: i32 = params.sensor_spread as i32;
        let ahead: u32 = self.sense(field, 0, params.sensor_distance);
        let left: u32 = self.sense(field, spread, params.sensor_distance);
        let right: u32 = self.sense(field, -spread, params.sensor_distance);
        let by_amount: u32 = params.steer_amount * 256;
        let limit: i32 = if params.sensor_spread <= by_amount {
            params.sensor_spread as i32
        } else {
            by_amount as i32
        };
        let heading: u16 = match steer(ahead, left, right) {
            Steer::Ahead => {
                self.heading
            },
            Steer::Left => turn_by(self.heading, limit),
            Steer::Right => turn_by(self.heading, -limit),
        };
        let vx: i16 = blend(self.vx, params.inertia, params.movement_speed, cos_fixed(heading));
        let vy: i16 = blend(self.vy, params.inertia, params.movement_speed, sin_fixed(heading));
        AgentRecord {
            x: wrap_coord(self.x, vx as i32, field.width()),
            y: wrap_coord(self.y, vy as i32, field.height()),
            vx,
            vy,
            heading,
        }
    }
}

} // verus!
