//! Laws that hold of every pass, over the functions the passes are stated in.

use vstd::prelude::*;
use vstd::arithmetic::div_mod::lemma_mod_bound;
use vstd::seq_lib::to_multiset_build;
use vstd::seq_lib::to_multiset_contains;
use vstd::seq_lib::to_multiset_len;
use vstd::seq_lib::to_multiset_remove;
use crate::agent::spec_blend;
use crate::agent::lemma_reach_range;
use crate::agent::spec_heading_after;
use crate::agent::spec_turn_limit;
use crate::agent::spec_reach;
use crate::agent::spec_sensor_cell;
use crate::agent::spec_steer;
use crate::agent::spec_update_agent;
use crate::agent::AgentRecord;
use crate::field::lemma_cell_index;
use crate::field::lemma_decay_value;
use crate::field::lemma_index_cell;
use crate::field::spec_decay;
use crate::field::spec_deposit_value;
use crate::field::spec_diffuse;
use crate::field::spec_neighbor_sum;
use crate::field::spec_shifted;
use crate::field::valid_dims;
use crate::field::wrap;
use crate::params::ParameterSet;
use crate::population::lemma_deposit_step;
use crate::population::lemma_hits_range;
use crate::population::spec_deposit_all;
use crate::population::spec_hits;
use crate::population::spec_update_all;
use crate::simulation::spec_blur_passes;
use crate::simulation::spec_pass_sequence;
use crate::simulation::spec_pass_sequences;
use crate::simulation::SimState;
use crate::simulation::TickRules;
use crate::trig::lemma_trig_range;
use crate::trig::spec_cos;
use crate::trig::spec_sin;
use crate::trig::FULL_TURN;

verus! {

/// No cell of the grid is above `ceiling`.
pub open spec fn within_ceiling(cells: Seq<u32>, ceiling: int) -> bool {
    forall|i: int| 0 <= i < cells.len() ==> #[trigger] cells[i] <= ceiling
}

/// Every agent stands inside the grid of `w` columns and `h` rows.
pub open spec fn all_in_bounds(agents: Seq<AgentRecord>, w: int, h: int) -> bool {
    forall|i: int| 0 <= i < agents.len() ==> (#[trigger] agents[i]).in_bounds(w, h)
}

/// The hits of two batches of agents are the hits of each, added.
pub proof fn lemma_hits_concat(a: Seq<AgentRecord>, b: Seq<AgentRecord>, w: int, c: int)
    ensures
        spec_hits(a + b, w, c) == spec_hits(a, w, c) + spec_hits(b, w, c),
    decreases b.len(),
{
    if b.len() == 0 {
        assert(a + b =~= a);
    } else {
        assert((a + b).drop_last() =~= a + b.drop_last());
        assert((a + b).last() == b.last());
        lemma_hits_concat(a, b.drop_last(), w, c);
    }
}

/// Taking one agent out lowers the hits of its cell by one and no others.
pub proof fn lemma_hits_remove(a: Seq<AgentRecord>, j: int, w: int, c: int)
    requires
        0 <= j < a.len(),
    ensures
        spec_hits(a, w, c) == spec_hits(a.remove(j), w, c) + (if a[j].spec_cell(w) == c {
            1int
        } else {
            0int
        }),
{
    let left = a.take(j);
    let one = seq![a[j]];
    let right = a.skip(j + 1);
    assert(a =~= (left + one) + right);
    assert(a.remove(j) =~= left + right);
    lemma_hits_concat(left + one, right, w, c);
    lemma_hits_concat(left, one, w, c);
    lemma_hits_concat(left, right, w, c);
    assert(one.drop_last() =~= Seq::<AgentRecord>::empty());
    assert(spec_hits(one.drop_last(), w, c) == 0);
    assert(one.last() == a[j]);
}

/// The hits of a cell do not depend on the order of the agents.
pub proof fn lemma_hits_permutation(a: Seq<AgentRecord>, b: Seq<AgentRecord>, w: int, c: int)
    requires
        a.to_multiset() == b.to_multiset(),
    ensures
        spec_hits(a, w, c) == spec_hits(b, w, c),
    decreases a.len(),
{
    to_multiset_len(a);
    to_multiset_len(b);
    if a.len() > 0 {
        let x = a.last();
        let rest = a.drop_last();
        assert(a =~= rest.push(x));
        to_multiset_build(rest, x);
        to_multiset_contains(b, x);
        assert(a.to_multiset().count(x) > 0);
        let j = choose|j: int| 0 <= j < b.len() && b[j] == x;
        to_multiset_remove(b, j);
        assert(rest.to_multiset() =~= b.remove(j).to_multiset());
        lemma_hits_permutation(rest, b.remove(j), w, c);
        lemma_hits_remove(b, j, w, c);
    }
}

/// The deposit pass is order independent: agents taken in any other order
/// leave the same field.
pub proof fn lemma_deposit_order_independent(
    cells: Seq<u32>,
    a: Seq<AgentRecord>,
    b: Seq<AgentRecord>,
    w: int,
    amount: int,
    ceiling: int,
)
    requires
        a.to_multiset() == b.to_multiset(),
    ensures
        spec_deposit_all(cells, a, w, amount, ceiling) == spec_deposit_all(
            cells,
            b,
            w,
            amount,
            ceiling,
        ),
{
    assert forall|c: int| 0 <= c < cells.len() implies spec_hits(a, w, c) == spec_hits(b, w, c) by {
        lemma_hits_permutation(a, b, w, c);
    }
    assert(spec_deposit_all(cells, a, w, amount, ceiling) =~= spec_deposit_all(
        cells,
        b,
        w,
        amount,
        ceiling,
    ));
}

/// Many deposits after many deposits are as many deposits as both together.
pub proof fn lemma_deposit_value_twice(v: int, amount: int, first: int, second: int, ceiling: int)
    requires
        0 <= v <= ceiling,
        0 <= amount,
        0 <= first,
        0 <= second,
    ensures
        spec_deposit_value(spec_deposit_value(v, amount, first, ceiling), amount, second, ceiling)
            == spec_deposit_value(v, amount, first + second, ceiling),
{
    assert(amount * (first + second) == amount * first + amount * second) by (nonlinear_arith);
    assert(0 <= amount * first) by (nonlinear_arith)
        requires
            0 <= amount,
            0 <= first,
    ;
    assert(0 <= amount * second) by (nonlinear_arith)
        requires
            0 <= amount,
            0 <= second,
    ;
}

/// Deposits accumulate: one batch of agents after another leaves the field
/// that both leave when taken as one batch.
pub proof fn lemma_deposit_in_batches(
    cells: Seq<u32>,
    a: Seq<AgentRecord>,
    b: Seq<AgentRecord>,
    w: int,
    amount: int,
    ceiling: int,
)
    requires
        within_ceiling(cells, ceiling),
        0 <= amount,
        ceiling <= u32::MAX,
    ensures
        spec_deposit_all(spec_deposit_all(cells, a, w, amount, ceiling), b, w, amount, ceiling)
            == spec_deposit_all(cells, a + b, w, amount, ceiling),
{
    let first = spec_deposit_all(cells, a, w, amount, ceiling);
    let both = spec_deposit_all(first, b, w, amount, ceiling);
    let whole = spec_deposit_all(cells, a + b, w, amount, ceiling);
    assert forall|c: int| 0 <= c < cells.len() implies both[c] == whole[c] by {
        lemma_hits_range(a, w, c);
        lemma_hits_range(b, w, c);
        lemma_hits_concat(a, b, w, c);
        lemma_deposit_step(cells[c] as int, amount, spec_hits(a, w, c), ceiling);
        lemma_deposit_step(cells[c] as int, amount, spec_hits(a, w, c) + spec_hits(b, w, c), ceiling);
        lemma_deposit_value_twice(
            cells[c] as int,
            amount,
            spec_hits(a, w, c),
            spec_hits(b, w, c),
            ceiling,
        );
    }
    assert(both =~= whole);
}

/// After a diffusion pass every cell is still within the ceiling.
pub proof fn lemma_diffuse_within_ceiling(cells: Seq<u32>, w: int, h: int, ceiling: int)
    requires
        0 < w,
        0 < h,
        cells.len() == w * h,
        within_ceiling(cells, ceiling),
    ensures
        spec_diffuse(cells, w, h).len() == cells.len(),
        within_ceiling(spec_diffuse(cells, w, h), ceiling),
{
    assert forall|i: int| 0 <= i < cells.len() implies #[trigger] spec_diffuse(cells, w, h)[i]
        <= ceiling by {
        lemma_index_cell(i, w, h);
        assert forall|dx: int, dy: int| #[trigger]
            spec_shifted(cells, w, h, dx, dy, i) <= ceiling by {
            lemma_mod_bound(i % w + dx, w);
            lemma_mod_bound(i / w + dy, h);
            lemma_cell_index(wrap(i % w + dx, w), wrap(i / w + dy, h), w, h);
        }
        assert(spec_neighbor_sum(cells, w, h, i) <= 9 * ceiling);
        assert(0 <= spec_neighbor_sum(cells, w, h, i));
    }
}

/// After a decay pass no cell is above what it was: decay never raises a value.
pub proof fn lemma_decay_never_raises(cells: Seq<u32>, num: int, den: int)
    requires
        0 <= num <= den,
        0 < den,
    ensures
        spec_decay(cells, num, den).len() == cells.len(),
        forall|i: int|
            0 <= i < cells.len() ==> #[trigger] spec_decay(cells, num, den)[i] <= cells[i],
{
    assert forall|i: int| 0 <= i < cells.len() implies #[trigger] spec_decay(cells, num, den)[i]
        <= cells[i] by {
        lemma_decay_value(cells[i] as int, num, den);
    }
}

/// After a deposit pass every cell is still within the ceiling, and none is
/// below what it was.
pub proof fn lemma_deposit_within_ceiling(
    cells: Seq<u32>,
    agents: Seq<AgentRecord>,
    w: int,
    amount: int,
    ceiling: int,
)
    requires
        within_ceiling(cells, ceiling),
        0 <= amount,
        ceiling <= u32::MAX,
    ensures
        spec_deposit_all(cells, agents, w, amount, ceiling).len() == cells.len(),
        within_ceiling(spec_deposit_all(cells, agents, w, amount, ceiling), ceiling),
        forall|c: int|
            0 <= c < cells.len() ==> cells[c] <= #[trigger] spec_deposit_all(
                cells,
                agents,
                w,
                amount,
                ceiling,
            )[c],
{
    assert forall|c: int| 0 <= c < cells.len() implies cells[c] <= #[trigger] spec_deposit_all(
        cells,
        agents,
        w,
        amount,
        ceiling,
    )[c] <= ceiling by {
        lemma_hits_range(agents, w, c);
        lemma_deposit_step(cells[c] as int, amount, spec_hits(agents, w, c), ceiling);
    }
}

/// After an update pass an agent stands on the torus, wherever it stood
/// before and whatever the field holds.
pub proof fn lemma_update_in_bounds(
    agent: AgentRecord,
    cells: Seq<u32>,
    w: int,
    h: int,
    params: ParameterSet,
)
    requires
        valid_dims(w, h),
        params.wf(),
    ensures
        spec_update_agent(agent, cells, w, h, params).in_bounds(w, h),
{
    let next = spec_update_agent(agent, cells, w, h, params);
    let distance = params.sensor_distance as int;
    let spread = params.sensor_spread as int;
    let ahead = cells[spec_sensor_cell(agent, 0, distance, w, h)];
    let left = cells[spec_sensor_cell(agent, spread, distance, w, h)];
    let right = cells[spec_sensor_cell(agent, -spread, distance, w, h)];
    let heading = spec_heading_after(agent.heading as int, spec_steer(ahead, left, right), params);
    let vx = spec_blend(
        agent.vx as int,
        params.inertia as int,
        params.movement_speed as int,
        spec_cos(heading),
    );
    let vy = spec_blend(
        agent.vy as int,
        params.inertia as int,
        params.movement_speed as int,
        spec_sin(heading),
    );
    lemma_mod_bound(agent.x + vx, w * 256);
    lemma_mod_bound(agent.y + vy, h * 256);
}

/// The update pass keeps every agent on the torus.
pub proof fn lemma_update_all_in_bounds(
    agents: Seq<AgentRecord>,
    cells: Seq<u32>,
    w: int,
    h: int,
    params: ParameterSet,
)
    requires
        valid_dims(w, h),
        params.wf(),
    ensures
        spec_update_all(agents, cells, w, h, params).len() == agents.len(),
        all_in_bounds(spec_update_all(agents, cells, w, h, params), w, h),
{
    assert forall|i: int| 0 <= i < agents.len() implies (#[trigger] spec_update_all(
        agents,
        cells,
        w,
        h,
        params,
    )[i]).in_bounds(w, h) by {
        lemma_update_in_bounds(agents[i], cells, w, h, params);
    }
}

/// With no inertia the velocity after an update pass points along the new
/// heading: it is the movement speed along that direction.
pub proof fn lemma_velocity_follows_heading(
    agent: AgentRecord,
    cells: Seq<u32>,
    w: int,
    h: int,
    params: ParameterSet,
)
    requires
        params.wf(),
        params.inertia == 0,
    ensures
        spec_update_agent(agent, cells, w, h, params).vx == spec_reach(
            params.movement_speed as int,
            spec_cos(spec_update_agent(agent, cells, w, h, params).heading as int),
        ),
        spec_update_agent(agent, cells, w, h, params).vy == spec_reach(
            params.movement_speed as int,
            spec_sin(spec_update_agent(agent, cells, w, h, params).heading as int),
        ),
{
    let next = spec_update_agent(agent, cells, w, h, params);
    let distance = params.sensor_distance as int;
    let spread = params.sensor_spread as int;
    let ahead = cells[spec_sensor_cell(agent, 0, distance, w, h)];
    let left = cells[spec_sensor_cell(agent, spread, distance, w, h)];
    let right = cells[spec_sensor_cell(agent, -spread, distance, w, h)];
    let heading = spec_heading_after(agent.heading as int, spec_steer(ahead, left, right), params);
    lemma_mod_bound(agent.heading + spec_turn_limit(params), FULL_TURN as int);
    lemma_mod_bound(agent.heading - spec_turn_limit(params), FULL_TURN as int);
    assert(next.heading as int == heading);
    lemma_trig_range(heading);
    lemma_reach_range(params.movement_speed as int, spec_cos(heading));
    lemma_reach_range(params.movement_speed as int, spec_sin(heading));
    crate::agent::lemma_blend_without_inertia(
        agent.vx as int,
        params.movement_speed as int,
        spec_cos(heading),
    );
    crate::agent::lemma_blend_without_inertia(
        agent.vy as int,
        params.movement_speed as int,
        spec_sin(heading),
    );
}

/// An agent whose two side sensors read the same keeps its heading.
pub proof fn lemma_tie_keeps_heading(
    agent: AgentRecord,
    cells: Seq<u32>,
    w: int,
    h: int,
    params: ParameterSet,
)
    requires
        cells[spec_sensor_cell(agent, params.sensor_spread as int, params.sensor_distance as int, w, h)]
            == cells[spec_sensor_cell(
            agent,
            -(params.sensor_spread as int),
            params.sensor_distance as int,
            w,
            h,
        )],
    ensures
        spec_update_agent(agent, cells, w, h, params).heading == agent.heading,
{
}

/// An agent that is not driven and keeps nothing of its velocity stays where it is.
pub proof fn lemma_still_agent_stays(
    agent: AgentRecord,
    cells: Seq<u32>,
    w: int,
    h: int,
    params: ParameterSet,
)
    requires
        0 < w,
        0 < h,
        agent.in_bounds(w, h),
        params.movement_speed == 0,
        params.inertia == 0,
    ensures
        spec_update_agent(agent, cells, w, h, params).x == agent.x,
        spec_update_agent(agent, cells, w, h, params).y == agent.y,
        spec_update_agent(agent, cells, w, h, params).vx == 0,
        spec_update_agent(agent, cells, w, h, params).vy == 0,
{
    assert forall|unit: int| #[trigger] spec_reach(0, unit) == 0 by {
        assert(0 * unit == 0);
    }
    assert forall|old_v: int, unit: int| #[trigger] spec_blend(old_v, 0, 0, unit) == 0 by {
        assert(0 * old_v == 0);
        assert(spec_reach(0, unit) == 0);
    }
    vstd::arithmetic::div_mod::lemma_small_mod(agent.x as nat, (w * 256) as nat);
    vstd::arithmetic::div_mod::lemma_small_mod(agent.y as nat, (h * 256) as nat);
}

/// The passes are deterministic: two runs from the same field, the same
/// agents, the same parameter set and the same rules end in the same state.
pub proof fn lemma_passes_deterministic(
    first: SimState,
    second: SimState,
    w: int,
    h: int,
    ceiling: u32,
    params: ParameterSet,
    rules: TickRules,
    n: nat,
)
    requires
        first.cells =~= second.cells,
        first.agents =~= second.agents,
    ensures
        spec_pass_sequences(first, w, h, ceiling, params, rules, n) == spec_pass_sequences(
            second,
            w,
            h,
            ceiling,
            params,
            rules,
            n,
        ),
{
}

/// Any number of diffusion passes keeps the grid's size and every cell within the ceiling.
pub proof fn lemma_blur_passes_within_ceiling(cells: Seq<u32>, w: int, h: int, ceiling: int, n: nat)
    requires
        0 < w,
        0 < h,
        cells.len() == w * h,
        within_ceiling(cells, ceiling),
    ensures
        spec_blur_passes(cells, w, h, n).len() == cells.len(),
        within_ceiling(spec_blur_passes(cells, w, h, n), ceiling),
    decreases n,
{
    if n > 0 {
        lemma_blur_passes_within_ceiling(cells, w, h, ceiling, (n - 1) as nat);
        lemma_diffuse_within_ceiling(spec_blur_passes(cells, w, h, (n - 1) as nat), w, h, ceiling);
    }
}

/// With no diffusion pass, a pass sequence leaves the field that decay and
/// then deposit leave, with no smoothing.
pub proof fn lemma_pass_sequence_without_blur(
    state: SimState,
    w: int,
    h: int,
    ceiling: u32,
    params: ParameterSet,
    rules: TickRules,
)
    requires
        params.blur_pass_count == 0,
    ensures
        spec_pass_sequence(state, w, h, ceiling, params, rules).cells == spec_deposit_all(
            spec_decay(state.cells, rules.decay_num as int, rules.decay_den as int),
            spec_pass_sequence(state, w, h, ceiling, params, rules).agents,
            w,
            rules.deposit_amount as int,
            ceiling as int,
        ),
{
}

/// After any number of pass sequences every cell is within the ceiling and
/// every agent stands on the torus.
pub proof fn lemma_pass_sequences_keep_invariants(
    state: SimState,
    w: int,
    h: int,
    ceiling: u32,
    params: ParameterSet,
    rules: TickRules,
    n: nat,
)
    requires
        valid_dims(w, h),
        params.wf(),
        rules.wf(),
        state.cells.len() == w * h,
        within_ceiling(state.cells, ceiling as int),
        all_in_bounds(state.agents, w, h),
    ensures
        spec_pass_sequences(state, w, h, ceiling, params, rules, n).cells.len() == w * h,
        spec_pass_sequences(state, w, h, ceiling, params, rules, n).agents.len()
            == state.agents.len(),
        within_ceiling(spec_pass_sequences(state, w, h, ceiling, params, rules, n).cells, ceiling as int),
        all_in_bounds(spec_pass_sequences(state, w, h, ceiling, params, rules, n).agents, w, h),
    decreases n,
{
    if n > 0 {
        lemma_pass_sequences_keep_invariants(state, w, h, ceiling, params, rules, (n - 1) as nat);
        let before = spec_pass_sequences(state, w, h, ceiling, params, rules, (n - 1) as nat);
        let blurred = spec_blur_passes(before.cells, w, h, params.blur_pass_count as nat);
        lemma_blur_passes_within_ceiling(
            before.cells,
            w,
            h,
            ceiling as int,
            params.blur_pass_count as nat,
        );
        let faded = spec_decay(blurred, rules.decay_num as int, rules.decay_den as int);
        lemma_decay_never_raises(blurred, rules.decay_num as int, rules.decay_den as int);
        assert(within_ceiling(faded, ceiling as int));
        let moved = spec_update_all(before.agents, faded, w, h, params);
        lemma_update_all_in_bounds(before.agents, faded, w, h, params);
        lemma_deposit_within_ceiling(faded, moved, w, rules.deposit_amount as int, ceiling as int);
    }
}

} // verus!
