//! The simulation: one tick after another over a field and a population.
//!
//! A tick runs a fixed sequence of passes a given number of times and then
//! composes the image. Each pass is complete before the next begins, and the
//! state after a tick is a function of the state before it, the parameter set
//! read at its start, and the rules.

use vstd::prelude::*;
use crate::agent::AgentRecord;
use crate::compose::compose;
use crate::compose::spec_compose;
use crate::compose::Color;
use crate::error::SetupError;
use crate::field::spec_decay;
use crate::field::spec_diffuse;
use crate::field::valid_dims;
use crate::field::TrailField;
use crate::field::MAX_DIM;
use crate::params::ParameterSet;
use crate::population::spec_deposit_all;
use crate::population::spec_update_all;
use crate::population::AgentPopulation;
use crate::population::MAX_AGENTS;

verus! {

/// How often a tick runs the pass sequence where nothing else is asked for.
pub const SUBSTEPS_PER_TICK: u32 = 2;

/// What stays fixed over the life of a simulation.
#[derive(Clone, Copy, Debug, PartialEq, Eq, Structural)]
pub struct TickRules {
    /// How often a tick runs the pass sequence.
    pub substeps: u32,
    /// What an agent adds to its cell in a deposit pass.
    pub deposit_amount: u32,
    /// Numerator of the decay factor.
    pub decay_num: u32,
    /// Denominator of the decay factor.
    pub decay_den: u32,
}

impl TickRules {
    /// The decay factor is below one.
    pub open spec fn wf(&self) -> bool {
        self.decay_num < self.decay_den
    }

    /// The rules a simulation runs by where nothing else is asked for: two
    /// pass sequences a tick, a deposit of one, and a decay to 243/256.
    pub open spec fn spec_initial() -> TickRules {
        TickRules { substeps: SUBSTEPS_PER_TICK, deposit_amount: 256, decay_num: 243, decay_den: 256 }
    }

    /// The rules a simulation runs by where nothing else is asked for.
    pub fn initial() -> (rules: TickRules)
        ensures
            rules == Self::spec_initial(),
            rules.wf(),
    {
        TickRules { substeps: SUBSTEPS_PER_TICK, deposit_amount: 256, decay_num: 243, decay_den: 256 }
    }

    /// Whether the decay factor is below one.
    pub fn is_valid(&self) -> (ok: bool)
        ensures
            ok == self.wf(),
    {
        self.decay_num < self.decay_den
    }
}

/// The state a tick works on: the readable field and the agent records.
pub struct SimState {
    /// The cells of the field, row by row.
    pub cells: Seq<u32>,
    /// The agent records, in buffer order.
    pub agents: Seq<AgentRecord>,
}

/// The grid after `n` diffusion passes.
pub open spec fn spec_blur_passes(cells: Seq<u32>, w: int, h: int, n: nat) -> Seq<u32>
    decreases n,
{
    if n == 0 {
        cells
    } else {
        spec_diffuse(spec_blur_passes(cells, w, h, (n - 1) as nat), w, h)
    }
}

/// The state after one pass sequence: the diffusion passes, the decay pass,
/// the agents' update on the decayed field, and their deposit where they then stand.
pub open spec fn spec_pass_sequence(
    state: SimState,
    w: int,
    h: int,
    ceiling: u32,
    params: ParameterSet,
    rules: TickRules,
) -> SimState {
    let blurred = spec_blur_passes(state.cells, w, h, params.blur_pass_count as nat);
    let faded = spec_decay(blurred, rules.decay_num as int, rules.decay_den as int);
    let moved = spec_update_all(state.agents, faded, w, h, params);
    SimState {
        cells: spec_deposit_all(faded, moved, w, rules.deposit_amount as int, ceiling as int),
        agents: moved,
    }
}

/// The state after `n` pass sequences.
pub open spec fn spec_pass_sequences(
    state: SimState,
    w: int,
    h: int,
    ceiling: u32,
    params: ParameterSet,
    rules: TickRules,
    n: nat,
) -> SimState
    decreases n,
{
    if n == 0 {
        state
    } else {
        spec_pass_sequence(
            spec_pass_sequences(state, w, h, ceiling, params, rules, (n - 1) as nat),
            w,
            h,
            ceiling,
            params,
            rules,
        )
    }
}

/// A field, the agents on it, the image of the field, and the rules.
pub struct Simulation {
    field: TrailField,
    agents: AgentPopulation,
    image: Vec<Color>,
    rules: TickRules,
}

impl Simulation {
    /// The field.
    pub closed spec fn spec_field(&self) -> TrailField {
        self.field
    }

    /// The agents.
    pub closed spec fn spec_agents(&self) -> AgentPopulation {
        self.agents
    }

    /// The image, pixel by pixel in the order of the cells.
    pub closed spec fn spec_image(&self) -> Seq<Color> {
        self.image@
    }

    /// The rules.
    pub closed spec fn spec_rules(&self) -> TickRules {
        self.rules
    }

    /// The state a tick works on.
    pub open spec fn spec_state(&self) -> SimState {
        SimState { cells: self.spec_field()@, agents: self.spec_agents()@ }
    }

    /// Field and agents are well formed and stand on one grid, and the rules are valid.
    pub open spec fn consistent(&self) -> bool {
        &&& self.spec_field().wf()
        &&& self.spec_agents().wf()
        &&& self.spec_agents().spec_width() == self.spec_field().spec_width()
        &&& self.spec_agents().spec_height() == self.spec_field().spec_height()
        &&& self.spec_rules().wf()
    }

    /// The parts are consistent, and the image shows the field.
    pub open spec fn wf(&self) -> bool {
        &&& self.consistent()
        &&& self.spec_image() == spec_compose(self.spec_field()@, self.spec_field().spec_ceiling())
    }

    /// Which error, if any, a simulation of these sizes and rules is refused with.
    pub open spec fn spec_refusal(
        w: int,
        h: int,
        ceiling: u32,
        agent_count: int,
        rules: TickRules,
    ) -> Option<SetupError> {
        if w == 0 || h == 0 {
            Some(SetupError::EmptyGrid)
        } else if w > MAX_DIM || h > MAX_DIM {
            Some(SetupError::GridTooLarge)
        } else if ceiling == 0 {
            Some(SetupError::ZeroCeiling)
        } else if agent_count > MAX_AGENTS {
            Some(SetupError::TooManyAgents)
        } else if !rules.wf() {
            Some(SetupError::BadDecay)
        } else {
            None
        }
    }

    /// A simulation on an empty field of `width` by `height` cells, with
    /// `agent_count` agents drawn at random.
    pub fn new(width: usize, height: usize, ceiling: u32, agent_count: usize, rules: TickRules) -> (made:
        Result<Simulation, SetupError>)
        ensures
            match Self::spec_refusal(width as int, height as int, ceiling, agent_count as int, rules) {
                Some(why) => made == Err::<Simulation, SetupError>(why),
                None => made.is_ok(),
            },
            made matches Ok(sim) ==> {
                &&& sim.wf()
                &&& sim.spec_rules() == rules
                &&& sim.spec_field().spec_width() == width
                &&& sim.spec_field().spec_height() == height
                &&& sim.spec_field().spec_ceiling() == ceiling
                &&& sim.spec_field()@ == Seq::new((width * height) as nat, |i: int| 0u32)
                &&& sim.spec_agents()@.len() == agent_count
            },
    {
        let field = match TrailField::new(width, height, ceiling) {
            Ok(field) => field,
            Err(why) => {
                return Err(why);
            },
        };
        let agents = match AgentPopulation::init(agent_count, width, height) {
            Ok(agents) => agents,
            Err(why) => {
                return Err(why);
            },
        };
        if !rules.is_valid() {
            return Err(SetupError::BadDecay);
        }
        let mut image: Vec<Color> = Vec::new();
        compose(&field, &mut image);
        Ok(Simulation { field, agents, image, rules })
    }

    /// A simulation on a given field with given agents.
    pub fn from_parts(field: TrailField, agents: AgentPopulation, rules: TickRules) -> (made: Result<
        Simulation,
        SetupError,
    >)
        requires
            field.wf(),
            agents.wf(),
        ensures
            made == Err::<Simulation, SetupError>(SetupError::MismatchedGrid) <==> (
            agents.spec_width() != field.spec_width() || agents.spec_height()
                != field.spec_height()),
            made == Err::<Simulation, SetupError>(SetupError::BadDecay) <==> (agents.spec_width()
                == field.spec_width() && agents.spec_height() == field.spec_height()
                && !rules.wf()),
            made.is_ok() <==> (agents.spec_width() == field.spec_width() && agents.spec_height()
                == field.spec_height() && rules.wf()),
            made matches Ok(sim) ==> {
                &&& sim.wf()
                &&& sim.spec_rules() == rules
                &&& sim.spec_field() == field
                &&& sim.spec_agents() == agents
            },
    {
        if agents.width() != field.width() || agents.height() != field.height() {
            return Err(SetupError::MismatchedGrid);
        }
        if !rules.is_valid() {
            return Err(SetupError::BadDecay);
        }
        let mut image: Vec<Color> = Vec::new();
        compose(&field, &mut image);
        Ok(Simulation { field, agents, image, rules })
    }

    /// The field.
    pub fn field(&self) -> (field: &TrailField)
        ensures
            *field == self.spec_field(),
    {
        &self.field
    }

    /// The agents.
    pub fn agents(&self) -> (agents: &AgentPopulation)
        ensures
            *agents == self.spec_agents(),
    {
        &self.agents
    }

    /// The image of the field as last composed.
    pub fn image(&self) -> (image: &Vec<Color>)
        ensures
            image@ == self.spec_image(),
    {
        &self.image
    }

    /// The rules.
    pub fn rules(&self) -> (rules: TickRules)
        ensures
            rules == self.spec_rules(),
    {
        self.rules
    }

    /// One pass sequence: the diffusion passes, the decay pass, the update
    /// pass and the deposit pass, each complete before the next begins.
    /// The image is left as it was.
    pub fn pass_sequence(&mut self, params: &ParameterSet)
        requires
            old(self).consistent(),
            params.wf(),
        ensures
            final(self).consistent(),
            final(self).spec_rules() == old(self).spec_rules(),
            final(self).spec_image() == old(self).spec_image(),
            final(self).spec_field().spec_width() == old(self).spec_field().spec_width(),
            final(self).spec_field().spec_height() == old(self).spec_field().spec_height(),
            final(self).spec_field().spec_ceiling() == old(self).spec_field().spec_ceiling(),
            final(self).spec_agents().spec_width() == old(self).spec_agents().spec_width(),
            final(self).spec_agents().spec_height() == old(self).spec_agents().spec_height(),
            final(self).spec_agents()@.len() == old(self).spec_agents()@.len(),
            final(self).spec_state() == spec_pass_sequence(
                old(self).spec_state(),
                old(self).spec_field().spec_width(),
                old(self).spec_field().spec_height(),
                old(self).spec_field().spec_ceiling(),
                *params,
                old(self).spec_rules(),
            ),
    {
        let passes: u32 = params.blur_pass_count;
        let mut done: u32 = 0;
        while done < passes
            invariant
                done <= passes,
                self.field.wf(),
                self.agents == old(self).agents,
                self.rules == old(self).rules,
                self.image == old(self).image,
                self.field.spec_width() == old(self).field.spec_width(),
                self.field.spec_height() == old(self).field.spec_height(),
                self.field.spec_ceiling() == old(self).field.spec_ceiling(),
                self.field@ == spec_blur_passes(
                    old(self).field@,
                    old(self).field.spec_width(),
                    old(self).field.spec_height(),
                    done as nat,
                ),
            decreases passes - done,
        {
            self.field.diffuse();
            done = done + 1;
        }
        self.field.decay(self.rules.decay_num, self.rules.decay_den);
        self.agents.update(&self.field, params);
        self.agents.deposit(&mut self.field, self.rules.deposit_amount);
    }

    /// One tick: the pass sequence as often as the rules say, then the image
    /// of the field as it then stands.
    pub fn tick(&mut self, params: &ParameterSet)
        requires
            old(self).wf(),
            params.wf(),
        ensures
            final(self).wf(),
            final(self).spec_rules() == old(self).spec_rules(),
            final(self).spec_field().spec_width() == old(self).spec_field().spec_width(),
            final(self).spec_field().spec_height() == old(self).spec_field().spec_height(),
            final(self).spec_field().spec_ceiling() == old(self).spec_field().spec_ceiling(),
            final(self).spec_state() == spec_pass_sequences(
                old(self).spec_state(),
                old(self).spec_field().spec_width(),
                old(self).spec_field().spec_height(),
                old(self).spec_field().spec_ceiling(),
                *params,
                old(self).spec_rules(),
                old(self).spec_rules().substeps as nat,
            ),
            final(self).spec_agents()@.len() == old(self).spec_agents()@.len(),
            forall|i: int|
                0 <= i < final(self).spec_agents()@.len() ==> (
                #[trigger] final(self).spec_agents()@[i]).in_bounds(
                    old(self).spec_field().spec_width(),
                    old(self).spec_field().spec_height(),
                ),
            forall|c: int|
                0 <= c < final(self).spec_field()@.len() ==> #[trigger] final(self).spec_field()@[c]
                    <= old(self).spec_field().spec_ceiling(),
    {
        let substeps: u32 = self.rules.substeps;
        let mut done: u32 = 0;
        while done < substeps
            invariant
                done <= substeps,
                params.wf(),
                self.consistent(),
                self.rules == old(self).rules,
                self.agents@.len() == old(self).agents@.len(),
                self.field.spec_width() == old(self).field.spec_width(),
                self.field.spec_height() == old(self).field.spec_height(),
                self.field.spec_ceiling() == old(self).field.spec_ceiling(),
                self.spec_state() == spec_pass_sequences(
                    old(self).spec_state(),
                    old(self).field.spec_width(),
                    old(self).field.spec_height(),
                    old(self).field.spec_ceiling(),
                    *params,
                    old(self).rules,
                    done as nat,
                ),
            decreases substeps - done,
        {
            self.pass_sequence(params);
            done = done + 1;
        }
        compose(&self.field, &mut self.image);
        proof {
            self.field.lemma_wf();
            self.agents.lemma_wf();
        }
    }

    /// Takes the simulation to a grid of `width` by `height` cells by starting
    /// over: the field is emptied and every agent is drawn anew on the new
    /// grid. Where the new size is refused, nothing changes.
    pub fn resize(&mut self, width: usize, height: usize) -> (done: Result<(), SetupError>)
        requires
            old(self).wf(),
        ensures
            final(self).wf(),
            final(self).spec_rules() == old(self).spec_rules(),
            final(self).spec_field().spec_ceiling() == old(self).spec_field().spec_ceiling(),
            final(self).spec_agents()@.len() == old(self).spec_agents()@.len(),
            (width == 0 || height == 0) <==> done == Err::<(), SetupError>(SetupError::EmptyGrid),
            (width > 0 && height > 0 && (width > MAX_DIM || height > MAX_DIM)) <==> done == Err::<
                (),
                SetupError,
            >(SetupError::GridTooLarge),
            valid_dims(width as int, height as int) <==> done.is_ok(),
            done.is_err() ==> *final(self) == *old(self),
            done.is_ok() ==> {
                &&& final(self).spec_field().spec_width() == width
                &&& final(self).spec_field().spec_height() == height
                &&& final(self).spec_field()@ == Seq::new((width * height) as nat, |i: int| 0u32)
                &&& forall|i: int|
                    0 <= i < final(self).spec_agents()@.len() ==> (
                    #[trigger] final(self).spec_agents()@[i]).in_bounds(width as int, height as int)
            },
    {
        proof {
            self.field.lemma_wf();
            self.agents.lemma_wf();
        }
        let field = match TrailField::new(width, height, self.field.ceiling()) {
            Ok(field) => field,
            Err(why) => {
                return Err(why);
            },
        };
        let agents = match AgentPopulation::init(self.agents.len(), width, height) {
            Ok(agents) => agents,
            Err(why) => {
                return Err(why);
            },
        };
        self.field = field;
        self.agents = agents;
        compose(&self.field, &mut self.image);
        Ok(())
    }
}

} // verus!
