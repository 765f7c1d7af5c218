//! The agent population: a buffer of independent agent records.
//!
//! Every pass over the population treats each agent by itself. The update
//! pass only reads the field; the deposit pass only adds to it, and what it
//! adds to a cell depends on how many agents stand there, not on their order.

use vstd::prelude::*;
use crate::agent::spec_update_agent;
use crate::agent::AgentRecord;
use crate::error::SetupError;
use crate::field::cell_index;
use crate::field::lemma_cell_index;
use crate::field::spec_deposit_value;
use crate::field::valid_dims;
use crate::field::TrailField;
use crate::field::MAX_DIM;
use crate::params::ParameterSet;
use crate::rng::random_in_range;

verus! {

/// The most agents a population may hold.
pub const MAX_AGENTS: usize = 1073741824;

/// The number of agents a simulation starts with where nothing else is asked for.
pub const INITIAL_AGENT_COUNT: usize = 5000000;

/// The largest starting speed along either axis: one cell a pass.
pub const MAX_START_SPEED: i16 = 256;

/// The agents after one update pass over the field `cells`.
pub open spec fn spec_update_all(
    agents: Seq<AgentRecord>,
    cells: Seq<u32>,
    w: int,
    h: int,
    params: ParameterSet,
) -> Seq<AgentRecord> {
    Seq::new(agents.len(), |i: int| spec_update_agent(agents[i], cells, w, h, params))
}

/// How many of the agents stand in cell `c`.
pub open spec fn spec_hits(agents: Seq<AgentRecord>, w: int, c: int) -> int
    decreases agents.len(),
{
    if agents.len() == 0 {
        0
    } else {
        spec_hits(agents.drop_last(), w, c) + if agents.last().spec_cell(w) == c {
            1int
        } else {
            0int
        }
    }
}

/// The field after every agent has deposited `amount` in its cell.
pub open spec fn spec_deposit_all(
    cells: Seq<u32>,
    agents: Seq<AgentRecord>,
    w: int,
    amount: int,
    ceiling: int,
) -> Seq<u32> {
    Seq::new(
        cells.len(),
        |c: int| spec_deposit_value(cells[c] as int, amount, spec_hits(agents, w, c), ceiling) as u32,
    )
}

/// The agent made of five draws, if each draw lies in the range it was drawn from.
pub open spec fn spec_from_draws(
    x: int,
    y: int,
    vx: int,
    vy: int,
    heading: int,
    w: int,
    h: int,
) -> Option<AgentRecord> {
    if 0 <= x < w * 256 && 0 <= y < h * 256 && -MAX_START_SPEED <= vx <= MAX_START_SPEED
        && -MAX_START_SPEED <= vy <= MAX_START_SPEED && 0 <= heading < 65536 {
        Some(
            AgentRecord {
                x: x as u32,
                y: y as u32,
                vx: vx as i16,
                vy: vy as i16,
                heading: heading as u16,
            },
        )
    } else {
        None
    }
}

/// No cell is hit a negative number of times, nor more often than there are agents.
pub proof fn lemma_hits_range(agents: Seq<AgentRecord>, w: int, c: int)
    ensures
        0 <= spec_hits(agents, w, c) <= agents.len(),
    decreases agents.len(),
{
    if agents.len() > 0 {
        lemma_hits_range(agents.drop_last(), w, c);
    }
}

/// One more deposit after `hits` deposits is `hits + 1` deposits.
pub proof fn lemma_deposit_step(v: int, amount: int, hits: int, ceiling: int)
    requires
        0 <= v <= ceiling,
        0 <= amount,
        0 <= hits,
    ensures
        spec_deposit_value(spec_deposit_value(v, amount, hits, ceiling), amount, 1, ceiling)
            == spec_deposit_value(v, amount, hits + 1, ceiling),
        v <= spec_deposit_value(v, amount, hits, ceiling) <= ceiling,
        spec_deposit_value(v, amount, 0, ceiling) == v,
{
    assert(amount * (hits + 1) == amount * hits + amount) by (nonlinear_arith);
    assert(0 <= amount * hits) by (nonlinear_arith)
        requires
            0 <= amount,
            0 <= hits,
    ;
    assert(amount * 1 == amount);
    assert(amount * 0 == 0);
}

/// The agent made of five draws, if each draw lies in the range it was drawn from.
pub fn agent_from_draws(
    x: i64,
    y: i64,
    vx: i64,
    vy: i64,
    heading: i64,
    w: usize,
    h: usize,
) -> (made: Option<AgentRecord>)
    requires
        valid_dims(w as int, h as int),
    ensures
        made == spec_from_draws(
            x as int,
            y as int,
            vx as int,
            vy as int,
            heading as int,
            w as int,
            h as int,
        ),
        made matches Some(agent) ==> agent.in_bounds(w as int, h as int),
{
    let inside: bool = 0 <= x && x < (w as i64) * 256 && 0 <= y && y < (h as i64) * 256;
    let slow: bool = -256 <= vx && vx <= 256 && -256 <= vy && vy <= 256;
    if inside && slow && 0 <= heading && heading < 65536 {
        Some(
            AgentRecord {
                x: x as u32,
                y: y as u32,
                vx: vx as i16,
                vy: vy as i16,
                heading: heading as u16,
            },
        )
    } else {
        None
    }
}

/// An agent drawn at random: anywhere on the grid, at up to one cell a pass
/// along each axis, heading anywhere.
fn random_agent(w: usize, h: usize) -> (agent: AgentRecord)
    requires
        valid_dims(w as int, h as int),
    ensures
        agent.in_bounds(w as int, h as int),
        -MAX_START_SPEED <= agent.vx <= MAX_START_SPEED,
        -MAX_START_SPEED <= agent.vy <= MAX_START_SPEED,
{
    let x: i64 = random_in_range(0, (w as i64) * 256 - 1);
    let y: i64 = random_in_range(0, (h as i64) * 256 - 1);
    let vx: i64 = random_in_range(-256, 256);
    let vy: i64 = random_in_range(-256, 256);
    let heading: i64 = random_in_range(0, 65535);
    match agent_from_draws(x, y, vx, vy, heading, w, h) {
        Some(agent) => agent,
        None => AgentRecord { x: 0, y: 0, vx: 0, vy: 0, heading: 0 },
    }
}

/// A buffer of agents that all stand on one grid.
pub struct AgentPopulation {
    agents: Vec<AgentRecord>,
    width: usize,
    height: usize,
}

impl View for AgentPopulation {
    type V = Seq<AgentRecord>;

    /// The records, in buffer order.
    closed spec fn view(&self) -> Seq<AgentRecord> {
        self.agents@
    }
}

impl AgentPopulation {
    /// Number of columns of the grid the agents stand on.
    pub closed spec fn spec_width(&self) -> int {
        self.width as int
    }

    /// Number of rows of the grid the agents stand on.
    pub closed spec fn spec_height(&self) -> int {
        self.height as int
    }

    /// The grid can be held by a field, and every agent stands inside it.
    pub closed spec fn wf(&self) -> bool {
        &&& valid_dims(self.width as int, self.height as int)
        &&& self.agents@.len() <= MAX_AGENTS
        &&& forall|i: int|
            0 <= i < self.agents@.len() ==> (#[trigger] self.agents@[i]).in_bounds(
                self.width as int,
                self.height as int,
            )
    }

    /// What a well-formed population promises of its records.
    pub proof fn lemma_wf(&self)
        requires
            self.wf(),
        ensures
            valid_dims(self.spec_width(), self.spec_height()),
            self@.len() <= MAX_AGENTS,
            forall|i: int|
                0 <= i < self@.len() ==> (#[trigger] self@[i]).in_bounds(
                    self.spec_width(),
                    self.spec_height(),
                ),
    {
    }

    /// Which error, if any, a population of `count` agents on a `w` by `h` grid is refused with.
    pub open spec fn spec_refusal(count: int, w: int, h: int) -> Option<SetupError> {
        if w == 0 || h == 0 {
            Some(SetupError::EmptyGrid)
        } else if w > MAX_DIM || h > MAX_DIM {
            Some(SetupError::GridTooLarge)
        } else if count > MAX_AGENTS {
            Some(SetupError::TooManyAgents)
        } else {
            None
        }
    }

    /// Which error, if any, a population of `count` agents on a `w` by `h` grid is refused with.
    pub fn refusal(count: usize, w: usize, h: usize) -> (why: Option<SetupError>)
        ensures
            why == Self::spec_refusal(count as int, w as int, h as int),
            why.is_none() ==> valid_dims(w as int, h as int) && count <= MAX_AGENTS,
    {
        if w == 0 || h == 0 {
            Some(SetupError::EmptyGrid)
        } else if w > MAX_DIM || h > MAX_DIM {
            Some(SetupError::GridTooLarge)
        } else if count > MAX_AGENTS {
            Some(SetupError::TooManyAgents)
        } else {
            None
        }
    }

    /// `count` agents, each drawn at random by itself: anywhere on the grid,
    /// at up to one cell a pass along each axis, heading anywhere.
    pub fn init(count: usize, w: usize, h: usize) -> (made: Result<AgentPopulation, SetupError>)
        ensures
            match Self::spec_refusal(count as int, w as int, h as int) {
                Some(why) => made == Err::<AgentPopulation, SetupError>(why),
                None => made.is_ok(),
            },
            made matches Ok(population) ==> {
                &&& population.wf()
                &&& population.spec_width() == w
                &&& population.spec_height() == h
                &&& population@.len() == count
                &&& forall|i: int|
                    0 <= i < count ==> {
                        &&& (#[trigger] population@[i]).in_bounds(w as int, h as int)
                        &&& -MAX_START_SPEED <= population@[i].vx <= MAX_START_SPEED
                        &&& -MAX_START_SPEED <= population@[i].vy <= MAX_START_SPEED
                    }
            },
    {
        match Self::refusal(count, w, h) {
            Some(why) => {
                return Err(why);
            },
            None => {},
        }
        let mut agents: Vec<AgentRecord> = Vec::new();
        let mut i: usize = 0;
        while i < count
            invariant
                valid_dims(w as int, h as int),
                i <= count,
                agents@.len() == i,
                forall|j: int|
                    0 <= j < i ==> {
                        &&& (#[trigger] agents@[j]).in_bounds(w as int, h as int)
                        &&& -MAX_START_SPEED <= agents@[j].vx <= MAX_START_SPEED
                        &&& -MAX_START_SPEED <= agents@[j].vy <= MAX_START_SPEED
                    },
            decreases count - i,
        {
            agents.push(random_agent(w, h));
            i = i + 1;
        }
        Ok(AgentPopulation { agents, width: w, height: h })
    }

    /// A population of the given records, each with its position brought onto the torus.
    pub fn from_records(records: Vec<AgentRecord>, w: usize, h: usize) -> (made: Result<
        AgentPopulation,
        SetupError,
    >)
        ensures
            match Self::spec_refusal(records@.len() as int, w as int, h as int) {
                Some(why) => made == Err::<AgentPopulation, SetupError>(why),
                None => made.is_ok(),
            },
            made matches Ok(population) ==> {
                &&& population.wf()
                &&& population.spec_width() == w
                &&& population.spec_height() == h
                &&& population@.len() == records@.len()
                &&& forall|i: int|
                    0 <= i < records@.len() ==> #[trigger] population@[i]
                        == records@[i].spec_normalized(w as int, h as int)
            },
    {
        match Self::refusal(records.len(), w, h) {
            Some(why) => {
                return Err(why);
            },
            None => {},
        }
        let mut agents: Vec<AgentRecord> = records;
        let n: usize = agents.len();
        let mut i: usize = 0;
        while i < n
            invariant
                valid_dims(w as int, h as int),
                i <= n,
                agents@.len() == n,
                n == records@.len(),
                forall|j: int|
                    0 <= j < i ==> #[trigger] agents@[j] == records@[j].spec_normalized(
                        w as int,
                        h as int,
                    ),
                forall|j: int| 0 <= j < i ==> (#[trigger] agents@[j]).in_bounds(w as int, h as int),
                forall|j: int| i <= j < n ==> #[trigger] agents@[j] == records@[j],
            decreases n - i,
        {
            let on_torus: AgentRecord = agents[i].normalized(w, h);
            agents.set(i, on_torus);
            i = i + 1;
        }
        Ok(AgentPopulation { agents, width: w, height: h })
    }

    /// Number of agents.
    pub fn len(&self) -> (n: usize)
        ensures
            n == self@.len(),
    {
        self.agents.len()
    }

    /// Number of columns of the grid the agents stand on.
    pub fn width(&self) -> (w: usize)
        ensures
            w == self.spec_width(),
    {
        self.width
    }

    /// Number of rows of the grid the agents stand on.
    pub fn height(&self) -> (h: usize)
        ensures
            h == self.spec_height(),
    {
        self.height
    }

    /// The record of agent `i`.
    pub fn get(&self, i: usize) -> (agent: AgentRecord)
        requires
            i < self@.len(),
        ensures
            agent == self@[i as int],
    {
        self.agents[i]
    }

    /// A copy of the records, in buffer order.
    pub fn records(&self) -> (out: Vec<AgentRecord>)
        ensures
            out@ == self@,
    {
        let mut out: Vec<AgentRecord> = Vec::new();
        let n: usize = self.agents.len();
        let mut i: usize = 0;
        while i < n
            invariant
                i <= n,
                n == self.agents@.len(),
                out@ == self.agents@.take(i as int),
            decreases n - i,
        {
            out.push(self.agents[i]);
            proof {
                assert(self.agents@.take(i + 1) =~= self.agents@.take(i as int).push(
                    self.agents@[i as int],
                ));
            }
            i = i + 1;
        }
        proof {
            assert(self.agents@.take(n as int) =~= self.agents@);
        }
        out
    }

    /// The update pass: every agent, by itself, reads the field and moves.
    /// The field is not changed.
    pub fn update(&mut self, field: &TrailField, params: &ParameterSet)
        requires
            old(self).wf(),
            field.wf(),
            params.wf(),
            old(self).spec_width() == field.spec_width(),
            old(self).spec_height() == field.spec_height(),
        ensures
            final(self).wf(),
            final(self).spec_width() == old(self).spec_width(),
            final(self).spec_height() == old(self).spec_height(),
            final(self)@ == spec_update_all(
                old(self)@,
                field@,
                field.spec_width(),
                field.spec_height(),
                *params,
            ),
            forall|i: int|
                0 <= i < final(self)@.len() ==> (#[trigger] final(self)@[i]).in_bounds(
                    field.spec_width(),
                    field.spec_height(),
                ),
    {
        let n: usize = self.agents.len();
        let mut i: usize = 0;
        while i < n
            invariant
                self.wf(),
                field.wf(),
                params.wf(),
                self.width == old(self).width,
                self.height == old(self).height,
                self.width == field.spec_width(),
                self.height == field.spec_height(),
                n == self.agents@.len(),
                n == old(self).agents@.len(),
                i <= n,
                forall|j: int|
                    0 <= j < i ==> #[trigger] self.agents@[j] == spec_update_agent(
                        old(self).agents@[j],
                        field@,
                        field.spec_width(),
                        field.spec_height(),
                        *params,
                    ),
                forall|j: int| i <= j < n ==> #[trigger] self.agents@[j] == old(self).agents@[j],
            decreases n - i,
        {
            let next: AgentRecord = self.agents[i].update(field, params);
            self.agents.set(i, next);
            i = i + 1;
        }
        proof {
            assert(self.agents@ =~= spec_update_all(
                old(self)@,
                field@,
                field.spec_width(),
                field.spec_height(),
                *params,
            ));
        }
    }

    /// The deposit pass: every agent adds `amount` to the cell it stands in,
    /// held at the ceiling. The result depends on how many agents stand in
    /// each cell and not on the order in which they are taken.
    pub fn deposit(&self, field: &mut TrailField, amount: u32)
        requires
            self.wf(),
            old(field).wf(),
            self.spec_width() == old(field).spec_width(),
            self.spec_height() == old(field).spec_height(),
        ensures
            final(field).wf(),
            final(field).spec_width() == old(field).spec_width(),
            final(field).spec_height() == old(field).spec_height(),
            final(field).spec_ceiling() == old(field).spec_ceiling(),
            final(field)@ == spec_deposit_all(
                old(field)@,
                self@,
                old(field).spec_width(),
                amount as int,
                old(field).spec_ceiling() as int,
            ),
            forall|c: int|
                0 <= c < final(field)@.len() ==> old(field)@[c] <= #[trigger] final(field)@[c]
                    <= old(field).spec_ceiling(),
    {
        let n: usize = self.agents.len();
        let w: usize = self.width;
        let h: usize = self.height;
        let mut i: usize = 0;
        proof {
            old(field).lemma_wf();
            assert(self.agents@.take(0) =~= Seq::<AgentRecord>::empty());
            assert forall|c: int| 0 <= c < field@.len() implies field@[c] == spec_deposit_value(
                old(field)@[c] as int,
                amount as int,
                spec_hits(self.agents@.take(0), w as int, c),
                old(field).spec_ceiling() as int,
            ) by {
                lemma_deposit_step(
                    old(field)@[c] as int,
                    amount as int,
                    0,
                    old(field).spec_ceiling() as int,
                );
            }
        }
        while i < n
            invariant
                self.wf(),
                field.wf(),
                old(field).wf(),
                w == self.width,
                h == self.height,
                w == field.spec_width(),
                h == field.spec_height(),
                field.spec_width() == old(field).spec_width(),
                field.spec_height() == old(field).spec_height(),
                field.spec_ceiling() == old(field).spec_ceiling(),
                field@.len() == old(field)@.len(),
                n == self.agents@.len(),
                i <= n,
                forall|c: int|
                    0 <= c < field@.len() ==> #[trigger] field@[c] == spec_deposit_value(
                        old(field)@[c] as int,
                        amount as int,
                        spec_hits(self.agents@.take(i as int), w as int, c),
                        old(field).spec_ceiling() as int,
                    ),
            decreases n - i,
        {
            let agent: AgentRecord = self.agents[i];
            let (x, y) = agent.cell(w, h);
            let ghost before = field@;
            proof {
                field.lemma_wf();
                lemma_cell_index(x as int, y as int, w as int, h as int);
            }
            field.deposit(x, y, amount);
            proof {
                let sofar = self.agents@.take(i as int);
                let next = self.agents@.take(i + 1);
                assert(next.drop_last() =~= sofar);
                assert(next.last() == agent);
                assert(field@.len() == before.len());
                old(field).lemma_wf();
                assert forall|c: int| 0 <= c < field@.len() implies #[trigger] field@[c]
                    == spec_deposit_value(
                    old(field)@[c] as int,
                    amount as int,
                    spec_hits(next, w as int, c),
                    old(field).spec_ceiling() as int,
                ) by {
                    lemma_hits_range(sofar, w as int, c);
                    lemma_deposit_step(
                        old(field)@[c] as int,
                        amount as int,
                        spec_hits(sofar, w as int, c),
                        old(field).spec_ceiling() as int,
                    );
                    lemma_deposit_step(
                        old(field)@[c] as int,
                        amount as int,
                        spec_hits(sofar, w as int, c) + 1,
                        old(field).spec_ceiling() as int,
                    );
                }
            }
            i = i + 1;
        }
        proof {
            assert(self.agents@.take(n as int) =~= self.agents@);
            old(field).lemma_wf();
            assert forall|c: int| 0 <= c < field@.len() implies old(field)@[c] <= #[trigger] field@[c]
                <= old(field).spec_ceiling() by {
                lemma_hits_range(self.agents@, w as int, c);
                lemma_deposit_step(
                    old(field)@[c] as int,
                    amount as int,
                    spec_hits(self.agents@, w as int, c),
                    old(field).spec_ceiling() as int,
                );
            }
            assert(field@ =~= spec_deposit_all(
                old(field)@,
                self@,
                old(field).spec_width(),
                amount as int,
                old(field).spec_ceiling() as int,
            ));
        }
    }
}

} // verus!
