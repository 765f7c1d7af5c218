use physarum::agent::AgentRecord;
use physarum::compose::color_of;
use physarum::compose::compose;
use physarum::compose::tone;
use physarum::compose::Color;
use physarum::dispatch::group_count;
use physarum::dispatch::AGENT_GROUP_SIZE;
use physarum::error::SetupError;
use physarum::field::TrailField;
use physarum::field::MAX_DIM;
use physarum::params::at_most;
use physarum::params::ParameterSet;
use physarum::population::AgentPopulation;
use physarum::population::INITIAL_AGENT_COUNT;
use physarum::population::MAX_AGENTS;
use physarum::simulation::Simulation;
use physarum::simulation::TickRules;
use physarum::simulation::SUBSTEPS_PER_TICK;

fn still(blur_pass_count: u32) -> ParameterSet {
    ParameterSet::new(2560, 2086, 0, 0, 0, blur_pass_count).unwrap()
}

fn resting(x: u32, y: u32) -> AgentRecord {
    AgentRecord { x, y, vx: 0, vy: 0, heading: 0 }
}

fn simulation(
    width: usize,
    height: usize,
    ceiling: u32,
    records: Vec<AgentRecord>,
    rules: TickRules,
) -> Simulation {
    let field = TrailField::new(width, height, ceiling).unwrap();
    let agents = AgentPopulation::from_records(records, width, height).unwrap();
    Simulation::from_parts(field, agents, rules).unwrap()
}

#[test]
fn deposit_and_decay_converge() {
    let rules = TickRules { substeps: 1, deposit_amount: 2560, decay_num: 1, decay_den: 2 };
    let mut sim = simulation(4, 4, 1_000_000, vec![resting(10, 20)], rules);
    let set = still(0);
    let mut seen = Vec::new();
    for _ in 0..4 {
        sim.tick(&set);
        seen.push(sim.field().get(0, 0));
    }
    assert_eq!(seen, vec![2560, 3840, 4480, 4800]);
    let in_cells: Vec<f64> = seen.iter().map(|&v| v as f64 / 256.0).collect();
    assert_eq!(in_cells, vec![10.0, 15.0, 17.5, 18.75]);
    for _ in 0..60 {
        let before = sim.field().get(0, 0);
        sim.tick(&set);
        let after = sim.field().get(0, 0);
        assert!(after >= before);
        assert!(after < 20 * 256);
    }
    assert_eq!(sim.field().get(0, 0), 20 * 256 - 1);
    assert_eq!(sim.field().mass(), 20 * 256 - 1);
    assert_eq!(sim.agents().get(0), resting(10, 20));
}

#[test]
fn two_substeps_run_the_sequence_twice() {
    let once = TickRules { substeps: 1, deposit_amount: 2560, decay_num: 1, decay_den: 2 };
    let twice = TickRules { substeps: 2, deposit_amount: 2560, decay_num: 1, decay_den: 2 };
    let mut a = simulation(4, 4, 1_000_000, vec![resting(10, 20)], once);
    let mut b = simulation(4, 4, 1_000_000, vec![resting(10, 20)], twice);
    let set = still(1);
    a.tick(&set);
    a.tick(&set);
    b.tick(&set);
    assert_eq!(a.field().cells(), b.field().cells());
    assert_eq!(a.agents().records(), b.agents().records());
    assert_eq!(a.image(), b.image());
}

#[test]
fn no_substep_leaves_the_state_alone() {
    let rules = TickRules { substeps: 0, deposit_amount: 5, decay_num: 1, decay_den: 2 };
    let mut sim = simulation(3, 3, 100, vec![resting(300, 300)], rules);
    sim.tick(&ParameterSet::initial());
    assert_eq!(sim.field().cells(), vec![0u32; 9]);
    assert_eq!(sim.agents().records(), vec![resting(300, 300)]);
}

#[test]
fn zero_diffusion_is_decay_then_deposit() {
    let width = 6usize;
    let height = 5usize;
    let rules = TickRules { substeps: 1, deposit_amount: 40, decay_num: 3, decay_den: 4 };
    let mut field = TrailField::new(width, height, 300).unwrap();
    let mut start = Vec::new();
    for y in 0..height {
        for x in 0..width {
            let v = ((x * 53 + y * 97) % 301) as u32;
            field.set(x, y, v);
            start.push(v);
        }
    }
    let records = vec![resting(0, 0), resting(300, 700), resting(310, 760), resting(1535, 1279)];
    let agents = AgentPopulation::from_records(records.clone(), width, height).unwrap();
    let mut sim = Simulation::from_parts(field, agents, rules).unwrap();
    sim.tick(&still(0));
    let mut expected: Vec<u32> = start.iter().map(|&v| (v as u64 * 3 / 4) as u32).collect();
    for record in &records {
        let cell = (record.y / 256) as usize * width + (record.x / 256) as usize;
        expected[cell] = (expected[cell] + 40).min(300);
    }
    assert_eq!(sim.field().cells(), expected);
    assert_eq!(sim.agents().records(), records);
}

#[test]
fn field_passes_are_deterministic() {
    let rules = TickRules { substeps: 2, deposit_amount: 333, decay_num: 9, decay_den: 10 };
    let records: Vec<AgentRecord> =
        (0..300u32).map(|i| resting((i * 7919) % (16 * 256), (i * 104729) % (12 * 256))).collect();
    let mut runs = Vec::new();
    for _ in 0..2 {
        let mut field = TrailField::new(16, 12, 10_000).unwrap();
        for y in 0..12 {
            for x in 0..16 {
                field.set(x, y, ((x * 131 + y * 977) % 4000) as u32);
            }
        }
        let agents = AgentPopulation::from_records(records.clone(), 16, 12).unwrap();
        let mut sim = Simulation::from_parts(field, agents, rules).unwrap();
        sim.tick(&still(3));
        assert_eq!(sim.agents().records(), records);
        runs.push((sim.field().cells(), sim.image().clone()));
    }
    assert_eq!(runs[0], runs[1]);
}

#[test]
fn whole_ticks_are_deterministic() {
    let rules = TickRules { substeps: 2, deposit_amount: 500, decay_num: 9, decay_den: 10 };
    let start = AgentPopulation::init(400, 20, 20).unwrap().records();
    let mut runs = Vec::new();
    for _ in 0..2 {
        let mut sim = simulation(20, 20, 100_000, start.clone(), rules);
        let set = ParameterSet::initial();
        for _ in 0..10 {
            sim.tick(&set);
        }
        runs.push((sim.field().cells(), sim.agents().records()));
    }
    assert_eq!(runs[0], runs[1]);
    assert_ne!(runs[0].1, start);
}

#[test]
fn ticks_keep_agents_inside_and_cells_within_the_ceiling() {
    let rules = TickRules { substeps: 2, deposit_amount: 900, decay_num: 99, decay_den: 100 };
    let mut sim = Simulation::new(17, 9, 2000, 1000, rules).unwrap();
    let set = ParameterSet::new(12800, 32768, 256, 12800, 200, 10).unwrap();
    for _ in 0..12 {
        sim.tick(&set);
        assert!(sim.field().cells().iter().all(|&v| v <= 2000));
        for record in sim.agents().records() {
            assert!(record.is_in_bounds(17, 9));
        }
    }
    assert!(sim.field().cells().iter().any(|&v| v > 0));
}

#[test]
fn resize_starts_over_on_the_new_grid() {
    let rules = TickRules { substeps: 2, deposit_amount: 10, decay_num: 1, decay_den: 2 };
    let mut sim = Simulation::new(100, 100, 1000, 3000, rules).unwrap();
    let set = ParameterSet::initial();
    sim.tick(&set);
    assert!(sim.agents().records().iter().any(|r| r.x >= 50 * 256 || r.y >= 50 * 256));
    assert_eq!(sim.resize(50, 50), Ok(()));
    assert_eq!(sim.field().width(), 50);
    assert_eq!(sim.field().height(), 50);
    assert_eq!(sim.field().ceiling(), 1000);
    assert_eq!(sim.field().cells(), vec![0u32; 2500]);
    assert_eq!(sim.image().len(), 2500);
    assert_eq!(sim.agents().len(), 3000);
    assert_eq!(sim.agents().width(), 50);
    for record in sim.agents().records() {
        assert!(record.x < 50 * 256);
        assert!(record.y < 50 * 256);
    }
    sim.tick(&set);
    for record in sim.agents().records() {
        assert!(record.x < 50 * 256);
        assert!(record.y < 50 * 256);
    }
    assert_eq!(sim.rules(), rules);
}

#[test]
fn refused_resize_changes_nothing() {
    let rules = TickRules { substeps: 1, deposit_amount: 10, decay_num: 1, decay_den: 2 };
    let mut sim = simulation(8, 8, 1000, vec![resting(100, 100), resting(2000, 2000)], rules);
    sim.tick(&still(1));
    let cells = sim.field().cells();
    let records = sim.agents().records();
    assert_eq!(sim.resize(0, 8), Err(SetupError::EmptyGrid));
    assert_eq!(sim.resize(8, MAX_DIM + 1), Err(SetupError::GridTooLarge));
    assert_eq!(sim.field().width(), 8);
    assert_eq!(sim.field().cells(), cells);
    assert_eq!(sim.agents().records(), records);
}

#[test]
fn simulation_refuses_bad_setups() {
    let good = TickRules { substeps: 2, deposit_amount: 10, decay_num: 1, decay_den: 2 };
    let bad = TickRules { substeps: 2, deposit_amount: 10, decay_num: 2, decay_den: 2 };
    let none = TickRules { substeps: 2, deposit_amount: 10, decay_num: 0, decay_den: 0 };
    assert_eq!(Simulation::new(0, 4, 10, 5, good).err(), Some(SetupError::EmptyGrid));
    assert_eq!(Simulation::new(4, MAX_DIM + 1, 10, 5, good).err(), Some(SetupError::GridTooLarge));
    assert_eq!(Simulation::new(4, 4, 0, 5, good).err(), Some(SetupError::ZeroCeiling));
    assert_eq!(Simulation::new(4, 4, 10, MAX_AGENTS + 1, good).err(), Some(SetupError::TooManyAgents));
    assert_eq!(Simulation::new(4, 4, 10, 5, bad).err(), Some(SetupError::BadDecay));
    assert_eq!(Simulation::new(4, 4, 10, 5, none).err(), Some(SetupError::BadDecay));
    assert!(!bad.is_valid());
    assert!(good.is_valid());
    let field = TrailField::new(4, 4, 10).unwrap();
    let agents = AgentPopulation::from_records(Vec::new(), 4, 5).unwrap();
    assert_eq!(Simulation::from_parts(field, agents, good).err(), Some(SetupError::MismatchedGrid));
    let field = TrailField::new(4, 4, 10).unwrap();
    let agents = AgentPopulation::from_records(Vec::new(), 4, 4).unwrap();
    assert_eq!(Simulation::from_parts(field, agents, bad).err(), Some(SetupError::BadDecay));
}

#[test]
fn new_simulation_shows_an_empty_field() {
    let rules = TickRules { substeps: 2, deposit_amount: 10, decay_num: 1, decay_den: 2 };
    let sim = Simulation::new(3, 2, 10, 4, rules).unwrap();
    assert_eq!(sim.field().cells(), vec![0u32; 6]);
    assert_eq!(sim.image(), &vec![Color { r: 0, g: 0, b: 0, a: 255 }; 6]);
    assert_eq!(sim.agents().len(), 4);
}

#[test]
fn image_shows_the_field_after_a_tick() {
    let rules = TickRules { substeps: 1, deposit_amount: 100, decay_num: 1, decay_den: 2 };
    let mut sim = simulation(2, 2, 200, vec![resting(300, 0), resting(300, 10)], rules);
    sim.tick(&still(0));
    assert_eq!(sim.field().cells(), vec![0, 200, 0, 0]);
    let black = Color { r: 0, g: 0, b: 0, a: 255 };
    let white = Color { r: 255, g: 255, b: 255, a: 255 };
    assert_eq!(sim.image(), &vec![black, white, black, black]);
    sim.tick(&still(0));
    assert_eq!(sim.field().cells(), vec![0, 200, 0, 0]);
}

#[test]
fn tone_is_linear_and_monotone() {
    assert_eq!(tone(0, 1000), 0);
    assert_eq!(tone(1000, 1000), 255);
    assert_eq!(tone(500, 1000), 127);
    assert_eq!(tone(4, 1000), 1);
    assert_eq!(tone(3, 1000), 0);
    assert_eq!(tone(u32::MAX, u32::MAX), 255);
    assert_eq!(tone(1, 1), 255);
    let mut last = 0u8;
    for v in 0..=1000u32 {
        let t = tone(v, 1000);
        assert!(t >= last);
        last = t;
    }
    assert_eq!(color_of(500, 1000), Color { r: 127, g: 127, b: 127, a: 255 });
}

#[test]
fn compose_overwrites_the_image() {
    let mut field = TrailField::new(2, 1, 10).unwrap();
    field.set(0, 0, 10);
    let mut image = vec![Color { r: 1, g: 2, b: 3, a: 4 }; 7];
    compose(&field, &mut image);
    assert_eq!(
        image,
        vec![Color { r: 255, g: 255, b: 255, a: 255 }, Color { r: 0, g: 0, b: 0, a: 255 }]
    );
}

#[test]
fn groups_cover_every_agent() {
    assert_eq!(AGENT_GROUP_SIZE, 8);
    assert_eq!(group_count(5_000_000, AGENT_GROUP_SIZE), 625_000);
    assert_eq!(group_count(0, 8), 0);
    assert_eq!(group_count(1, 8), 1);
    assert_eq!(group_count(8, 8), 1);
    assert_eq!(group_count(9, 8), 2);
    assert_eq!(group_count(u32::MAX, 1), u32::MAX);
    assert_eq!(group_count(u32::MAX, 8), 536_870_912);
    assert_eq!(group_count(u32::MAX, u32::MAX), 1);
}

#[test]
fn initial_rules() {
    let rules = TickRules::initial();
    assert_eq!(rules, TickRules { substeps: 2, deposit_amount: 256, decay_num: 243, decay_den: 256 });
    assert_eq!(rules.substeps, SUBSTEPS_PER_TICK);
    assert!(rules.is_valid());
    assert_eq!(INITIAL_AGENT_COUNT, 5_000_000);
    assert_eq!(group_count(INITIAL_AGENT_COUNT as u32, AGENT_GROUP_SIZE), 625_000);
}

#[test]
fn initial_parameters() {
    let set = ParameterSet::initial();
    assert_eq!(set.sensor_distance, 10 * 256);
    assert_eq!(set.sensor_spread, (0.2 / std::f64::consts::TAU * 65536.0) as u32);
    assert_eq!(set.steer_amount, (0.2 * 256.0) as u32);
    assert_eq!(set.movement_speed, 5 * 256);
    assert_eq!(set.inertia, 0);
    assert_eq!(set.blur_pass_count, 2);
    assert!(set.is_valid());
}

#[test]
fn parameters_out_of_range_are_refused() {
    assert!(ParameterSet::new(12800, 32768, 256, 12800, 256, 10).is_ok());
    assert_eq!(ParameterSet::new(0, 0, 0, 0, 0, 0).map(|s| s.is_valid()), Ok(true));
    let out = Err(SetupError::ParameterOutOfRange);
    assert_eq!(ParameterSet::new(12801, 0, 0, 0, 0, 0), out);
    assert_eq!(ParameterSet::new(0, 32769, 0, 0, 0, 0), out);
    assert_eq!(ParameterSet::new(0, 0, 257, 0, 0, 0), out);
    assert_eq!(ParameterSet::new(0, 0, 0, 12801, 0, 0), out);
    assert_eq!(ParameterSet::new(0, 0, 0, 0, 257, 0), out);
    assert_eq!(ParameterSet::new(0, 0, 0, 0, 0, 11), out);
}

#[test]
fn parameters_are_clamped_into_range() {
    let wild = ParameterSet {
        sensor_distance: u32::MAX,
        sensor_spread: 40000,
        steer_amount: 300,
        movement_speed: 12801,
        inertia: 1000,
        blur_pass_count: 11,
    };
    assert!(!wild.is_valid());
    let tame = wild.clamped();
    assert_eq!(tame, ParameterSet::new(12800, 32768, 256, 12800, 256, 10).unwrap());
    assert_eq!(ParameterSet::initial().clamped(), ParameterSet::initial());
    assert_eq!(at_most(5, 7), 5);
    assert_eq!(at_most(9, 7), 7);
}
