use physarum::agent::blend;
use physarum::agent::reach;
use physarum::agent::steer;
use physarum::agent::wrap_coord;
use physarum::agent::AgentRecord;
use physarum::agent::Steer;
use physarum::error::SetupError;
use physarum::field::TrailField;
use physarum::field::MAX_DIM;
use physarum::params::ParameterSet;
use physarum::population::agent_from_draws;
use physarum::population::AgentPopulation;
use physarum::population::MAX_AGENTS;
use physarum::trig::cos_fixed;
use physarum::trig::div_trunc_scale;
use physarum::trig::sin_fixed;
use physarum::trig::turn_by;

fn agent(x: u32, y: u32, heading: u16) -> AgentRecord {
    AgentRecord { x, y, vx: 0, vy: 0, heading }
}

fn params(distance: u32, spread: u32, steer: u32, speed: u32, inertia: u32) -> ParameterSet {
    ParameterSet::new(distance, spread, steer, speed, inertia, 0).unwrap()
}

#[test]
fn sine_is_exact_at_the_cardinal_angles() {
    assert_eq!(sin_fixed(0), 0);
    assert_eq!(sin_fixed(16384), 256);
    assert_eq!(sin_fixed(32768), 0);
    assert_eq!(sin_fixed(49152), -256);
    assert_eq!(cos_fixed(0), 256);
    assert_eq!(cos_fixed(16384), 0);
    assert_eq!(cos_fixed(32768), -256);
    assert_eq!(cos_fixed(49152), 0);
}

#[test]
fn sine_and_cosine_stay_close_to_the_true_ones() {
    let mut angle: u32 = 0;
    while angle < 65536 {
        let radians = angle as f64 * std::f64::consts::TAU / 65536.0;
        let s = sin_fixed(angle as u16) as f64;
        let c = cos_fixed(angle as u16) as f64;
        assert!((s - 256.0 * radians.sin()).abs() < 2.0, "sine at {angle}");
        assert!((c - 256.0 * radians.cos()).abs() < 2.0, "cosine at {angle}");
        assert!((-256.0..=256.0).contains(&s));
        assert!((-256.0..=256.0).contains(&c));
        angle += 37;
    }
}

#[test]
fn sine_half_a_turn_on_is_the_opposite() {
    for angle in [0u16, 1, 100, 8192, 16384, 30000, 32767] {
        assert_eq!(sin_fixed(angle + 32768), -sin_fixed(angle));
    }
}

#[test]
fn sine_of_an_eighth_turn() {
    assert_eq!(sin_fixed(8192), 180);
    assert_eq!(cos_fixed(8192), 180);
}

#[test]
fn division_rounds_toward_zero() {
    assert_eq!(div_trunc_scale(511), 1);
    assert_eq!(div_trunc_scale(-511), -1);
    assert_eq!(div_trunc_scale(255), 0);
    assert_eq!(div_trunc_scale(-255), 0);
    assert_eq!(div_trunc_scale(-256), -1);
    assert_eq!(div_trunc_scale(0), 0);
}

#[test]
fn turning_wraps_round_the_full_turn() {
    assert_eq!(turn_by(65535, 1), 0);
    assert_eq!(turn_by(0, -1), 65535);
    assert_eq!(turn_by(100, 65536), 100);
    assert_eq!(turn_by(100, -65536), 100);
    assert_eq!(turn_by(1000, 2086), 3086);
}

#[test]
fn reach_scales_a_length_by_a_direction() {
    assert_eq!(reach(2560, 256), 2560);
    assert_eq!(reach(2560, -256), -2560);
    assert_eq!(reach(2560, 0), 0);
    assert_eq!(reach(1000, 180), 703);
    assert_eq!(reach(1000, -180), -703);
}

#[test]
fn blend_weighs_old_and_driven_velocity() {
    assert_eq!(blend(100, 128, 1280, 256), 690);
    assert_eq!(blend(100, 0, 1280, 256), 1280);
    assert_eq!(blend(100, 256, 1280, 256), 100);
    assert_eq!(blend(-100, 128, 1280, -256), -690);
    assert_eq!(blend(i16::MIN, 256, 12800, 256), i16::MIN);
    assert_eq!(blend(i16::MAX, 255, 12800, 256), 32689);
}

#[test]
fn positions_wrap_round_the_torus() {
    assert_eq!(wrap_coord(10, -11, 4), 1023);
    assert_eq!(wrap_coord(1023, 1, 4), 0);
    assert_eq!(wrap_coord(0, 32768, 1), 0);
    assert_eq!(wrap_coord(5, -32768, 1), 5);
    assert_eq!(wrap_coord(100, 50, 4), 150);
    assert_eq!(wrap_coord(0, -1, MAX_DIM), (MAX_DIM as u32) * 256 - 1);
}

#[test]
fn steering_prefers_the_strongest_sensor() {
    assert_eq!(steer(5, 3, 4), Steer::Ahead);
    assert_eq!(steer(5, 9, 4), Steer::Left);
    assert_eq!(steer(5, 4, 9), Steer::Right);
    assert_eq!(steer(5, 9, 8), Steer::Left);
    assert_eq!(steer(5, 8, 9), Steer::Right);
    assert_eq!(steer(9, 9, 4), Steer::Ahead);
    assert_eq!(steer(9, 4, 9), Steer::Ahead);
}

#[test]
fn steering_does_not_turn_on_a_tie() {
    assert_eq!(steer(0, 7, 7), Steer::Ahead);
    assert_eq!(steer(7, 7, 7), Steer::Ahead);
    assert_eq!(steer(0, 0, 0), Steer::Ahead);
    assert_eq!(steer(u32::MAX, u32::MAX, u32::MAX), Steer::Ahead);
}

#[test]
fn sensor_symmetry_keeps_the_heading() {
    let mut field = TrailField::new(21, 21, 1000).unwrap();
    field.set(10, 15, 500);
    field.set(10, 5, 500);
    field.set(15, 10, 100);
    let start = agent(10 * 256 + 128, 10 * 256 + 128, 0);
    let set = params(5 * 256, 16384, 256, 256, 0);
    assert_eq!(start.sense(&field, 0, 5 * 256), 100);
    assert_eq!(start.sense(&field, 16384, 5 * 256), 500);
    assert_eq!(start.sense(&field, -16384, 5 * 256), 500);
    let next = start.update(&field, &set);
    assert_eq!(next.heading, 0);
    assert_eq!(next.x, 10 * 256 + 128 + 256);
    assert_eq!(next.y, 10 * 256 + 128);
}

#[test]
fn uniform_field_keeps_the_heading() {
    let mut field = TrailField::new(8, 8, 1000).unwrap();
    for y in 0..8 {
        for x in 0..8 {
            field.set(x, y, 42);
        }
    }
    let set = ParameterSet::initial();
    for heading in [0u16, 1234, 16384, 40000, 65535] {
        let start = agent(700, 900, heading);
        assert_eq!(start.update(&field, &set).heading, heading);
    }
}

#[test]
fn agent_turns_toward_the_stronger_side() {
    let mut field = TrailField::new(21, 21, 1000).unwrap();
    field.set(10, 15, 500);
    field.set(10, 5, 400);
    let start = agent(10 * 256 + 128, 10 * 256 + 128, 0);
    let wide = params(5 * 256, 16384, 256, 0, 0);
    assert_eq!(start.update(&field, &wide).heading, 16384);
    let tight = params(5 * 256, 16384, 16, 0, 0);
    assert_eq!(start.update(&field, &tight).heading, 4096);
    field.set(10, 5, 600);
    assert_eq!(start.update(&field, &wide).heading, 49152);
    assert_eq!(start.update(&field, &tight).heading, 61440);
}

#[test]
fn agent_moves_along_its_heading() {
    let field = TrailField::new(100, 100, 1000).unwrap();
    let set = params(2560, 2086, 51, 1280, 0);
    let start = agent(2560, 2560, 0);
    let next = start.update(&field, &set);
    assert_eq!(next, AgentRecord { x: 3840, y: 2560, vx: 1280, vy: 0, heading: 0 });
    let down = agent(2560, 2560, 16384).update(&field, &set);
    assert_eq!(down, AgentRecord { x: 2560, y: 3840, vx: 0, vy: 1280, heading: 16384 });
}

#[test]
fn agent_leaving_the_grid_comes_back_on_the_other_side() {
    let field = TrailField::new(10, 10, 1000).unwrap();
    let set = params(0, 0, 0, 1280, 0);
    let right = agent(10 * 256 - 1, 0, 0).update(&field, &set);
    assert_eq!(right.x, 1279);
    let left = agent(0, 5, 32768).update(&field, &set);
    assert_eq!(left.x, 10 * 256 - 1280);
    assert_eq!(left.y, 5);
    let up = agent(7, 3, 49152).update(&field, &set);
    assert_eq!(up.y, 10 * 256 + 3 - 1280);
}

#[test]
fn inertia_keeps_part_of_the_old_velocity() {
    let field = TrailField::new(100, 100, 1000).unwrap();
    let set = params(0, 0, 0, 1280, 128);
    let start = AgentRecord { x: 5000, y: 5000, vx: 0, vy: -512, heading: 0 };
    let next = start.update(&field, &set);
    assert_eq!(next.vx, 640);
    assert_eq!(next.vy, -256);
    assert_eq!(next.x, 5640);
    assert_eq!(next.y, 4744);
}

#[test]
fn records_are_brought_onto_the_torus() {
    let far = AgentRecord { x: 4 * 256 + 3, y: u32::MAX, vx: 7, vy: -7, heading: 9 };
    assert!(!far.is_in_bounds(4, 4));
    let near = far.normalized(4, 4);
    assert_eq!(near, AgentRecord { x: 3, y: u32::MAX % 1024, vx: 7, vy: -7, heading: 9 });
    assert!(near.is_in_bounds(4, 4));
    assert_eq!(near.cell(4, 4), (0, 3));
}

#[test]
fn agents_are_made_of_draws_in_range_only() {
    let made = agent_from_draws(1023, 0, -256, 256, 65535, 4, 4);
    assert_eq!(made, Some(AgentRecord { x: 1023, y: 0, vx: -256, vy: 256, heading: 65535 }));
    assert_eq!(agent_from_draws(1024, 0, 0, 0, 0, 4, 4), None);
    assert_eq!(agent_from_draws(0, -1, 0, 0, 0, 4, 4), None);
    assert_eq!(agent_from_draws(0, 0, 257, 0, 0, 4, 4), None);
    assert_eq!(agent_from_draws(0, 0, 0, -257, 0, 4, 4), None);
    assert_eq!(agent_from_draws(0, 0, 0, 0, 65536, 4, 4), None);
}

#[test]
fn population_starts_inside_the_grid() {
    let population = AgentPopulation::init(2000, 30, 20).unwrap();
    assert_eq!(population.len(), 2000);
    assert_eq!(population.width(), 30);
    assert_eq!(population.height(), 20);
    for record in population.records() {
        assert!(record.x < 30 * 256);
        assert!(record.y < 20 * 256);
        assert!((-256..=256).contains(&record.vx));
        assert!((-256..=256).contains(&record.vy));
    }
}

#[test]
fn population_start_is_spread_out() {
    let population = AgentPopulation::init(2000, 30, 20).unwrap();
    let records = population.records();
    let first = records[0];
    assert!(records.iter().any(|r| r.x != first.x));
    assert!(records.iter().any(|r| r.y != first.y));
    assert!(records.iter().any(|r| r.vx != first.vx));
    assert!(records.iter().any(|r| r.vy != first.vy));
    assert!(records.iter().any(|r| r.heading != first.heading));
    assert!(records.iter().any(|r| r.x > 15 * 256));
    assert!(records.iter().any(|r| r.x < 15 * 256));
    assert!(records.iter().any(|r| r.vx > 0));
    assert!(records.iter().any(|r| r.vx < 0));
    assert!(records.iter().any(|r| r.heading >= 32768));
    assert!(records.iter().any(|r| r.heading < 32768));
}

#[test]
fn population_refuses_bad_sizes() {
    assert_eq!(AgentPopulation::init(1, 0, 5).err(), Some(SetupError::EmptyGrid));
    assert_eq!(AgentPopulation::init(1, 5, MAX_DIM + 1).err(), Some(SetupError::GridTooLarge));
    assert_eq!(AgentPopulation::init(MAX_AGENTS + 1, 5, 5).err(), Some(SetupError::TooManyAgents));
    assert_eq!(AgentPopulation::refusal(MAX_AGENTS, 5, 5), None);
    assert_eq!(AgentPopulation::from_records(Vec::new(), 0, 0).err(), Some(SetupError::EmptyGrid));
    assert!(AgentPopulation::init(0, 5, 5).unwrap().records().is_empty());
}

#[test]
fn population_update_moves_every_agent_by_itself() {
    let field = TrailField::new(50, 50, 1000).unwrap();
    let set = params(2560, 2086, 51, 1280, 0);
    let records = vec![agent(0, 0, 0), agent(5000, 6000, 16384), agent(12799, 12799, 32768)];
    let mut population = AgentPopulation::from_records(records.clone(), 50, 50).unwrap();
    population.update(&field, &set);
    for (i, record) in records.iter().enumerate() {
        assert_eq!(population.get(i), record.update(&field, &set));
    }
    assert_eq!(population.get(0).x, 1280);
    assert_eq!(population.get(1).y, 7280);
    assert_eq!(population.get(2).x, 12799 - 1280);
}

#[test]
fn population_stays_inside_the_grid() {
    let mut field = TrailField::new(13, 7, 5000).unwrap();
    let mut population = AgentPopulation::init(500, 13, 7).unwrap();
    let set = params(12800, 30000, 256, 12800, 17);
    for _ in 0..25 {
        population.update(&field, &set);
        population.deposit(&mut field, 50);
        field.diffuse();
        for record in population.records() {
            assert!(record.x < 13 * 256);
            assert!(record.y < 7 * 256);
        }
    }
}

#[test]
fn deposit_counts_the_agents_in_each_cell() {
    let mut field = TrailField::new(4, 4, 35).unwrap();
    let records = vec![
        agent(0, 0, 0),
        agent(255, 255, 0),
        agent(256, 0, 0),
        agent(3 * 256, 3 * 256 + 17, 0),
        agent(10, 20, 0),
        agent(1, 1, 0),
    ];
    let population = AgentPopulation::from_records(records, 4, 4).unwrap();
    population.deposit(&mut field, 10);
    let mut expected = vec![0u32; 16];
    expected[0] = 35;
    expected[1] = 10;
    expected[15] = 10;
    assert_eq!(field.cells(), expected);
}

#[test]
fn deposit_does_not_depend_on_the_order_of_agents() {
    let mut records: Vec<AgentRecord> =
        (0..200u32).map(|i| agent((i * 7919) % 2048, (i * 104729) % 2048, 0)).collect();
    records.insert(100, agent(3 * 256 + 5, 3 * 256 + 250, 0));
    let mut reversed = records.clone();
    reversed.reverse();
    let mut rotated = records.clone();
    rotated.rotate_left(77);
    let mut fields = Vec::new();
    for order in [records, reversed, rotated] {
        let mut field = TrailField::new(8, 8, 60).unwrap();
        field.set(3, 3, 55);
        AgentPopulation::from_records(order, 8, 8).unwrap().deposit(&mut field, 9);
        fields.push(field.cells());
    }
    assert_eq!(fields[0], fields[1]);
    assert_eq!(fields[0], fields[2]);
    assert!(fields[0].iter().any(|&v| v == 60));
}

#[test]
fn deposit_in_batches_is_deposit_at_once() {
    let first: Vec<AgentRecord> = (0..50u32).map(|i| agent((i * 31) % 1024, (i * 17) % 1024, 0)).collect();
    let second: Vec<AgentRecord> = (0..70u32).map(|i| agent((i * 13) % 1024, (i * 29) % 1024, 0)).collect();
    let mut whole = first.clone();
    whole.extend(second.iter().copied());
    let mut at_once = TrailField::new(4, 4, 100).unwrap();
    AgentPopulation::from_records(whole, 4, 4).unwrap().deposit(&mut at_once, 7);
    let mut in_batches = TrailField::new(4, 4, 100).unwrap();
    AgentPopulation::from_records(first, 4, 4).unwrap().deposit(&mut in_batches, 7);
    AgentPopulation::from_records(second, 4, 4).unwrap().deposit(&mut in_batches, 7);
    assert_eq!(at_once.cells(), in_batches.cells());
}
