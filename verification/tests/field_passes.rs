use physarum::error::SetupError;
use physarum::field::TrailField;
use physarum::field::MAX_DIM;

fn field_from(width: usize, height: usize, ceiling: u32, values: &[u32]) -> TrailField {
    let mut field = TrailField::new(width, height, ceiling).unwrap();
    for y in 0..height {
        for x in 0..width {
            field.set(x, y, values[y * width + x]);
        }
    }
    field
}

#[test]
fn new_field_is_empty() {
    let field = TrailField::new(5, 3, 1000).unwrap();
    assert_eq!(field.width(), 5);
    assert_eq!(field.height(), 3);
    assert_eq!(field.ceiling(), 1000);
    assert_eq!(field.cells(), vec![0u32; 15]);
    assert_eq!(field.mass(), 0);
}

#[test]
fn new_field_refuses_empty_grid() {
    assert_eq!(TrailField::new(0, 3, 10).err(), Some(SetupError::EmptyGrid));
    assert_eq!(TrailField::new(3, 0, 10).err(), Some(SetupError::EmptyGrid));
    assert_eq!(TrailField::new(0, MAX_DIM + 1, 10).err(), Some(SetupError::EmptyGrid));
}

#[test]
fn new_field_refuses_large_grid() {
    assert_eq!(TrailField::new(MAX_DIM + 1, 1, 10).err(), Some(SetupError::GridTooLarge));
    assert_eq!(TrailField::new(1, MAX_DIM + 1, 10).err(), Some(SetupError::GridTooLarge));
    assert!(TrailField::new(MAX_DIM, 1, 10).is_ok());
}

#[test]
fn new_field_refuses_zero_ceiling() {
    assert_eq!(TrailField::new(4, 4, 0).err(), Some(SetupError::ZeroCeiling));
}

#[test]
fn set_holds_value_at_ceiling() {
    let mut field = TrailField::new(2, 2, 100).unwrap();
    field.set(1, 0, 99);
    field.set(0, 1, 101);
    assert_eq!(field.get(1, 0), 99);
    assert_eq!(field.get(0, 1), 100);
    assert_eq!(field.cells(), vec![0, 99, 100, 0]);
    assert_eq!(field.index_of(1, 1), 3);
}

#[test]
fn diffuse_spreads_one_cell_over_its_neighbourhood() {
    let mut values = vec![0u32; 25];
    values[12] = 90;
    let mut field = field_from(5, 5, 1000, &values);
    field.diffuse();
    let mut expected = vec![0u32; 25];
    for y in 1..4 {
        for x in 1..4 {
            expected[y * 5 + x] = 10;
        }
    }
    assert_eq!(field.cells(), expected);
    assert_eq!(field.mass(), 90);
}

#[test]
fn diffuse_goes_round_the_torus() {
    let mut values = vec![0u32; 16];
    values[0] = 9;
    let mut field = field_from(4, 4, 1000, &values);
    field.diffuse();
    let cells = field.cells();
    for y in 0..4usize {
        for x in 0..4usize {
            let near_x = x == 0 || x == 1 || x == 3;
            let near_y = y == 0 || y == 1 || y == 3;
            let expected = if near_x && near_y { 1 } else { 0 };
            assert_eq!(cells[y * 4 + x], expected, "cell ({x}, {y})");
        }
    }
}

#[test]
fn diffuse_rounds_down_and_never_gains_mass() {
    let values: Vec<u32> = (0..30u32).map(|i| (i * 37 + 11) % 23).collect();
    let mut field = field_from(6, 5, 1000, &values);
    let mut before = field.mass();
    for _ in 0..8 {
        field.diffuse();
        let after = field.mass();
        assert!(after <= before);
        before = after;
    }
}

#[test]
fn diffuse_loses_what_rounding_takes() {
    let mut values = vec![0u32; 9];
    values[4] = 10;
    let mut field = field_from(3, 3, 1000, &values);
    field.diffuse();
    assert_eq!(field.cells(), vec![1u32; 9]);
    assert_eq!(field.mass(), 9);
}

#[test]
fn diffuse_on_a_single_cell_keeps_it() {
    let mut field = field_from(1, 1, 1000, &[7]);
    field.diffuse();
    assert_eq!(field.cells(), vec![7]);
}

#[test]
fn diffuse_matches_a_direct_computation() {
    let w = 7usize;
    let h = 4usize;
    let values: Vec<u32> = (0..(w * h) as u32).map(|i| (i * i * 13 + 5) % 997).collect();
    let mut field = field_from(w, h, 1000, &values);
    field.diffuse();
    let mut expected = vec![0u32; w * h];
    for y in 0..h {
        for x in 0..w {
            let mut sum: u64 = 0;
            for dy in [h - 1, 0, 1] {
                for dx in [w - 1, 0, 1] {
                    sum += values[((y + dy) % h) * w + (x + dx) % w] as u64;
                }
            }
            expected[y * w + x] = (sum / 9) as u32;
        }
    }
    assert_eq!(field.cells(), expected);
}

#[test]
fn decay_halves_and_rounds_down() {
    let mut field = field_from(2, 2, 1000, &[10, 15, 1, 0]);
    field.decay(1, 2);
    assert_eq!(field.cells(), vec![5, 7, 0, 0]);
}

#[test]
fn decay_never_raises_a_cell() {
    let values: Vec<u32> = (0..12u32).map(|i| i * 1000 + 3).collect();
    let mut field = field_from(4, 3, 100_000, &values);
    for (num, den) in [(0u32, 1u32), (1, 3), (9, 10), (255, 256)] {
        let before = field.cells();
        field.decay(num, den);
        let after = field.cells();
        for i in 0..12 {
            assert!(after[i] <= before[i]);
            assert_eq!(after[i] as u64, before[i] as u64 * num as u64 / den as u64);
        }
    }
}

#[test]
fn decay_of_the_largest_value_does_not_overflow() {
    let mut field = field_from(1, 1, u32::MAX, &[u32::MAX]);
    field.decay(u32::MAX - 1, u32::MAX);
    assert_eq!(field.cells(), vec![u32::MAX - 1]);
}

#[test]
fn deposit_adds_and_stops_at_the_ceiling() {
    let mut field = TrailField::new(3, 2, 25).unwrap();
    field.deposit(2, 1, 10);
    assert_eq!(field.get(2, 1), 10);
    field.deposit(2, 1, 10);
    assert_eq!(field.get(2, 1), 20);
    field.deposit(2, 1, 10);
    assert_eq!(field.get(2, 1), 25);
    field.deposit(2, 1, u32::MAX);
    assert_eq!(field.get(2, 1), 25);
    assert_eq!(field.mass(), 25);
}

#[test]
fn every_pass_keeps_cells_within_the_ceiling() {
    let values: Vec<u32> = (0..20u32).map(|i| (i * 7919) % 501).collect();
    let mut field = field_from(5, 4, 500, &values);
    for round in 0..6u32 {
        field.deposit((round as usize) % 5, (round as usize) % 4, 400);
        assert!(field.cells().iter().all(|&v| v <= 500));
        field.diffuse();
        assert!(field.cells().iter().all(|&v| v <= 500));
        field.decay(3, 4);
        assert!(field.cells().iter().all(|&v| v <= 500));
    }
}

#[test]
fn mass_is_the_sum_of_the_cells() {
    let field = field_from(3, 1, u32::MAX, &[u32::MAX, u32::MAX, 5]);
    assert_eq!(field.mass(), 2 * (u32::MAX as u64) + 5);
}
