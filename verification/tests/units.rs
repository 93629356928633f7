use langton::ant::Ant;
use langton::config::{validate, ConfigError, SimulationConfig};
use langton::direction::Direction;
use langton::grid::{Cell, Grid};
use langton::sim::{cell_origin, tick_rate_down, tick_rate_up};

#[test]
fn four_clockwise_turns_return_to_the_start() {
    for d in [Direction::Up, Direction::Right, Direction::Down, Direction::Left] {
        assert_eq!(d.next().next().next().next(), d);
        assert_eq!(d.prev().prev().prev().prev(), d);
        assert_eq!(d.next().prev(), d);
        assert_eq!(d.prev().next(), d);
    }
}

#[test]
fn rotation_follows_the_fixed_cycle() {
    assert_eq!(Direction::Up.next(), Direction::Right);
    assert_eq!(Direction::Right.next(), Direction::Down);
    assert_eq!(Direction::Down.next(), Direction::Left);
    assert_eq!(Direction::Left.next(), Direction::Up);
    assert_eq!(Direction::Up.prev(), Direction::Left);
}

#[test]
fn inverting_a_cell_twice_restores_it() {
    let mut grid = Grid::new(3, 3);
    grid.invert(4);
    assert_eq!(grid.get(4), Cell::Marked);
    grid.invert(4);
    assert_eq!(grid.get(4), Cell::Unmarked);
    assert_eq!(Cell::Unmarked.flip(), Cell::Marked);
    assert_eq!(Cell::Marked.flip(), Cell::Unmarked);
}

#[test]
fn moves_wrap_on_both_axes() {
    // 4 columns, 3 rows.
    let width: usize = 4;
    let area: usize = 12;

    // Right from the last column of row 1 lands in column 0 of row 1.
    let mut ant = Ant::new(7, Direction::Right);
    ant.step(width, area);
    assert_eq!(ant.pos, 4);

    // Left from column 0 of row 1 lands in the last column of row 1.
    let mut ant = Ant::new(4, Direction::Left);
    ant.step(width, area);
    assert_eq!(ant.pos, 7);

    // Down from the last row lands in row 0 of the same column.
    let mut ant = Ant::new(9, Direction::Down);
    ant.step(width, area);
    assert_eq!(ant.pos, 1);

    // Up from row 0 lands in the last row of the same column.
    let mut ant = Ant::new(2, Direction::Up);
    ant.step(width, area);
    assert_eq!(ant.pos, 10);

    // Interior moves do not wrap.
    let mut ant = Ant::new(5, Direction::Right);
    ant.step(width, area);
    assert_eq!(ant.pos, 6);
    let mut ant = Ant::new(5, Direction::Down);
    ant.step(width, area);
    assert_eq!(ant.pos, 9);
}

#[test]
fn every_move_stays_on_the_torus() {
    let width: usize = 5;
    let area: usize = 20;
    for pos in 0..area {
        for d in [Direction::Up, Direction::Right, Direction::Down, Direction::Left] {
            let mut ant = Ant::new(pos, d);
            ant.step(width, area);
            assert!(ant.pos < area);
            assert_eq!(ant.dir, d);
        }
    }
}

#[test]
fn validation_accepts_the_default_shape() {
    let r = validate(1280, 720, 5, 20, 60, 1);
    assert_eq!(
        r,
        Ok(SimulationConfig { width: 256, height: 144, ants: 20, steps_per_tick: 1, tick_rate: 60 })
    );
}

#[test]
fn validation_names_the_first_failing_option() {
    assert_eq!(validate(0, 720, 5, 20, 60, 1), Err(ConfigError::ZeroScreenWidth));
    assert_eq!(validate(1280, 0, 5, 20, 60, 1), Err(ConfigError::ZeroScreenHeight));
    assert_eq!(validate(1280, 720, 0, 20, 60, 1), Err(ConfigError::ZeroCellSize));
    assert_eq!(validate(1280, 720, 5, 0, 60, 1), Err(ConfigError::ZeroAnts));
    assert_eq!(validate(1280, 720, 5, 20, 0, 1), Err(ConfigError::ZeroTickRate));
    assert_eq!(validate(1280, 720, 5, 20, 60, 0), Err(ConfigError::ZeroStepsPerTick));
    assert_eq!(validate(1283, 720, 5, 20, 60, 1), Err(ConfigError::WidthNotDivisible));
    assert_eq!(validate(1280, 723, 5, 20, 60, 1), Err(ConfigError::HeightNotDivisible));
}

#[test]
fn tick_rate_moves_in_steps_of_five_with_a_floor_of_one() {
    assert_eq!(tick_rate_up(60), 65);
    assert_eq!(tick_rate_down(60), 55);
    assert_eq!(tick_rate_down(6), 1);
    assert_eq!(tick_rate_down(5), 1);
    assert_eq!(tick_rate_down(1), 1);
}

#[test]
fn cell_origin_scales_row_and_column_by_the_cell_size() {
    assert_eq!(cell_origin(0, 4, 5), (0, 0));
    assert_eq!(cell_origin(7, 4, 5), (15, 5));
    assert_eq!(cell_origin(9, 4, 5), (5, 10));
}

#[test]
fn random_ants_land_on_small_tori_too() {
    for _ in 0..32 {
        let ant = Ant::random(1);
        assert_eq!(ant.pos, 0);
        let ant = Ant::random(3);
        assert!(ant.pos < 3);
    }
}
