use langton::ant::Ant;
use langton::direction::Direction;
use langton::grid::{Cell, Grid};
use langton::sim::{step_ant, DisplayColor, DrawUpdate, Simulation};

#[test]
fn scenario_two_steps_on_a_four_by_four_torus() {
    // A single ant at index 5 (row 1, col 1) heading Up on an all-Unmarked
    // 4x4 grid: after two steps it stands at index 2 heading Down, and
    // exactly cells 1 and 2 are Marked.
    let ants = vec![Ant::new(5, Direction::Up)];
    let mut sim = Simulation::with_ants(4, 4, ants);
    let updates = sim.advance(2);

    let ant = sim.ant(0);
    assert_eq!(ant.pos, 2);
    assert_eq!(ant.dir, Direction::Down);
    for i in 0..16 {
        let expected = if i == 1 || i == 2 { Cell::Marked } else { Cell::Unmarked };
        assert_eq!(sim.cell(i), expected);
    }

    let expected_updates = vec![
        DrawUpdate { pos: 5, color: DisplayColor::Unmarked },
        DrawUpdate { pos: 1, color: DisplayColor::Marked },
        DrawUpdate { pos: 1, color: DisplayColor::AgentMarker },
        DrawUpdate { pos: 1, color: DisplayColor::Marked },
        DrawUpdate { pos: 2, color: DisplayColor::Marked },
        DrawUpdate { pos: 2, color: DisplayColor::AgentMarker },
    ];
    assert_eq!(updates, expected_updates);
}

#[test]
fn step_ant_translates_inspects_rotates_and_flips() {
    let mut grid = Grid::new(4, 4);
    let mut ant = Ant::new(5, Direction::Up);
    let mut updates: Vec<DrawUpdate> = Vec::new();

    step_ant(&mut grid, &mut ant, &mut updates);
    assert_eq!(ant.pos, 1);
    assert_eq!(ant.dir, Direction::Right);
    assert_eq!(grid.get(1), Cell::Marked);
    assert_eq!(grid.get(5), Cell::Unmarked);

    step_ant(&mut grid, &mut ant, &mut updates);
    assert_eq!(ant.pos, 2);
    assert_eq!(ant.dir, Direction::Down);
    assert_eq!(grid.get(2), Cell::Marked);
}

#[test]
fn marked_cell_turns_the_ant_counter_clockwise() {
    let mut grid = Grid::new(4, 4);
    grid.invert(1);
    assert_eq!(grid.get(1), Cell::Marked);

    let mut ant = Ant::new(5, Direction::Up);
    let mut updates: Vec<DrawUpdate> = Vec::new();
    step_ant(&mut grid, &mut ant, &mut updates);

    // Arrival on a Marked cell: counter-clockwise turn, and the cell flips
    // back to Unmarked.
    assert_eq!(ant.pos, 1);
    assert_eq!(ant.dir, Direction::Left);
    assert_eq!(grid.get(1), Cell::Unmarked);
}

#[test]
fn reset_clears_every_cell_and_replaces_the_ants() {
    let ants = vec![Ant::new(5, Direction::Up), Ant::new(11, Direction::Left)];
    let mut sim = Simulation::with_ants(4, 4, ants);
    sim.advance(7);
    sim.reset();

    assert_eq!(sim.ant_count(), 2);
    for i in 0..16 {
        assert_eq!(sim.cell(i), Cell::Unmarked);
    }
    for i in 0..2 {
        assert!(sim.ant(i).pos < 16);
    }
}

#[test]
fn random_simulation_places_every_ant_on_the_grid() {
    let config = langton::config::SimulationConfig {
        width: 8,
        height: 4,
        ants: 5,
        steps_per_tick: 1,
        tick_rate: 60,
    };
    let mut sim = Simulation::new(&config);
    assert_eq!(sim.width(), 8);
    assert_eq!(sim.height(), 4);
    assert_eq!(sim.area(), 32);
    assert_eq!(sim.ant_count(), 5);
    for i in 0..5 {
        assert!(sim.ant(i).pos < 32);
    }
    for i in 0..32 {
        assert_eq!(sim.cell(i), Cell::Unmarked);
    }
    // One tick flips exactly one cell per ant arrival; the grid can no
    // longer be all-Unmarked afterwards.
    sim.advance(1);
    let marked: usize = (0..32).filter(|&i| sim.cell(i) == Cell::Marked).count();
    assert!(marked >= 1);
}

#[test]
fn two_far_apart_ants_walk_like_two_lone_ants() {
    // The first steps of two distant ants touch disjoint cells, so the
    // shared run must match the two solo runs.
    let a = Ant::new(5, Direction::Up);
    let b = Ant::new(26, Direction::Down);

    let mut shared = Simulation::with_ants(6, 6, vec![a, b]);
    shared.advance(2);

    let mut alone_a = Simulation::with_ants(6, 6, vec![a]);
    alone_a.advance(2);
    let mut alone_b = Simulation::with_ants(6, 6, vec![b]);
    alone_b.advance(2);

    assert_eq!(shared.ant(0), alone_a.ant(0));
    assert_eq!(shared.ant(1), alone_b.ant(0));
}
