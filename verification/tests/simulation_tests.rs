use blob_sim::blobs::{Blob, BlobState};
use blob_sim::geometry::Point;
use blob_sim::settings::Settings;
use blob_sim::{Simulation, SimulationState};

/// One-tick generations in a 10-by-10 world, ten food points per
/// generation decaying by two down to a floor of five.
fn fast_world() -> Settings {
    Settings::new(
        (12_810, 12_810),
        1,
        3,
        0,
        1,
        (10, 2, 5),
        1_000_000_000_000,
        (100, 50),
        (10, 50),
        (100, 50),
    )
    .unwrap()
}

#[test]
fn new_simulation_is_stopped_and_empty() {
    let sim = Simulation::new();
    assert!(matches!(sim.state(), SimulationState::Stopped));
    assert_eq!(sim.blobs().len(), 0);
    assert_eq!(sim.food().len(), 0);
    assert_eq!(sim.generation_frames, 0);
}

#[test]
fn toggle_flips_between_running_and_stopped() {
    let mut sim = Simulation::new();
    sim.toggle();
    assert!(matches!(sim.state(), SimulationState::Running));
    sim.toggle();
    assert!(matches!(sim.state(), SimulationState::Stopped));
}

#[test]
fn reset_with_population_spawns_the_configured_blobs_and_food() {
    let mut sim = Simulation::new();
    sim.reset(true);
    assert_eq!(sim.blobs().len(), 8);
    assert_eq!(sim.food().len(), 100);
    // The schedule returns to its start value on a full restart.
    assert_eq!(sim.settings().food_per_gen(), 100);
    let (w, h) = sim.settings().world_size();
    for p in sim.food().iter() {
        assert!(p.x <= w && p.y <= h);
    }
    for b in sim.blobs().iter() {
        assert!(b.position().x <= w && b.position().y <= h);
        assert_eq!(b.state(), BlobState::SearchFood);
        assert_eq!(b.food_found(), 0);
    }
}

#[test]
fn reset_without_population_keeps_blobs_and_decays_food() {
    let mut sim = Simulation {
        state: SimulationState::Stopped,
        blobs: Vec::new(),
        food: Vec::new(),
        generation_frames: 0,
        next_id: 0,
        settings: fast_world(),
    };
    sim.reset(false);
    assert_eq!(sim.blobs().len(), 0);
    assert_eq!(sim.food().len(), 10);
    assert_eq!(sim.settings().food_per_gen(), 8);
    sim.reset(false);
    assert_eq!(sim.food().len(), 8);
    assert_eq!(sim.settings().food_per_gen(), 6);
}

#[test]
fn ticks_do_nothing_while_stopped() {
    let mut sim = Simulation::new();
    sim.reset(true);
    let frames = sim.generation_frames;
    let food_before = sim.food().len();
    sim.tick();
    assert_eq!(sim.generation_frames, frames);
    assert_eq!(sim.food().len(), food_before);
    assert_eq!(sim.blobs().len(), 8);
}

#[test]
fn running_ticks_count_frames_and_keep_the_population() {
    let mut sim = Simulation::new();
    sim.reset(true);
    sim.toggle();
    sim.tick();
    assert_eq!(sim.generation_frames, 1);
    assert_eq!(sim.blobs().len(), 8);
    sim.tick();
    assert_eq!(sim.generation_frames, 2);
    assert_eq!(sim.blobs().len(), 8);
}

#[test]
fn generation_boundary_applies_outcomes_in_order() {
    let s = fast_world();
    let reproduces = Blob::with_params(
        0,
        &s,
        100,
        10,
        100,
        1_000,
        BlobState::AtHome,
        2,
        Point { x: 0, y: 0 },
        Point { x: 0, y: 0 },
    )
    .unwrap();
    let lives = Blob::with_params(
        1,
        &s,
        100,
        10,
        100,
        1_000,
        BlobState::AtHome,
        1,
        Point { x: 0, y: 0 },
        Point { x: 0, y: 0 },
    )
    .unwrap();
    let starves = Blob::with_params(
        2,
        &s,
        100,
        10,
        100,
        1_000,
        BlobState::SearchFood,
        0,
        Point { x: 5, y: 5 },
        Point { x: 0, y: 5 },
    )
    .unwrap();
    let mut sim = Simulation {
        state: SimulationState::Running,
        blobs: vec![reproduces, lives, starves],
        food: Vec::new(),
        generation_frames: 1,
        next_id: 10,
        settings: s,
    };
    // One generation lasts one tick; the counter already stands at it.
    sim.tick();
    // Two survivors in population order, then the one child.
    assert_eq!(sim.blobs().len(), 3);
    assert_eq!(sim.blobs()[0].id(), 0);
    assert_eq!(sim.blobs()[1].id(), 1);
    assert_eq!(sim.blobs()[2].id(), 10);
    for b in sim.blobs().iter() {
        assert_eq!(b.state(), BlobState::SearchFood);
        assert_eq!(b.food_found(), 0);
    }
    // The pool was refilled with the pre-decay count and the counter reset.
    assert_eq!(sim.food().len(), 10);
    assert_eq!(sim.settings().food_per_gen(), 8);
    assert_eq!(sim.generation_frames, 0);
}

#[test]
fn a_population_that_never_gets_home_dies_out() {
    let mut sim = Simulation {
        state: SimulationState::Running,
        blobs: Vec::new(),
        food: Vec::new(),
        generation_frames: 0,
        next_id: 0,
        settings: fast_world(),
    };
    sim.reset(true);
    sim.tick();
    assert_eq!(sim.blobs().len(), 3);
    sim.tick();
    // The boundary tick: nobody was at home, so everyone starves.
    assert_eq!(sim.blobs().len(), 0);
    assert_eq!(sim.generation_frames, 0);
}
