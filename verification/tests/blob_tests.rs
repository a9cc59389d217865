use blob_sim::blobs::{Blob, BlobState, GenerationResult};
use blob_sim::geometry::Point;
use blob_sim::settings::Settings;

/// A 10-by-10 world where one tick at base speed covers 5 units.
fn tiny_world(food_energy: u64) -> Settings {
    Settings::new(
        (12_810, 12_810),
        1,
        1,
        food_energy,
        1,
        (10, 0, 0),
        1_000_000_000_000,
        (100, 50),
        (10, 50),
        (100, 50),
    )
    .unwrap()
}

fn place(
    s: &Settings,
    state: BlobState,
    food_found: u8,
    energy: u128,
    pos: (u64, u64),
    dest: (u64, u64),
) -> Blob {
    Blob::with_params(
        0,
        s,
        100,
        10,
        100,
        energy,
        state,
        food_found,
        Point { x: pos.0, y: pos.1 },
        Point { x: dest.0, y: dest.1 },
    )
    .unwrap()
}

#[test]
fn partial_move_covers_max_step_and_debits_the_cost() {
    // Agent at (0,0), destination (10,0), max_step 5, plenty of energy:
    // one update moves to (5,0), keeps the state, and debits
    // 5 * speed^2 * size^3 = 5 * 100^2 * 100^3.
    let s = tiny_world(0);
    let mut b = place(&s, BlobState::SearchFood, 0, 10_000_000_000_000, (0, 0), (10, 0));
    let mut food: Vec<Point> = Vec::new();
    b.update(&mut food);
    assert_eq!(b.position(), Point { x: 5, y: 0 });
    assert_eq!(b.destination(), Point { x: 10, y: 0 });
    assert_eq!(b.state(), BlobState::SearchFood);
    assert_eq!(b.energy(), 10_000_000_000_000 - 50_000_000_000);
}

#[test]
fn insufficient_energy_moves_nothing() {
    // The step would cost 5 * 100^2 * 100^3 = 5 * 10^10; the reserve is
    // one unit short, so the blob stays put and keeps its energy.
    let s = tiny_world(0);
    let mut b = place(&s, BlobState::SearchFood, 0, 49_999_999_999, (0, 0), (10, 0));
    let mut food: Vec<Point> = Vec::new();
    b.update(&mut food);
    assert_eq!(b.position(), Point { x: 0, y: 0 });
    assert_eq!(b.energy(), 49_999_999_999);
}

#[test]
fn doubling_size_multiplies_the_move_cost_by_eight() {
    let s = tiny_world(0);
    let start: u128 = 10_000_000_000_000;
    let mut small = Blob::with_params(
        0,
        &s,
        100,
        10,
        100,
        start,
        BlobState::SearchFood,
        0,
        Point { x: 0, y: 0 },
        Point { x: 10, y: 0 },
    )
    .unwrap();
    let mut large = Blob::with_params(
        1,
        &s,
        100,
        10,
        200,
        start,
        BlobState::SearchFood,
        0,
        Point { x: 0, y: 0 },
        Point { x: 10, y: 0 },
    )
    .unwrap();
    let mut food: Vec<Point> = Vec::new();
    small.update(&mut food);
    large.update(&mut food);
    let small_cost = start - small.energy();
    let large_cost = start - large.energy();
    assert_eq!(small_cost, 50_000_000_000);
    assert_eq!(large_cost, 8 * small_cost);
}

#[test]
fn chaser_reaches_food_eats_and_resumes_searching() {
    // Food pool [(1,1)], sense 10, agent at (0,0) in reach: one update
    // arrives at (1,1), empties the pool, counts the meal, and searches.
    let s = tiny_world(100_000_000_000);
    let mut b = place(&s, BlobState::GoToFood, 0, 10_000_000_000_000, (0, 0), (1, 1));
    let mut food = vec![Point { x: 1, y: 1 }];
    b.update(&mut food);
    assert_eq!(b.position(), Point { x: 1, y: 1 });
    assert!(food.is_empty());
    assert_eq!(b.food_found(), 1);
    assert_eq!(b.state(), BlobState::SearchFood);
}

#[test]
fn eating_scales_the_gain_by_size() {
    // Gain is food_energy * size / 100; at size 100 that is the plain
    // configured energy, on top of the move's cost already paid.
    let s = tiny_world(100_000_000_000);
    let start: u128 = 10_000_000_000_000;
    let mut b = place(&s, BlobState::GoToFood, 0, start, (0, 0), (1, 1));
    let mut food = vec![Point { x: 1, y: 1 }];
    b.update(&mut food);
    // Distance floor of sqrt(2) is 1, so the move cost is 1 * 100^2 * 100^3.
    assert_eq!(b.energy(), start - 10_000_000_000 + 100_000_000_000);
}

#[test]
fn chaser_whose_food_vanished_searches_within_the_same_tick() {
    // The destination is absent from the pool: the blob falls back to
    // searching and already moves this tick (toward its kept destination,
    // as nothing is in sense and it is not standing on it).
    let s = tiny_world(0);
    let mut b = place(&s, BlobState::GoToFood, 0, 10_000_000_000_000, (0, 0), (10, 0));
    let mut food: Vec<Point> = Vec::new();
    b.update(&mut food);
    assert_eq!(b.state(), BlobState::SearchFood);
    assert_eq!(b.position(), Point { x: 5, y: 0 });
    assert_eq!(b.food_found(), 0);
}

#[test]
fn two_chasers_one_meal() {
    // Both target (1,1); processed in order, exactly one eats and the
    // pool shrinks by exactly one element.
    let s = tiny_world(0);
    let mut first = place(&s, BlobState::GoToFood, 0, 10_000_000_000_000, (0, 0), (1, 1));
    let mut second = place(&s, BlobState::GoToFood, 0, 10_000_000_000_000, (2, 2), (1, 1));
    let mut food = vec![Point { x: 1, y: 1 }];
    first.update(&mut food);
    second.update(&mut food);
    assert_eq!(food.len(), 0);
    assert_eq!(first.food_found() + second.food_found(), 1);
    assert_eq!(first.food_found(), 1);
    assert_eq!(second.state(), BlobState::SearchFood);
}

#[test]
fn two_meals_send_the_blob_home() {
    // Second meal found: the early-return-home rule fires in the same
    // tick and targets the nearest edge.
    let s = tiny_world(0);
    let mut b = place(&s, BlobState::GoToFood, 1, 10_000_000_000_000, (0, 3), (1, 3));
    let mut food = vec![Point { x: 1, y: 3 }];
    b.update(&mut food);
    assert_eq!(b.food_found(), 2);
    assert_eq!(b.state(), BlobState::GoHome);
    // From (1,3): x is 1 from its low edge, y is 3 from its low edge, so
    // home is the x edge at 0.
    assert_eq!(b.destination(), Point { x: 0, y: 3 });
}

#[test]
fn low_energy_after_one_meal_sends_the_blob_home() {
    // With one meal found and the reserve below three times the food
    // energy, the blob heads home. The reserve is also below any one
    // step's cost, so the position is pinned.
    let s = tiny_world(100_000_000_000);
    let mut b = place(&s, BlobState::SearchFood, 1, 5_000_000_000, (4, 9), (4, 9));
    let mut food: Vec<Point> = Vec::new();
    b.update(&mut food);
    assert_eq!(b.state(), BlobState::GoHome);
    // From (4,9): x is 4 away from its edge at 0, y is 1 away from its
    // edge at 10, so home is the y edge at 10.
    assert_eq!(b.destination().x, 4);
    assert_eq!(b.destination().y, 10);
}

#[test]
fn blob_at_home_waits() {
    let s = tiny_world(0);
    let mut b = place(&s, BlobState::AtHome, 2, 10_000_000_000_000, (0, 3), (0, 3));
    let mut food = vec![Point { x: 1, y: 3 }];
    b.update(&mut food);
    assert_eq!(b.state(), BlobState::AtHome);
    assert_eq!(b.position(), Point { x: 0, y: 3 });
    assert_eq!(b.energy(), 10_000_000_000_000);
    assert_eq!(food.len(), 1);
}

#[test]
fn walker_heading_home_settles_on_arrival() {
    let s = tiny_world(0);
    let mut b = place(&s, BlobState::GoHome, 2, 10_000_000_000_000, (0, 3), (0, 0));
    let mut food: Vec<Point> = Vec::new();
    b.update(&mut food);
    assert_eq!(b.position(), Point { x: 0, y: 0 });
    assert_eq!(b.state(), BlobState::AtHome);
}

#[test]
fn generation_outcomes_follow_state_and_meals() {
    let s = tiny_world(0);
    let mut starved = place(&s, BlobState::AtHome, 0, 1_000, (0, 0), (0, 0));
    let mut alive = place(&s, BlobState::AtHome, 1, 1_000, (0, 0), (0, 0));
    let mut parent = place(&s, BlobState::AtHome, 2, 1_000, (0, 0), (0, 0));
    let mut stranded = place(&s, BlobState::GoHome, 2, 1_000, (5, 5), (0, 5));
    assert_eq!(starved.next_gen(), GenerationResult::Starve);
    assert_eq!(alive.next_gen(), GenerationResult::Live);
    assert_eq!(parent.next_gen(), GenerationResult::Reproduce);
    assert_eq!(stranded.next_gen(), GenerationResult::Starve);
}

#[test]
fn next_gen_resets_the_blob() {
    let s = tiny_world(0);
    let mut b = place(&s, BlobState::AtHome, 2, 1_000, (0, 0), (0, 0));
    b.next_gen();
    assert_eq!(b.state(), BlobState::SearchFood);
    assert_eq!(b.food_found(), 0);
    // Base energy scaled by size: 10^12 * 100 / 100.
    assert_eq!(b.energy(), 1_000_000_000_000);
    assert_eq!(b.speed(), 100);
    assert_eq!(b.sense(), 10);
    assert_eq!(b.size(), 100);
    let (w, h) = s.world_size();
    assert!(b.position().x <= w && b.position().y <= h);
    assert!(b.destination().x <= w && b.destination().y <= h);
}

#[test]
fn evolve_with_mutates_only_the_picked_stat() {
    let s = tiny_world(0);
    let parent = place(&s, BlobState::AtHome, 2, 1_000, (0, 0), (0, 0));

    // Modifier 0 with the maximal draw of a range of 50: factor 125/100.
    let child = Blob::evolve_with(&parent, 7, 0, 50);
    assert_eq!(child.speed(), 125);
    assert_eq!(child.sense(), parent.sense());
    assert_eq!(child.size(), parent.size());
    assert_eq!(child.id(), 7);
    assert_eq!(child.state(), BlobState::SearchFood);
    assert_eq!(child.food_found(), 0);

    // Modifier 1 with draw 0: factor 75/100 shrinks the sense radius.
    let child = Blob::evolve_with(&parent, 8, 1, 0);
    assert_eq!(child.speed(), parent.speed());
    assert_eq!(child.sense(), 7);
    assert_eq!(child.size(), parent.size());

    // Modifier 2 with the centered draw of 25: the size is unchanged.
    let child = Blob::evolve_with(&parent, 9, 2, 25);
    assert_eq!(child.speed(), parent.speed());
    assert_eq!(child.sense(), parent.sense());
    assert_eq!(child.size(), 100);
    // The child's energy is the base scaled by its own size.
    assert_eq!(child.energy(), 1_000_000_000_000);
}

#[test]
fn evolve_keeps_two_stats_of_the_parent() {
    let s = tiny_world(0);
    let parent = place(&s, BlobState::AtHome, 2, 1_000, (0, 0), (0, 0));
    let child = Blob::evolve(&parent, 42);
    assert_eq!(child.id(), 42);
    let kept = [
        child.speed() == parent.speed(),
        child.sense() == parent.sense(),
        child.size() == parent.size(),
    ]
    .iter()
    .filter(|k| **k)
    .count();
    assert!(kept >= 2);
    assert_eq!(child.state(), BlobState::SearchFood);
    assert_eq!(child.food_found(), 0);
}

#[test]
fn mutation_is_capped_at_the_stat_maximum() {
    // A parent already at the speed cap of 100_000 cannot exceed it.
    let s = tiny_world(0);
    let parent = Blob::with_params(
        0,
        &s,
        100_000,
        10,
        100,
        1_000,
        BlobState::AtHome,
        2,
        Point { x: 0, y: 0 },
        Point { x: 0, y: 0 },
    )
    .unwrap();
    let child = Blob::evolve_with(&parent, 1, 0, 50);
    assert_eq!(child.speed(), 100_000);
}

#[test]
fn home_tie_prefers_the_y_axis() {
    // At (3,3) both edges are 3 away; the tie goes to the y axis, as a
    // strictly smaller x distance is required to pick x. The reserve is
    // below any step's cost, so the position is pinned.
    let s = tiny_world(100_000_000_000);
    let mut b = place(&s, BlobState::SearchFood, 1, 5_000_000_000, (3, 3), (3, 3));
    let mut food: Vec<Point> = Vec::new();
    b.update(&mut food);
    assert_eq!(b.state(), BlobState::GoHome);
    assert_eq!(b.destination(), Point { x: 3, y: 0 });
}

#[test]
fn new_blob_starts_inside_the_world_with_base_stats() {
    let s = Settings::default();
    let b = Blob::new(3, &s);
    let (w, h) = s.world_size();
    assert!(b.position().x <= w && b.position().y <= h);
    assert!(b.destination().x <= w && b.destination().y <= h);
    assert_eq!(b.id(), 3);
    assert_eq!(b.energy(), 480_000_000_000_000);
    assert_eq!(b.speed(), 100);
    assert_eq!(b.sense(), 12_800);
    assert_eq!(b.size(), 100);
    assert_eq!(b.state(), BlobState::SearchFood);
    assert_eq!(b.food_found(), 0);
}

#[test]
fn with_params_rejects_ill_formed_blobs() {
    let s = tiny_world(0);
    // Position outside the 10-by-10 world.
    assert!(Blob::with_params(
        0,
        &s,
        100,
        10,
        100,
        1_000,
        BlobState::SearchFood,
        0,
        Point { x: 11, y: 0 },
        Point { x: 0, y: 0 },
    )
    .is_none());
    // Two meals found while still searching.
    assert!(Blob::with_params(
        0,
        &s,
        100,
        10,
        100,
        1_000,
        BlobState::SearchFood,
        2,
        Point { x: 0, y: 0 },
        Point { x: 0, y: 0 },
    )
    .is_none());
}

#[test]
fn search_picks_the_nearest_sensed_food() {
    // Two points in sense, both beyond this tick's reach; the blob
    // targets the closer one and starts chasing it.
    let s = tiny_world(0);
    let mut b = place(&s, BlobState::SearchFood, 0, 10_000_000_000_000, (0, 0), (9, 9));
    let mut food = vec![Point { x: 9, y: 0 }, Point { x: 7, y: 0 }];
    b.update(&mut food);
    assert_eq!(b.state(), BlobState::GoToFood);
    assert_eq!(b.destination(), Point { x: 7, y: 0 });
    assert_eq!(b.position(), Point { x: 5, y: 0 });
    assert_eq!(food.len(), 2);
    assert_eq!(b.food_found(), 0);
}

#[test]
fn search_reaches_and_eats_within_one_tick() {
    // Food pool [(1,1)], sense radius 10, agent searching at (0,0) with
    // the step covering the distance and plenty of energy: a single
    // update ends on the food with the pool empty, one meal counted, and
    // the blob searching again.
    let s = tiny_world(100_000_000_000);
    let start: u128 = 10_000_000_000_000;
    let mut b = place(&s, BlobState::SearchFood, 0, start, (0, 0), (9, 9));
    let mut food = vec![Point { x: 1, y: 1 }];
    b.update(&mut food);
    assert_eq!(b.position(), Point { x: 1, y: 1 });
    assert!(food.is_empty());
    assert_eq!(b.food_found(), 1);
    assert_eq!(b.state(), BlobState::SearchFood);
    // The move cost one unit's worth, the meal paid the configured energy.
    assert_eq!(b.energy(), start - 10_000_000_000 + 100_000_000_000);
}

#[test]
fn food_out_of_sense_is_ignored() {
    // Sense radius 10 in a world of 10: use a blob with sense 2 instead.
    let s = tiny_world(0);
    let mut b = Blob::with_params(
        0,
        &s,
        100,
        2,
        100,
        10_000_000_000_000,
        BlobState::SearchFood,
        0,
        Point { x: 0, y: 0 },
        Point { x: 10, y: 0 },
    )
    .unwrap();
    let mut food = vec![Point { x: 8, y: 0 }];
    b.update(&mut food);
    assert_eq!(b.state(), BlobState::SearchFood);
    assert_eq!(b.destination(), Point { x: 10, y: 0 });
}
