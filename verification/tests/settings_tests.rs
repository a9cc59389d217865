use blob_sim::geometry::{dist_sq_exec, isqrt, Point};
use blob_sim::settings::Settings;

fn custom(food_decay: (u32, u32, u32)) -> Settings {
    Settings::new(
        (96_000, 96_000),
        60,
        8,
        0,
        5,
        food_decay,
        480_000_000_000_000,
        (100, 50),
        (12_800, 50),
        (100, 50),
    )
    .unwrap()
}

#[test]
fn default_settings_match_configured_world() {
    let s = Settings::default();
    assert_eq!(s.screen_size(), (96_000, 96_000));
    assert_eq!(s.world_size(), (83_200, 83_200));
    assert_eq!(s.fps(), 60);
    assert_eq!(s.start_blobs(), 8);
    assert_eq!(s.food_energy(), 0);
    assert_eq!(s.gen_duration(), 5);
    assert_eq!(s.food_per_gen(), 100);
    assert_eq!(s.food_decay(), (100, 1, 25));
    assert_eq!(s.blob_energy(), 480_000_000_000_000);
    assert_eq!(s.blob_speed(), (100, 50));
    assert_eq!(s.blob_sense(), (12_800, 50));
    assert_eq!(s.blob_size(), (100, 50));
}

#[test]
fn blob_step_crosses_half_world_per_generation() {
    // (83_200 / 2) / 5 seconds / 60 ticks = 138 units per tick.
    let s = Settings::default();
    assert_eq!(s.blob_step(), 138);
}

#[test]
fn decay_food_subtracts_the_decrement() {
    let mut s = custom((100, 1, 25));
    s.decay_food();
    assert_eq!(s.food_per_gen(), 99);
}

#[test]
fn decay_food_saturates_at_the_floor() {
    let mut s = custom((100, 30, 95));
    s.decay_food();
    assert_eq!(s.food_per_gen(), 95);
    s.decay_food();
    assert_eq!(s.food_per_gen(), 95);
}

#[test]
fn decay_food_stops_at_the_floor_step_by_step() {
    let mut s = custom((26, 1, 25));
    s.decay_food();
    assert_eq!(s.food_per_gen(), 25);
    s.decay_food();
    assert_eq!(s.food_per_gen(), 25);
}

#[test]
fn reset_food_restores_the_start_value() {
    let mut s = custom((100, 30, 25));
    s.decay_food();
    s.decay_food();
    assert_eq!(s.food_per_gen(), 40);
    s.reset_food();
    assert_eq!(s.food_per_gen(), 100);
}

#[test]
fn new_rejects_out_of_bounds_configurations() {
    // Screen no larger than the border tiles leaves no world.
    assert!(Settings::new(
        (12_800, 96_000),
        60,
        8,
        0,
        5,
        (100, 1, 25),
        480_000_000_000_000,
        (100, 50),
        (12_800, 50),
        (100, 50),
    )
    .is_none());
    // A tick rate of zero would stall the step distance.
    assert!(Settings::new(
        (96_000, 96_000),
        0,
        8,
        0,
        5,
        (100, 1, 25),
        480_000_000_000_000,
        (100, 50),
        (12_800, 50),
        (100, 50),
    )
    .is_none());
    // A food floor above the start value contradicts the schedule.
    assert!(Settings::new(
        (96_000, 96_000),
        60,
        8,
        0,
        5,
        (100, 1, 200),
        480_000_000_000_000,
        (100, 50),
        (12_800, 50),
        (100, 50),
    )
    .is_none());
}

#[test]
fn isqrt_matches_known_roots() {
    assert_eq!(isqrt(0), 0);
    assert_eq!(isqrt(1), 1);
    assert_eq!(isqrt(2), 1);
    assert_eq!(isqrt(99), 9);
    assert_eq!(isqrt(100), 10);
    assert_eq!(isqrt(2_000_000_000_000), 1_414_213);
    assert_eq!(isqrt(u64::MAX), 4_294_967_295);
}

#[test]
fn dist_sq_is_the_squared_euclidean_distance() {
    let a = Point { x: 0, y: 0 };
    let b = Point { x: 3, y: 4 };
    assert_eq!(dist_sq_exec(a, b), 25);
    assert_eq!(dist_sq_exec(b, a), 25);
    assert_eq!(dist_sq_exec(a, a), 0);
}
