//! Per-generation simulation configuration: world dimensions, tick rate,
//! generation length, the food economy, and the base value and mutation
//! range of each blob stat.

use vstd::prelude::*;

verus! {

use vstd::arithmetic::div_mod::lemma_div_nonincreasing;

use crate::{COORD_MAX, SENSE_MAX, TILE_SIZE, TRAIT_MAX};

/// Upper bound on the per-generation food count and its decay parameters.
pub const FOOD_MAX: u32 = 1_000_000;

/// Upper bound on the tick rate.
pub const FPS_MAX: u32 = 1_000;

/// Upper bound on the generation duration, in seconds.
pub const GEN_DURATION_MAX: u32 = 10_000;

/// Upper bound on a blob's configured base energy.
pub const BLOB_ENERGY_MAX: u64 = 500_000_000_000_000;

/// Upper bound on the energy value of one food point.
pub const FOOD_ENERGY_MAX: u64 = 250_000_000_000_000;

/// Upper bound on a stat's mutation range (a spread of two, around one).
pub const MUTATION_RANGE_MAX: u64 = 200;

/// Simulation configuration. Stats come as `(base value, mutation range)`
/// pairs; the mutation range is in hundredths, so a range of `50` perturbs
/// a child's stat by up to a quarter of the parent's value either way.
#[derive(Clone, Copy, Debug)]
pub struct Settings {
    // Simulation
    pub sim_screen: (u64, u64),
    pub sim_fps: u32,
    pub sim_start_blobs: u32,
    pub sim_food_energy: u64,
    // Generation
    pub gen_duration: u32,
    pub gen_food: u32,
    pub gen_food_decay: (u32, u32, u32),
    // Blob
    pub blob_energy: u64,
    pub blob_speed: (u64, u64),
    pub blob_sense: (u64, u64),
    pub blob_size: (u64, u64),
}

impl Settings {
    /// Bounds that keep every derived quantity within machine range: the
    /// world fits in `COORD_MAX`, stats fit their caps, the food count
    /// never sits below its floor, and energies are small enough that a
    /// full reserve plus two meals stays below `ENERGY_CAP`.
    pub open spec fn wf(self) -> bool {
        &&& 2 * TILE_SIZE < self.sim_screen.0 <= 2 * TILE_SIZE + COORD_MAX
        &&& 2 * TILE_SIZE < self.sim_screen.1 <= 2 * TILE_SIZE + COORD_MAX
        &&& 1 <= self.sim_fps <= FPS_MAX
        &&& self.sim_food_energy <= FOOD_ENERGY_MAX
        &&& 1 <= self.gen_duration <= GEN_DURATION_MAX
        &&& self.gen_food_decay.2 <= self.gen_food <= FOOD_MAX
        &&& self.gen_food_decay.2 <= self.gen_food_decay.0 <= FOOD_MAX
        &&& self.gen_food_decay.1 <= FOOD_MAX
        &&& self.blob_energy <= BLOB_ENERGY_MAX
        &&& self.blob_speed.0 <= TRAIT_MAX && self.blob_speed.1 <= MUTATION_RANGE_MAX
        &&& self.blob_sense.0 <= SENSE_MAX && self.blob_sense.1 <= MUTATION_RANGE_MAX
        &&& self.blob_size.0 <= TRAIT_MAX && self.blob_size.1 <= MUTATION_RANGE_MAX
    }

    pub open spec fn spec_screen_size(&self) -> (u64, u64) {
        self.sim_screen
    }

    /// Screen dimensions, in world units.
    #[verifier::when_used_as_spec(spec_screen_size)]
    pub fn screen_size(&self) -> (r: (u64, u64))
        ensures
            r == self.spec_screen_size(),
    {
        self.sim_screen
    }

    pub open spec fn spec_world_size(&self) -> (u64, u64) {
        (
            (self.sim_screen.0 - 2 * TILE_SIZE) as u64,
            (self.sim_screen.1 - 2 * TILE_SIZE) as u64,
        )
    }

    /// World dimensions: the screen minus one border tile on each side.
    #[verifier::when_used_as_spec(spec_world_size)]
    pub fn world_size(&self) -> (r: (u64, u64))
        requires
            self.wf(),
        ensures
            r == self.spec_world_size(),
            1 <= r.0 <= COORD_MAX,
            1 <= r.1 <= COORD_MAX,
    {
        (self.sim_screen.0 - 2 * TILE_SIZE, self.sim_screen.1 - 2 * TILE_SIZE)
    }

    pub open spec fn spec_fps(&self) -> u32 {
        self.sim_fps
    }

    /// Logical updates per second.
    #[verifier::when_used_as_spec(spec_fps)]
    pub fn fps(&self) -> (r: u32)
        ensures
            r == self.spec_fps(),
    {
        self.sim_fps
    }

    pub open spec fn spec_start_blobs(&self) -> u32 {
        self.sim_start_blobs
    }

    /// Population size after a full restart.
    #[verifier::when_used_as_spec(spec_start_blobs)]
    pub fn start_blobs(&self) -> (r: u32)
        ensures
            r == self.spec_start_blobs(),
    {
        self.sim_start_blobs
    }

    pub open spec fn spec_food_energy(&self) -> u64 {
        self.sim_food_energy
    }

    /// Energy value of one food point, before size scaling.
    #[verifier::when_used_as_spec(spec_food_energy)]
    pub fn food_energy(&self) -> (r: u64)
        ensures
            r == self.spec_food_energy(),
    {
        self.sim_food_energy
    }

    pub open spec fn spec_gen_duration(&self) -> u32 {
        self.gen_duration
    }

    /// Length of one generation, in seconds.
    #[verifier::when_used_as_spec(spec_gen_duration)]
    pub fn gen_duration(&self) -> (r: u32)
        ensures
            r == self.spec_gen_duration(),
    {
        self.gen_duration
    }

    pub open spec fn spec_food_per_gen(&self) -> u32 {
        self.gen_food
    }

    /// Food points placed at the start of the current generation.
    #[verifier::when_used_as_spec(spec_food_per_gen)]
    pub fn food_per_gen(&self) -> (r: u32)
        ensures
            r == self.spec_food_per_gen(),
    {
        self.gen_food
    }

    pub open spec fn spec_food_decay(&self) -> (u32, u32, u32) {
        self.gen_food_decay
    }

    /// The food schedule: `(start value, decrement, floor)`.
    #[verifier::when_used_as_spec(spec_food_decay)]
    pub fn food_decay(&self) -> (r: (u32, u32, u32))
        ensures
            r == self.spec_food_decay(),
    {
        self.gen_food_decay
    }

    /// The food count after one decay step: one decrement down, saturating
    /// at the configured floor.
    pub open spec fn spec_decayed_food(self) -> u32 {
        if self.gen_food > self.gen_food_decay.2 {
            if self.gen_food >= self.gen_food_decay.2 + self.gen_food_decay.1 {
                (self.gen_food - self.gen_food_decay.1) as u32
            } else {
                self.gen_food_decay.2
            }
        } else {
            self.gen_food
        }
    }

    /// Lower the per-generation food count by the configured decrement,
    /// never dropping below the configured floor.
    pub fn decay_food(&mut self)
        requires
            old(self).wf(),
        ensures
            *final(self) == (Settings { gen_food: old(self).spec_decayed_food(), ..*old(self) }),
            final(self).wf(),
    {
        if self.gen_food > self.gen_food_decay.2 {
            if self.gen_food >= self.gen_food_decay.2 + self.gen_food_decay.1 {
                self.gen_food = self.gen_food - self.gen_food_decay.1;
            } else {
                self.gen_food = self.gen_food_decay.2;
            }
        }
    }

    /// Restore the per-generation food count to its start value.
    pub fn reset_food(&mut self)
        requires
            old(self).wf(),
        ensures
            *final(self) == (Settings { gen_food: old(self).gen_food_decay.0, ..*old(self) }),
            final(self).wf(),
    {
        self.gen_food = self.gen_food_decay.0;
    }

    pub open spec fn spec_blob_energy(&self) -> u64 {
        self.blob_energy
    }

    /// Base energy of a fresh blob, before size scaling.
    #[verifier::when_used_as_spec(spec_blob_energy)]
    pub fn blob_energy(&self) -> (r: u64)
        ensures
            r == self.spec_blob_energy(),
    {
        self.blob_energy
    }

    pub open spec fn spec_blob_speed(&self) -> (u64, u64) {
        self.blob_speed
    }

    /// Base speed stat and its mutation range.
    #[verifier::when_used_as_spec(spec_blob_speed)]
    pub fn blob_speed(&self) -> (r: (u64, u64))
        ensures
            r == self.spec_blob_speed(),
    {
        self.blob_speed
    }

    pub open spec fn spec_blob_sense(&self) -> (u64, u64) {
        self.blob_sense
    }

    /// Base sense radius and its mutation range.
    #[verifier::when_used_as_spec(spec_blob_sense)]
    pub fn blob_sense(&self) -> (r: (u64, u64))
        ensures
            r == self.spec_blob_sense(),
    {
        self.blob_sense
    }

    pub open spec fn spec_blob_size(&self) -> (u64, u64) {
        self.blob_size
    }

    /// Base size stat and its mutation range.
    #[verifier::when_used_as_spec(spec_blob_size)]
    pub fn blob_size(&self) -> (r: (u64, u64))
        ensures
            r == self.spec_blob_size(),
    {
        self.blob_size
    }

    /// Distance covered per tick at base speed: half the world width over
    /// one generation's worth of ticks.
    pub open spec fn spec_blob_step(&self) -> u64 {
        (((self.spec_world_size().0 / 2) as int / self.gen_duration as int)
            / self.sim_fps as int) as u64
    }

    #[verifier::when_used_as_spec(spec_blob_step)]
    pub fn blob_step(&self) -> (r: u64)
        requires
            self.wf(),
        ensures
            r == self.spec_blob_step(),
            r <= COORD_MAX / 2,
    {
        let (w, _h) = self.world_size();
        let per_gen = (w / 2) / (self.gen_duration as u64);
        proof {
            lemma_div_nonincreasing((w / 2) as int, self.gen_duration as int);
            lemma_div_nonincreasing(per_gen as int, self.sim_fps as int);
        }
        per_gen / (self.sim_fps as u64)
    }

    /// Decide well-formedness at run time.
    pub fn is_wf(&self) -> (r: bool)
        ensures
            r == self.wf(),
    {
        2 * TILE_SIZE < self.sim_screen.0 && self.sim_screen.0 <= 2 * TILE_SIZE + COORD_MAX
            && 2 * TILE_SIZE < self.sim_screen.1 && self.sim_screen.1 <= 2 * TILE_SIZE + COORD_MAX
            && 1 <= self.sim_fps && self.sim_fps <= FPS_MAX
            && self.sim_food_energy <= FOOD_ENERGY_MAX
            && 1 <= self.gen_duration && self.gen_duration <= GEN_DURATION_MAX
            && self.gen_food_decay.2 <= self.gen_food && self.gen_food <= FOOD_MAX
            && self.gen_food_decay.2 <= self.gen_food_decay.0 && self.gen_food_decay.0 <= FOOD_MAX
            && self.gen_food_decay.1 <= FOOD_MAX
            && self.blob_energy <= BLOB_ENERGY_MAX
            && self.blob_speed.0 <= TRAIT_MAX && self.blob_speed.1 <= MUTATION_RANGE_MAX
            && self.blob_sense.0 <= SENSE_MAX && self.blob_sense.1 <= MUTATION_RANGE_MAX
            && self.blob_size.0 <= TRAIT_MAX && self.blob_size.1 <= MUTATION_RANGE_MAX
    }

    /// Whether the given configuration satisfies every bound of `wf`.
    pub open spec fn params_ok(
        screen: (u64, u64),
        fps: u32,
        start_blobs: u32,
        food_energy: u64,
        gen_duration: u32,
        food_decay: (u32, u32, u32),
        blob_energy: u64,
        blob_speed: (u64, u64),
        blob_sense: (u64, u64),
        blob_size: (u64, u64),
    ) -> bool {
        &&& 2 * TILE_SIZE < screen.0 <= 2 * TILE_SIZE + COORD_MAX
        &&& 2 * TILE_SIZE < screen.1 <= 2 * TILE_SIZE + COORD_MAX
        &&& 1 <= fps <= FPS_MAX
        &&& food_energy <= FOOD_ENERGY_MAX
        &&& 1 <= gen_duration <= GEN_DURATION_MAX
        &&& food_decay.2 <= food_decay.0 <= FOOD_MAX
        &&& food_decay.1 <= FOOD_MAX
        &&& blob_energy <= BLOB_ENERGY_MAX
        &&& blob_speed.0 <= TRAIT_MAX && blob_speed.1 <= MUTATION_RANGE_MAX
        &&& blob_sense.0 <= SENSE_MAX && blob_sense.1 <= MUTATION_RANGE_MAX
        &&& blob_size.0 <= TRAIT_MAX && blob_size.1 <= MUTATION_RANGE_MAX
    }

    /// Validated construction: succeeds exactly when the configuration is
    /// within bounds; the current food count starts at the schedule's
    /// start value.
    pub fn new(
        screen: (u64, u64),
        fps: u32,
        start_blobs: u32,
        food_energy: u64,
        gen_duration: u32,
        food_decay: (u32, u32, u32),
        blob_energy: u64,
        blob_speed: (u64, u64),
        blob_sense: (u64, u64),
        blob_size: (u64, u64),
    ) -> (r: Option<Settings>)
        ensures
            r is Some <==> Self::params_ok(
                screen,
                fps,
                start_blobs,
                food_energy,
                gen_duration,
                food_decay,
                blob_energy,
                blob_speed,
                blob_sense,
                blob_size,
            ),
            r matches Some(s) ==> s == (Settings {
                sim_screen: screen,
                sim_fps: fps,
                sim_start_blobs: start_blobs,
                sim_food_energy: food_energy,
                gen_duration,
                gen_food: food_decay.0,
                gen_food_decay: food_decay,
                blob_energy,
                blob_speed,
                blob_sense,
                blob_size,
            }) && s.wf(),
    {
        let ok = 2 * TILE_SIZE < screen.0 && screen.0 <= 2 * TILE_SIZE + COORD_MAX
            && 2 * TILE_SIZE < screen.1 && screen.1 <= 2 * TILE_SIZE + COORD_MAX
            && 1 <= fps && fps <= FPS_MAX
            && food_energy <= FOOD_ENERGY_MAX
            && 1 <= gen_duration && gen_duration <= GEN_DURATION_MAX
            && food_decay.2 <= food_decay.0 && food_decay.0 <= FOOD_MAX
            && food_decay.1 <= FOOD_MAX
            && blob_energy <= BLOB_ENERGY_MAX
            && blob_speed.0 <= TRAIT_MAX && blob_speed.1 <= MUTATION_RANGE_MAX
            && blob_sense.0 <= SENSE_MAX && blob_sense.1 <= MUTATION_RANGE_MAX
            && blob_size.0 <= TRAIT_MAX && blob_size.1 <= MUTATION_RANGE_MAX;
        if ok {
            Some(
                Settings {
                    sim_screen: screen,
                    sim_fps: fps,
                    sim_start_blobs: start_blobs,
                    sim_food_energy: food_energy,
                    gen_duration,
                    gen_food: food_decay.0,
                    gen_food_decay: food_decay,
                    blob_energy,
                    blob_speed,
                    blob_sense,
                    blob_size,
                },
            )
        } else {
            None
        }
    }

    /// The default configuration as a value.
    pub open spec fn spec_default() -> Settings {
        Settings {
            sim_screen: (96_000, 96_000),
            sim_fps: 60,
            sim_start_blobs: 8,
            sim_food_energy: 0,
            gen_duration: 5,
            gen_food: 100,
            gen_food_decay: (100, 1, 25),
            blob_energy: (48_000 * crate::ENERGY_UNIT) as u64,
            blob_speed: (100, 50),
            blob_sense: (12_800, 50),
            blob_size: (100, 50),
        }
    }
}

/// Two configurations that agree on everything but the current food
/// count, which is the one field the generation boundary rewrites.
pub open spec fn same_except_food(a: Settings, b: Settings) -> bool {
    &&& a.sim_screen == b.sim_screen
    &&& a.sim_fps == b.sim_fps
    &&& a.sim_start_blobs == b.sim_start_blobs
    &&& a.sim_food_energy == b.sim_food_energy
    &&& a.gen_duration == b.gen_duration
    &&& a.gen_food_decay == b.gen_food_decay
    &&& a.blob_energy == b.blob_energy
    &&& a.blob_speed == b.blob_speed
    &&& a.blob_sense == b.blob_sense
    &&& a.blob_size == b.blob_size
}

impl Default for Settings {
    /// A square world of 960 screen pixels per side, 60 ticks per second,
    /// 5-second generations, 8 starting blobs, and base stats of one.
    fn default() -> (s: Settings)
        ensures
            s == Settings::spec_default(),
            s.wf(),
    {
        Settings {
            sim_screen: (96_000, 96_000),
            sim_fps: 60,
            sim_start_blobs: 8,
            sim_food_energy: 0,
            gen_duration: 5,
            gen_food: 100,
            gen_food_decay: (100, 1, 25),
            blob_energy: 48_000 * crate::ENERGY_UNIT,
            blob_speed: (100, 50),
            blob_sense: (12_800, 50),
            blob_size: (100, 50),
        }
    }
}

} // verus!
