//! An agent-based foraging ecosystem: a population of blobs spends energy to
//! move across a bounded world, searches for food, returns home, and
//! reproduces or starves at generation boundaries.
//!
//! All quantities are integers. Positions are measured in world units
//! (one hundredth of a screen pixel). The speed and size stats are
//! multipliers in hundredths (`SCALE` equals a factor of one); the sense
//! stat is a radius in world units. Energy is measured in raw cost units:
//! moving one world unit at base speed and size costs `ENERGY_UNIT`.

use vstd::prelude::*;

pub mod blobs;
pub mod geometry;
mod rng;
pub mod settings;

verus! {

/// Edge length of one border tile, in world units.
pub const TILE_SIZE: u64 = 6_400;

/// Stat scale: a speed or size stat of `SCALE` is a multiplier of one.
pub const SCALE: u64 = 100;

/// Energy cost of moving one world unit at base speed and size; equals
/// the fifth power of `SCALE`, matching the cost formula
/// `distance * speed^2 * size^3` over scaled stats.
pub const ENERGY_UNIT: u64 = 10_000_000_000;

/// Upper bound on world dimensions, in world units.
pub const COORD_MAX: u64 = 1_000_000;

/// Upper bound on the speed and size stats (a factor of one thousand).
pub const TRAIT_MAX: u64 = 100_000;

/// Upper bound on the sense radius, in world units.
pub const SENSE_MAX: u64 = 10_000_000;

/// Upper bound on a blob's energy. Well-formed settings keep every energy
/// gain small enough that eating twice from a full reserve stays below it.
pub const ENERGY_CAP: u128 = 1_000_000_000_000_000_000;

use crate::blobs::{
    all_in_world, evolve_stats_ok, generation_outcome, reset_energy, update_rel, Blob,
    BlobState, GenerationResult,
};
use crate::geometry::Point;
use crate::settings::{same_except_food, Settings};

/// Whether the simulation is ticking.
#[derive(Clone, Copy, Debug, PartialEq, Eq, Structural)]
pub enum SimulationState {
    Stopped,
    Running,
}

/// Survivors of a generation: the blobs whose outcome is not starvation.
pub open spec fn count_survivors(s: Seq<Blob>) -> int
    decreases s.len(),
{
    if s.len() == 0 {
        0
    } else {
        count_survivors(s.drop_last()) + if generation_outcome(s.last())
            != GenerationResult::Starve {
            1int
        } else {
            0int
        }
    }
}

/// Blobs of a generation whose outcome is reproduction.
pub open spec fn count_reproducing(s: Seq<Blob>) -> int
    decreases s.len(),
{
    if s.len() == 0 {
        0
    } else {
        count_reproducing(s.drop_last()) + if generation_outcome(s.last())
            == GenerationResult::Reproduce {
            1int
        } else {
            0int
        }
    }
}

/// The identity and stats `(id, speed, sense, size)` of each blob that
/// survives the generation boundary, in population order.
pub open spec fn surviving_stats(s: Seq<Blob>) -> Seq<(u64, u64, u64, u64)>
    decreases s.len(),
{
    if s.len() == 0 {
        Seq::empty()
    } else {
        surviving_stats(s.drop_last()) + if generation_outcome(s.last())
            != GenerationResult::Starve {
            seq![(s.last().id, s.last().speed, s.last().sense, s.last().size)]
        } else {
            Seq::empty()
        }
    }
}

/// There are as many surviving stat records as survivors.
pub proof fn lemma_surviving_stats_len(s: Seq<Blob>)
    ensures
        surviving_stats(s).len() == count_survivors(s),
    decreases s.len(),
{
    if s.len() > 0 {
        lemma_surviving_stats_len(s.drop_last());
    }
}

/// The blobs whose outcome is reproduction, in population order.
pub open spec fn reproducing_parents(s: Seq<Blob>) -> Seq<Blob>
    decreases s.len(),
{
    if s.len() == 0 {
        Seq::empty()
    } else {
        reproducing_parents(s.drop_last()) + if generation_outcome(s.last())
            == GenerationResult::Reproduce {
            seq![s.last()]
        } else {
            Seq::empty()
        }
    }
}

/// There are as many reproducing parents as reproduction outcomes.
pub proof fn lemma_reproducing_parents_len(s: Seq<Blob>)
    ensures
        reproducing_parents(s).len() == count_reproducing(s),
    decreases s.len(),
{
    if s.len() > 0 {
        lemma_reproducing_parents_len(s.drop_last());
    }
}

/// Surviving stat records take their ids from the population: each comes
/// from some blob, stays under any bound on the population's ids, and —
/// when the population's ids are pairwise distinct — no id repeats.
pub proof fn lemma_surviving_stats_ids(s: Seq<Blob>, bound: u64)
    requires
        forall|i: int| 0 <= i < s.len() ==> (#[trigger] s[i]).id < bound,
        forall|i: int, j: int| 0 <= i < j < s.len() ==> s[i].id != s[j].id,
    ensures
        forall|k: int|
            #![trigger surviving_stats(s)[k]]
            0 <= k < surviving_stats(s).len() ==> exists|i: int|
                0 <= i < s.len() && surviving_stats(s)[k].0 == (#[trigger] s[i]).id,
        forall|k: int|
            0 <= k < surviving_stats(s).len() ==> (#[trigger] surviving_stats(s)[k]).0 < bound,
        forall|k1: int, k2: int|
            0 <= k1 < k2 < surviving_stats(s).len() ==> surviving_stats(s)[k1].0
                != surviving_stats(s)[k2].0,
    decreases s.len(),
{
    if s.len() > 0 {
        let d = s.drop_last();
        assert forall|i: int| 0 <= i < d.len() implies (#[trigger] d[i]).id < bound by {
            assert(d[i] == s[i]);
        }
        assert forall|i: int, j: int| 0 <= i < j < d.len() implies d[i].id != d[j].id by {
            assert(d[i] == s[i] && d[j] == s[j]);
        }
        lemma_surviving_stats_ids(d, bound);
        let sd = surviving_stats(d);
        let ss = surviving_stats(s);
        if generation_outcome(s.last()) == GenerationResult::Starve {
            assert(ss =~= sd);
            assert forall|k: int| #![trigger ss[k]]
                0 <= k < ss.len() implies exists|i: int|
                    0 <= i < s.len() && ss[k].0 == (#[trigger] s[i]).id by {
                let i = choose|i: int| 0 <= i < d.len() && sd[k].0 == (#[trigger] d[i]).id;
                assert(d[i] == s[i]);
                assert(ss[k].0 == (s[i]).id);
            }
        } else {
            assert(ss == sd + seq![(s.last().id, s.last().speed, s.last().sense, s.last().size)]);
            assert forall|k: int| #![trigger ss[k]]
                0 <= k < ss.len() implies exists|i: int|
                    0 <= i < s.len() && ss[k].0 == (#[trigger] s[i]).id by {
                if k < sd.len() {
                    assert(ss[k] == sd[k]);
                    let i = choose|i: int| 0 <= i < d.len() && sd[k].0 == (#[trigger] d[i]).id;
                    assert(d[i] == s[i]);
                    assert(ss[k].0 == (s[i]).id);
                } else {
                    assert(ss[k].0 == (s[s.len() - 1]).id);
                }
            }
            assert forall|k1: int, k2: int| #![trigger ss[k1], ss[k2]]
                0 <= k1 < k2 < ss.len() implies ss[k1].0 != ss[k2].0 by {
                if k2 < sd.len() {
                    assert(ss[k1] == sd[k1] && ss[k2] == sd[k2]);
                } else {
                    assert(ss[k1] == sd[k1]);
                    let i = choose|i: int| 0 <= i < d.len() && sd[k1].0 == (#[trigger] d[i]).id;
                    assert(d[i] == s[i]);
                    assert(ss[k2].0 == s[s.len() - 1].id);
                    assert(s[i].id != s[s.len() - 1].id);
                }
            }
        }
    }
}

/// Each child appended at the generation boundary descends from the
/// reproducing parent of the same rank by one mutation step: some choice
/// of mutated stat and draw per child relates its stats to its parent's.
pub open spec fn children_descend(pre_blobs: Seq<Blob>, post_blobs: Seq<Blob>) -> bool {
    exists|ms: Seq<u64>, drs: Seq<u64>|
        {
            &&& ms.len() == count_reproducing(pre_blobs)
            &&& drs.len() == count_reproducing(pre_blobs)
            &&& forall|k: int|
                0 <= k < count_reproducing(pre_blobs) ==> evolve_stats_ok(
                    #[trigger] reproducing_parents(pre_blobs)[k],
                    post_blobs[count_survivors(pre_blobs) + k],
                    ms[k],
                    drs[k],
                )
        }
}

/// The per-tick update of the whole population: each blob stepped once,
/// in population order, against the sequentially threaded food pool — the
/// pool each blob sees is the pool the previous blob left behind.
pub open spec fn updated_in_order(
    pre_blobs: Seq<Blob>,
    f0: Seq<Point>,
    post_blobs: Seq<Blob>,
    f1: Seq<Point>,
) -> bool {
    exists|pools: Seq<Seq<Point>>|
        {
            &&& pools.len() == pre_blobs.len() + 1
            &&& pools[0] == f0
            &&& pools[pre_blobs.len() as int] == f1
            &&& forall|i: int|
                0 <= i < pre_blobs.len() ==> update_rel(
                    pre_blobs[i],
                    #[trigger] pools[i],
                    post_blobs[i],
                    pools[i + 1],
                )
        }
}

/// The whole ecosystem: the population, the shared food pool, the frame
/// counter within the current generation, an id allocator, and the
/// configuration.
pub struct Simulation {
    // State
    pub state: SimulationState,
    pub blobs: Vec<Blob>,
    pub food: Vec<Point>,
    pub generation_frames: u32,
    pub next_id: u64,
    // Settings
    pub settings: Settings,
}

impl Simulation {
    /// Ids are fresh: every live blob's id lies below the allocator, and
    /// no id occurs twice. The id space is 64 bits wide; were the
    /// allocator ever exhausted (`next_id == u64::MAX`), freshness could
    /// no longer be promised, so the claim is conditional on that —
    /// machine-unreachable — state.
    pub open spec fn ids_fresh(self) -> bool {
        self.next_id == u64::MAX || {
            &&& forall|i: int|
                0 <= i < self.blobs@.len() ==> (#[trigger] self.blobs@[i]).id < self.next_id
            &&& forall|i: int, j: int|
                0 <= i < j < self.blobs@.len() ==> self.blobs@[i].id != self.blobs@[j].id
        }
    }

    /// The configuration is within bounds, the frame counter is within the
    /// generation, every blob is well formed, uniquely identified and
    /// configured like the simulation (up to the food count), and all food
    /// lies in the world.
    pub open spec fn wf(self) -> bool {
        &&& self.settings.wf()
        &&& self.generation_frames <= self.settings.sim_fps * self.settings.gen_duration
        &&& forall|i: int| 0 <= i < self.blobs@.len() ==> (#[trigger] self.blobs@[i]).wf()
        &&& forall|i: int|
            0 <= i < self.blobs@.len() ==> same_except_food(
                (#[trigger] self.blobs@[i]).settings,
                self.settings,
            )
        &&& all_in_world(self.settings, self.food@)
        &&& self.ids_fresh()
    }

    /// A stopped, empty simulation under the default configuration.
    pub fn new() -> (sim: Simulation)
        ensures
            sim.wf(),
            sim.state == SimulationState::Stopped,
            sim.blobs@.len() == 0,
            sim.food@.len() == 0,
            sim.generation_frames == 0,
            sim.settings == Settings::spec_default(),
    {
        Simulation {
            state: SimulationState::Stopped,
            blobs: Vec::new(),
            food: Vec::new(),
            generation_frames: 0,
            next_id: 0,
            settings: Settings::default(),
        }
    }

    /// Reinitialize the food pool (always) and, if asked, the population:
    /// the frame counter returns to zero, the pool is refilled with the
    /// current food count of random in-world points, and the food schedule
    /// advances — one decay step, or back to its start value on a full
    /// restart with a fresh population of configured size.
    pub fn reset(&mut self, blobs: bool)
        requires
            old(self).wf(),
        ensures
            final(self).wf(),
            final(self).state == old(self).state,
            final(self).generation_frames == 0,
            final(self).next_id >= old(self).next_id,
            final(self).food@.len() == old(self).settings.spec_food_per_gen(),
            all_in_world(final(self).settings, final(self).food@),
            blobs ==> final(self).blobs@.len() == old(self).settings.spec_start_blobs()
                && final(self).settings == (Settings {
                gen_food: old(self).settings.gen_food_decay.0,
                ..old(self).settings
            }),
            blobs ==> forall|j: int|
                0 <= j < final(self).blobs@.len() ==> {
                    let b = #[trigger] final(self).blobs@[j];
                    &&& b.state == BlobState::SearchFood
                    &&& b.food_found == 0
                    &&& b.energy == old(self).settings.spec_blob_energy()
                    &&& b.speed == old(self).settings.spec_blob_speed().0
                    &&& b.sense == old(self).settings.spec_blob_sense().0
                    &&& b.size == old(self).settings.spec_blob_size().0
                    &&& b.settings == old(self).settings
                },
            !blobs ==> final(self).blobs == old(self).blobs && final(self).next_id == old(
                self,
            ).next_id && final(self).settings == (Settings {
                gen_food: old(self).settings.spec_decayed_food(),
                ..old(self).settings
            }),
    {
        let ghost pre = *self;
        self.food = Vec::new();
        self.generation_frames = 0;
        if blobs {
            self.blobs = Vec::new();
            let n = self.settings.start_blobs();
            let mut i: u32 = 0;
            while i < n
                invariant
                    self.settings == pre.settings,
                    self.state == pre.state,
                    self.generation_frames == 0,
                    self.food@.len() == 0,
                    self.next_id >= pre.next_id,
                    pre.settings.wf(),
                    0 <= i <= n,
                    self.blobs@.len() == i,
                    forall|j: int| 0 <= j < i ==> (#[trigger] self.blobs@[j]).wf(),
                    forall|j: int|
                        0 <= j < i ==> same_except_food(
                            (#[trigger] self.blobs@[j]).settings,
                            pre.settings,
                        ),
                    forall|j: int|
                        0 <= j < i ==> {
                            let b = #[trigger] self.blobs@[j];
                            &&& b.state == BlobState::SearchFood
                            &&& b.food_found == 0
                            &&& b.energy == pre.settings.spec_blob_energy()
                            &&& b.speed == pre.settings.spec_blob_speed().0
                            &&& b.sense == pre.settings.spec_blob_sense().0
                            &&& b.size == pre.settings.spec_blob_size().0
                            &&& b.settings == pre.settings
                        },
                    self.next_id < u64::MAX ==> forall|j: int|
                        0 <= j < i ==> (#[trigger] self.blobs@[j]).id < self.next_id,
                    self.next_id < u64::MAX ==> forall|j1: int, j2: int|
                        0 <= j1 < j2 < i ==> self.blobs@[j1].id != self.blobs@[j2].id,
                decreases n - i,
            {
                let b = Blob::new(self.next_id, &self.settings);
                self.blobs.push(b);
                self.next_id = if self.next_id < u64::MAX {
                    self.next_id + 1
                } else {
                    self.next_id
                };
                i = i + 1;
            }
        }
        let count = self.settings.food_per_gen();
        let ghost blobs_now = self.blobs;
        let ghost next_id_now = self.next_id;
        let mut i: u32 = 0;
        while i < count
            invariant
                self.settings == pre.settings,
                self.state == pre.state,
                self.generation_frames == 0,
                self.blobs == blobs_now,
                self.next_id == next_id_now,
                pre.settings.wf(),
                0 <= i <= count,
                self.food@.len() == i,
                all_in_world(pre.settings, self.food@),
            decreases count - i,
        {
            let p = crate::blobs::random_point(&self.settings);
            self.food.push(p);
            i = i + 1;
        }
        self.settings.decay_food();
        if blobs {
            self.settings.reset_food();
        }
    }

    /// Advance the simulation by one logical frame. A stopped simulation
    /// is untouched. A running one counts the frame and either updates
    /// every blob in order against the shared pool, or — once the frame
    /// counter passes one generation's worth of ticks — settles the
    /// generation: every blob's outcome is computed and the blob reset,
    /// the starved are dropped, each reproducer is joined by one evolved
    /// child appended after the survivors, and the food pool and counter
    /// are reset with the food schedule advanced by one decay step.
    pub fn tick(&mut self)
        requires
            old(self).wf(),
        ensures
            final(self).wf(),
            final(self).state == old(self).state,
            final(self).next_id >= old(self).next_id,
            old(self).state == SimulationState::Stopped ==> *final(self) == *old(self),
            old(self).state == SimulationState::Running && old(self).generation_frames + 1 > old(
                self,
            ).settings.sim_fps * old(self).settings.gen_duration ==> {
                &&& final(self).generation_frames == 0
                &&& final(self).blobs@.len() == count_survivors(old(self).blobs@)
                    + count_reproducing(old(self).blobs@)
                &&& forall|j: int|
                    0 <= j < count_survivors(old(self).blobs@) ==> {
                        let rec = surviving_stats(old(self).blobs@)[j];
                        &&& (#[trigger] final(self).blobs@[j]).id == rec.0
                        &&& final(self).blobs@[j].speed == rec.1
                        &&& final(self).blobs@[j].sense == rec.2
                        &&& final(self).blobs@[j].size == rec.3
                    }
                &&& forall|j: int|
                    0 <= j < final(self).blobs@.len() ==> (#[trigger] final(self).blobs@[j]).state
                        == BlobState::SearchFood && final(self).blobs@[j].food_found == 0
                &&& forall|j: int|
                    0 <= j < final(self).blobs@.len() ==> (#[trigger] final(self).blobs@[j]).energy
                        == reset_energy(final(self).blobs@[j].settings, final(self).blobs@[j].size)
                &&& children_descend(old(self).blobs@, final(self).blobs@)
                &&& final(self).food@.len() == old(self).settings.spec_food_per_gen()
                &&& final(self).settings == (Settings {
                    gen_food: old(self).settings.spec_decayed_food(),
                    ..old(self).settings
                })
            },
            old(self).state == SimulationState::Running && old(self).generation_frames + 1 <= old(
                self,
            ).settings.sim_fps * old(self).settings.gen_duration ==> {
                &&& final(self).generation_frames == old(self).generation_frames + 1
                &&& final(self).blobs@.len() == old(self).blobs@.len()
                &&& final(self).food@.len() <= old(self).food@.len()
                &&& forall|p: Point|
                    final(self).food@.contains(p) ==> #[trigger] old(self).food@.contains(p)
                &&& updated_in_order(
                    old(self).blobs@,
                    old(self).food@,
                    final(self).blobs@,
                    final(self).food@,
                )
                &&& final(self).settings == old(self).settings
                &&& forall|i: int|
                    0 <= i < final(self).blobs@.len() ==> (#[trigger] final(self).blobs@[i]).id
                        == old(self).blobs@[i].id && final(self).blobs@[i].speed == old(
                        self,
                    ).blobs@[i].speed && final(self).blobs@[i].sense == old(self).blobs@[i].sense
                        && final(self).blobs@[i].size == old(self).blobs@[i].size
            },
    {
        let ghost pre = *self;
        match self.state {
            SimulationState::Stopped => {},
            SimulationState::Running => {
                assert(self.settings.sim_fps * self.settings.gen_duration <= 10_000_000)
                    by (nonlinear_arith)
                    requires
                        self.settings.sim_fps <= 1_000u32,
                        self.settings.gen_duration <= 10_000u32,
                ;
                let gen_ticks = self.settings.fps() * self.settings.gen_duration();
                self.generation_frames = self.generation_frames + 1;
                if self.generation_frames > gen_ticks {
                    let n = self.blobs.len();
                    let mut survivors: Vec<Blob> = Vec::new();
                    let mut children: Vec<Blob> = Vec::new();
                    let ghost mut ms: Seq<u64> = Seq::empty();
                    let ghost mut drs: Seq<u64> = Seq::empty();
                    let mut i: usize = 0;
                    while i < n
                        invariant
                            self.blobs == pre.blobs,
                            self.settings == pre.settings,
                            self.state == pre.state,
                            self.food == pre.food,
                            self.next_id >= pre.next_id,
                            pre.next_id == u64::MAX ==> self.next_id == u64::MAX,
                            pre.wf(),
                            0 <= i <= n == self.blobs@.len(),
                            survivors@.len() == count_survivors(self.blobs@.take(i as int)),
                            children@.len() == count_reproducing(self.blobs@.take(i as int)),
                            ms.len() == children@.len(),
                            drs.len() == children@.len(),
                            forall|j: int|
                                0 <= j < survivors@.len() ==> (#[trigger] survivors@[j]).wf()
                                    && same_except_food(survivors@[j].settings, pre.settings)
                                    && survivors@[j].state == BlobState::SearchFood
                                    && survivors@[j].food_found == 0 && survivors@[j].energy
                                    == reset_energy(survivors@[j].settings, survivors@[j].size),
                            forall|j: int|
                                0 <= j < survivors@.len() ==> {
                                    let rec = surviving_stats(self.blobs@.take(i as int))[j];
                                    &&& (#[trigger] survivors@[j]).id == rec.0
                                    &&& survivors@[j].speed == rec.1
                                    &&& survivors@[j].sense == rec.2
                                    &&& survivors@[j].size == rec.3
                                },
                            forall|j: int|
                                0 <= j < children@.len() ==> (#[trigger] children@[j]).wf()
                                    && same_except_food(children@[j].settings, pre.settings)
                                    && children@[j].state == BlobState::SearchFood
                                    && children@[j].food_found == 0 && children@[j].energy
                                    == reset_energy(children@[j].settings, children@[j].size),
                            forall|k: int|
                                0 <= k < children@.len() ==> evolve_stats_ok(
                                    #[trigger] reproducing_parents(self.blobs@.take(i as int))[k],
                                    children@[k],
                                    ms[k],
                                    drs[k],
                                ),
                            self.next_id < u64::MAX ==> forall|j: int|
                                0 <= j < children@.len() ==> pre.next_id <= (#[trigger] children@[
                                    j
                                ]).id < self.next_id,
                            self.next_id < u64::MAX ==> forall|j1: int, j2: int|
                                0 <= j1 < j2 < children@.len() ==> children@[j1].id
                                    != children@[j2].id,
                        decreases n - i,
                    {
                        let ghost children0 = children@;
                        let ghost ms0 = ms;
                        let ghost drs0 = drs;
                        let mut b = self.blobs[i];
                        let r = b.next_gen();
                        match r {
                            GenerationResult::Starve => {},
                            GenerationResult::Live => {
                                survivors.push(b);
                            },
                            GenerationResult::Reproduce => {
                                survivors.push(b);
                                let c = Blob::evolve(&b, self.next_id);
                                proof {
                                    let (m, dr) = choose|m: u64, dr: u64|
                                        evolve_stats_ok(b, c, m, dr);
                                    assert(evolve_stats_ok(self.blobs@[i as int], c, m, dr));
                                    ms = ms.push(m);
                                    drs = drs.push(dr);
                                }
                                self.next_id = if self.next_id < u64::MAX {
                                    self.next_id + 1
                                } else {
                                    self.next_id
                                };
                                children.push(c);
                            },
                        }
                        proof {
                            assert(self.blobs@.take(i + 1).drop_last() =~= self.blobs@.take(
                                i as int,
                            ));
                            assert(self.blobs@.take(i + 1).last() == self.blobs@[i as int]);
                            lemma_surviving_stats_len(self.blobs@.take(i as int));
                            lemma_surviving_stats_len(self.blobs@.take(i + 1));
                            lemma_reproducing_parents_len(self.blobs@.take(i as int));
                            lemma_reproducing_parents_len(self.blobs@.take(i + 1));
                            if generation_outcome(self.blobs@[i as int])
                                == GenerationResult::Reproduce {
                                assert(reproducing_parents(self.blobs@.take(i + 1))
                                    == reproducing_parents(self.blobs@.take(i as int)) + seq![
                                    self.blobs@[i as int],
                                ]);
                            } else {
                                assert(reproducing_parents(self.blobs@.take(i + 1))
                                    =~= reproducing_parents(self.blobs@.take(i as int)));
                            }
                            assert forall|k: int|
                                0 <= k < children@.len() implies evolve_stats_ok(
                                #[trigger] reproducing_parents(self.blobs@.take(i + 1))[k],
                                children@[k],
                                ms[k],
                                drs[k],
                            ) by {
                                if k < children0.len() {
                                    assert(reproducing_parents(self.blobs@.take(i + 1))[k]
                                        == reproducing_parents(self.blobs@.take(i as int))[k]);
                                    assert(children@[k] == children0[k] && ms[k] == ms0[k] && drs[k]
                                        == drs0[k]);
                                    assert(evolve_stats_ok(
                                        reproducing_parents(self.blobs@.take(i as int))[k],
                                        children0[k],
                                        ms0[k],
                                        drs0[k],
                                    ));
                                } else {
                                    assert(reproducing_parents(self.blobs@.take(i + 1))[k]
                                        == self.blobs@[i as int]);
                                }
                            }
                        }
                        i = i + 1;
                    }
                    proof {
                        assert(self.blobs@.take(n as int) =~= self.blobs@);
                        lemma_surviving_stats_len(self.blobs@);
                        lemma_reproducing_parents_len(self.blobs@);
                    }
                    let ghost sv = survivors@;
                    let ghost ch = children@;
                    self.blobs = survivors;
                    self.blobs.append(&mut children);
                    proof {
                        assert(self.blobs@ == sv + ch);
                        assert forall|j: int| 0 <= j < sv.len() implies self.blobs@[j]
                            == sv[j] by {}
                        assert forall|j: int| sv.len() <= j < self.blobs@.len() implies self
                            .blobs@[j] == ch[j - sv.len()] by {}
                        assert forall|k: int|
                            0 <= k < ch.len() implies #[trigger] evolve_stats_ok(
                            reproducing_parents(pre.blobs@)[k],
                            ch[k],
                            ms[k],
                            drs[k],
                        ) by {
                            assert(evolve_stats_ok(
                                reproducing_parents(pre.blobs@.take(n as int))[k],
                                ch[k],
                                ms[k],
                                drs[k],
                            ));
                        }
                        if self.next_id < u64::MAX {
                            lemma_surviving_stats_ids(pre.blobs@, pre.next_id);
                            assert forall|j: int|
                                0 <= j < self.blobs@.len() implies (#[trigger] self.blobs@[j]).id
                                < self.next_id by {
                                if j < sv.len() {
                                    assert(self.blobs@[j] == sv[j]);
                                    assert(sv[j].id == surviving_stats(pre.blobs@)[j].0);
                                } else {
                                    assert(self.blobs@[j] == ch[j - sv.len()]);
                                }
                            }
                            assert forall|j1: int, j2: int|
                                0 <= j1 < j2 < self.blobs@.len() implies self.blobs@[j1].id
                                != self.blobs@[j2].id by {
                                if j2 < sv.len() {
                                    assert(self.blobs@[j1] == sv[j1] && self.blobs@[j2] == sv[j2]);
                                    assert(sv[j1].id == surviving_stats(pre.blobs@)[j1].0);
                                    assert(sv[j2].id == surviving_stats(pre.blobs@)[j2].0);
                                } else if j1 < sv.len() {
                                    assert(self.blobs@[j1] == sv[j1]);
                                    assert(sv[j1].id == surviving_stats(pre.blobs@)[j1].0);
                                    assert(self.blobs@[j2] == ch[j2 - sv.len()]);
                                } else {
                                    assert(self.blobs@[j1] == ch[j1 - sv.len()]);
                                    assert(self.blobs@[j2] == ch[j2 - sv.len()]);
                                }
                            }
                        }
                    }
                    self.generation_frames = 0;
                    self.reset(false);
                    proof {
                        assert(self.blobs@ == sv + ch);
                        assert(children_descend(pre.blobs@, self.blobs@)) by {
                            assert(ms.len() == count_reproducing(pre.blobs@));
                            assert(drs.len() == count_reproducing(pre.blobs@));
                            assert forall|k: int|
                                0 <= k < count_reproducing(pre.blobs@) implies evolve_stats_ok(
                                #[trigger] reproducing_parents(pre.blobs@)[k],
                                self.blobs@[count_survivors(pre.blobs@) + k],
                                ms[k],
                                drs[k],
                            ) by {
                                assert(self.blobs@[count_survivors(pre.blobs@) + k] == ch[k]);
                                assert(evolve_stats_ok(
                                    reproducing_parents(pre.blobs@)[k],
                                    ch[k],
                                    ms[k],
                                    drs[k],
                                ));
                            }
                        }
                    }
                } else {
                    let n = self.blobs.len();
                    let ghost mut pools: Seq<Seq<Point>> = seq![pre.food@];
                    let mut i: usize = 0;
                    while i < n
                        invariant
                            self.settings == pre.settings,
                            self.state == pre.state,
                            self.next_id == pre.next_id,
                            self.generation_frames == pre.generation_frames + 1,
                            pre.settings.wf(),
                            0 <= i <= n == self.blobs@.len() == pre.blobs@.len(),
                            self.food@.len() <= pre.food@.len(),
                            forall|p: Point|
                                self.food@.contains(p) ==> #[trigger] pre.food@.contains(p),
                            all_in_world(pre.settings, self.food@),
                            pools.len() == i + 1,
                            pools[0] == pre.food@,
                            pools[i as int] == self.food@,
                            forall|j: int|
                                0 <= j < i ==> update_rel(
                                    pre.blobs@[j],
                                    #[trigger] pools[j],
                                    self.blobs@[j],
                                    pools[j + 1],
                                ),
                            forall|j: int| i <= j < n ==> self.blobs@[j] == pre.blobs@[j],
                            forall|j: int| 0 <= j < n ==> (#[trigger] self.blobs@[j]).wf(),
                            forall|j: int|
                                0 <= j < n ==> same_except_food(
                                    (#[trigger] self.blobs@[j]).settings,
                                    pre.settings,
                                ),
                            forall|j: int|
                                0 <= j < n ==> (#[trigger] self.blobs@[j]).id == pre.blobs@[j].id
                                    && self.blobs@[j].speed == pre.blobs@[j].speed
                                    && self.blobs@[j].sense == pre.blobs@[j].sense
                                    && self.blobs@[j].size == pre.blobs@[j].size,
                        decreases n - i,
                    {
                        let mut b = self.blobs[i];
                        proof {
                            assert(all_in_world(b.settings, self.food@));
                        }
                        b.update(&mut self.food);
                        self.blobs.set(i, b);
                        proof {
                            pools = pools.push(self.food@);
                        }
                        i = i + 1;
                    }
                    proof {
                        assert(pools[n as int] == self.food@);
                        assert(updated_in_order(pre.blobs@, pre.food@, self.blobs@, self.food@));
                        if self.next_id < u64::MAX {
                            assert forall|j1: int, j2: int|
                                0 <= j1 < j2 < self.blobs@.len() implies self.blobs@[j1].id
                                != self.blobs@[j2].id by {
                                assert(self.blobs@[j1].id == pre.blobs@[j1].id);
                                assert(self.blobs@[j2].id == pre.blobs@[j2].id);
                            }
                            assert forall|j: int|
                                0 <= j < self.blobs@.len() implies (#[trigger] self.blobs@[j]).id
                                < self.next_id by {
                                assert(self.blobs@[j].id == pre.blobs@[j].id);
                            }
                        }
                    }
                }
            },
        }
    }

    /// Read accessor: whether the simulation is running.
    pub fn state(&self) -> (r: SimulationState)
        ensures
            r == self.state,
    {
        self.state
    }

    /// Pause a running simulation, resume a stopped one.
    pub fn toggle(&mut self)
        ensures
            old(self).state == SimulationState::Stopped ==> *final(self) == (Simulation {
                state: SimulationState::Running,
                ..*old(self)
            }),
            old(self).state == SimulationState::Running ==> *final(self) == (Simulation {
                state: SimulationState::Stopped,
                ..*old(self)
            }),
    {
        self.state = match self.state {
            SimulationState::Stopped => SimulationState::Running,
            SimulationState::Running => SimulationState::Stopped,
        };
    }

    /// Read accessor for rendering: the population.
    pub fn blobs(&self) -> (r: &Vec<Blob>)
        ensures
            *r == self.blobs,
    {
        &self.blobs
    }

    /// Read accessor for rendering: the food pool.
    pub fn food(&self) -> (r: &Vec<Point>)
        ensures
            *r == self.food,
    {
        &self.food
    }

    /// Read accessor: the configuration.
    pub fn settings(&self) -> (r: &Settings)
        ensures
            *r == self.settings,
    {
        &self.settings
    }
}

} // verus!
