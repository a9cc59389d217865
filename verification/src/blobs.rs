//! The foraging agent: its stats, its behavioral state machine, the
//! movement and energy model, the generation outcome, and mutation-based
//! evolution.

use vstd::prelude::*;

verus! {

use vstd::arithmetic::div_mod::{lemma_div_is_ordered, lemma_div_pos_is_pos};

use crate::geometry::{dist_sq, dist_sq_exec, isqrt, sqrt_floor, Point};
use crate::rng::random_below;
use crate::settings::Settings;
use crate::{ENERGY_CAP, SCALE, SENSE_MAX, TRAIT_MAX};

/// What a blob is currently doing.
#[derive(Clone, Copy, Debug, PartialEq, Eq, Structural)]
pub enum BlobState {
    SearchFood,
    GoToFood,
    GoHome,
    AtHome,
}

/// A blob's fate at a generation boundary.
#[derive(Clone, Copy, Debug, PartialEq, Eq, Structural)]
pub enum GenerationResult {
    Starve,
    Live,
    Reproduce,
}

/// Whether a point lies inside the world.
pub open spec fn in_world(s: Settings, p: Point) -> bool {
    p.x <= s.spec_world_size().0 && p.y <= s.spec_world_size().1
}

/// Whether every point of a pool lies inside the world.
pub open spec fn all_in_world(s: Settings, food: Seq<Point>) -> bool {
    forall|i: int| 0 <= i < food.len() ==> in_world(s, #[trigger] food[i])
}

/// Energy cost of covering `len` world units: grows with the square of
/// speed and the cube of size.
pub open spec fn move_cost(len: int, speed: int, size: int) -> int {
    len * speed * speed * size * size * size
}

/// Energy reserve granted at a reset: the configured base scaled by size.
pub open spec fn reset_energy(s: Settings, size: u64) -> int {
    (s.blob_energy * size) as int / (SCALE as int)
}

/// One foraging agent.
#[derive(Clone, Copy, Debug)]
pub struct Blob {
    pub id: u64,
    // Base Stats
    pub energy: u128,
    pub speed: u64,
    pub sense: u64,
    pub size: u64,
    // State
    pub state: BlobState,
    // Generation Stats
    pub food_found: u8,
    // Map
    pub destination: Point,
    pub position: Point,
    // Settings
    pub settings: Settings,
}

impl Blob {
    /// Energy gained from one meal: the configured food energy scaled by
    /// the eater's size.
    pub open spec fn eat_gain(self) -> int {
        (self.settings.sim_food_energy * self.size) as int / (SCALE as int)
    }

    /// Everything `wf` asks except the link between the food counter and
    /// the state; eating breaks that link for an instant inside a tick.
    pub open spec fn wf_core(self) -> bool {
        &&& self.settings.wf()
        &&& in_world(self.settings, self.position)
        &&& in_world(self.settings, self.destination)
        &&& self.speed <= TRAIT_MAX
        &&& self.sense <= SENSE_MAX
        &&& self.size <= TRAIT_MAX
        &&& self.food_found <= 2
        &&& self.energy + (2 - self.food_found) * self.eat_gain() <= ENERGY_CAP
    }

    /// A blob is well formed when its stats and coordinates are within
    /// bounds, its energy leaves room for the meals it can still eat, and
    /// a blob that has found two meals is heading home or already there.
    pub open spec fn wf(self) -> bool {
        &&& self.wf_core()
        &&& self.food_found == 2 ==> self.state == BlobState::GoHome || self.state
            == BlobState::AtHome
    }

    /// Farthest distance the blob can cover in one tick.
    pub open spec fn max_step(self) -> int {
        self.settings.spec_blob_step() * self.speed / (SCALE as int)
    }

    /// Distance to the current destination (floor of the Euclidean value).
    pub open spec fn dist_to_dest(self) -> int {
        sqrt_floor(dist_sq(self.position, self.destination))
    }

    /// Distance a move covers this tick: the full remaining distance, or
    /// the per-tick maximum, whichever is smaller.
    pub open spec fn step_len(self) -> int {
        if self.dist_to_dest() <= self.max_step() {
            self.dist_to_dest()
        } else {
            self.max_step()
        }
    }

    /// Whether the energy reserve covers this tick's move.
    pub open spec fn can_move(self) -> bool {
        move_cost(self.step_len(), self.speed as int, self.size as int) <= self.energy
    }

    /// Whether this tick's maximum covers the whole remaining distance.
    pub open spec fn reaches_dest(self) -> bool {
        self.dist_to_dest() <= self.max_step()
    }

    /// Whether the move both happens and arrives this tick.
    pub open spec fn move_arrives(self) -> bool {
        self.can_move() && self.reaches_dest()
    }

    /// One coordinate after a partial move of `step` out of `dist` toward
    /// the destination's coordinate.
    pub open spec fn axis_toward(p: u64, d: u64, step: int, dist: int) -> u64 {
        if p <= d {
            (p + (d - p) * step / dist) as u64
        } else {
            (p - (p - d) * step / dist) as u64
        }
    }

    /// The position after one move: unchanged without energy, the
    /// destination on arrival, otherwise a straight-line partial step.
    pub open spec fn position_after_move(self) -> Point {
        if !self.can_move() {
            self.position
        } else if self.reaches_dest() {
            self.destination
        } else {
            Point {
                x: Self::axis_toward(
                    self.position.x,
                    self.destination.x,
                    self.max_step(),
                    self.dist_to_dest(),
                ),
                y: Self::axis_toward(
                    self.position.y,
                    self.destination.y,
                    self.max_step(),
                    self.dist_to_dest(),
                ),
            }
        }
    }

    /// The whole blob after one move: the new position, the cost debited
    /// when the reserve covers it, everything else untouched.
    pub open spec fn after_move(self) -> Blob {
        Blob {
            position: self.position_after_move(),
            energy: if self.can_move() {
                (self.energy - move_cost(
                    self.step_len(),
                    self.speed as int,
                    self.size as int,
                )) as u128
            } else {
                self.energy
            },
            ..self
        }
    }

    /// Move toward the current destination: cover the remaining distance
    /// or the per-tick maximum, debit `distance * speed^2 * size^3`, and
    /// report whether the destination was reached. Without enough energy
    /// for the step, nothing moves.
    fn move_to(&mut self) -> (arrived: bool)
        requires
            old(self).wf_core(),
        ensures
            *final(self) == old(self).after_move(),
            arrived == old(self).move_arrives(),
            final(self).wf_core(),
    {
        let ghost pre = *self;
        let d2 = dist_sq_exec(self.position, self.destination);
        proof {
            crate::geometry::lemma_dist_sq_bound(pre.position, pre.destination);
        }
        let d = isqrt(d2);
        assert(d <= 1_500_000) by (nonlinear_arith)
            requires
                d * d <= 2_000_000_000_000u64,
        ;
        let step = self.settings.blob_step();
        assert(step * pre.speed <= 50_000_000_000u64) by (nonlinear_arith)
            requires
                0 <= step <= 500_000u64,
                0 <= pre.speed <= 100_000u64,
        ;
        let ms = step * self.speed / SCALE;
        let moved = if d <= ms {
            d
        } else {
            ms
        };
        assert(moved == pre.step_len());
        let ghost mv = moved as int;
        let ghost sp = pre.speed as int;
        let ghost sz = pre.size as int;
        assert(0 <= mv * sp <= 150_000_000_000
            && 0 <= mv * sp * sp <= 15_000_000_000_000_000
            && 0 <= mv * sp * sp * sz <= 1_500_000_000_000_000_000_000
            && 0 <= mv * sp * sp * sz * sz <= 150_000_000_000_000_000_000_000_000
            && 0 <= mv * sp * sp * sz * sz * sz
                <= 15_000_000_000_000_000_000_000_000_000_000) by (nonlinear_arith)
            requires
                0 <= mv <= 1_500_000,
                0 <= sp <= 100_000,
                0 <= sz <= 100_000,
        ;
        let cost: u128 = (moved as u128) * (self.speed as u128) * (self.speed as u128)
            * (self.size as u128) * (self.size as u128) * (self.size as u128);
        assert(cost == move_cost(pre.step_len(), sp, sz));
        if cost <= self.energy {
            self.energy = self.energy - cost;
            if d <= ms {
                self.position = self.destination;
                assert(*self == pre.after_move());
                true
            } else {
                // Here 0 <= ms < d, so the direction is defined and the
                // scaled offset along each axis stays within the span.
                let px = self.position.x;
                let py = self.position.y;
                let dx = self.destination.x;
                let dy = self.destination.y;
                let ghost delta_x: int = if px <= dx { dx - px } else { px - dx };
                let ghost delta_y: int = if py <= dy { dy - py } else { py - dy };
                proof {
                    crate::geometry::lemma_scaled_step_le(delta_x, ms as int, d as int);
                    crate::geometry::lemma_scaled_step_le(delta_y, ms as int, d as int);
                }
                assert(delta_x * ms <= 500_000_000_000_000 && delta_y * ms
                    <= 500_000_000_000_000) by (nonlinear_arith)
                    requires
                        0 <= delta_x <= 1_000_000,
                        0 <= delta_y <= 1_000_000,
                        0 <= ms <= 500_000_000u64,
                ;
                let nx = if px <= dx {
                    px + (dx - px) * ms / d
                } else {
                    px - (px - dx) * ms / d
                };
                let ny = if py <= dy {
                    py + (dy - py) * ms / d
                } else {
                    py - (py - dy) * ms / d
                };
                self.position = Point { x: nx, y: ny };
                assert(*self == pre.after_move());
                false
            }
        } else {
            assert(*self == pre.after_move());
            false
        }
    }

    /// Whether the early-return-home rule fires: one meal found with the
    /// reserve below three times the food energy, or two meals found.
    pub open spec fn wants_home(self) -> bool {
        (self.food_found == 1 && (self.energy as int) < 3 * self.settings.sim_food_energy)
            || self.food_found >= 2
    }

    /// The nearest world edge along whichever axis is closer to its edge:
    /// clamp that coordinate to `0` or the world bound, keep the other.
    pub open spec fn home_destination(self) -> Point {
        let w = self.settings.spec_world_size().0;
        let h = self.settings.spec_world_size().1;
        let dx: int = if self.position.x > w / 2 {
            w - self.position.x
        } else {
            self.position.x as int
        };
        let dy: int = if self.position.y > h / 2 {
            h - self.position.y
        } else {
            self.position.y as int
        };
        if dx < dy {
            Point {
                x: if self.position.x > w / 2 {
                    w
                } else {
                    0
                },
                y: self.position.y,
            }
        } else {
            Point {
                x: self.position.x,
                y: if self.position.y > h / 2 {
                    h
                } else {
                    0
                },
            }
        }
    }

    /// The blob after the early-return-home rule: searching or chasing
    /// blobs that want home turn toward the nearest edge; anyone else is
    /// untouched.
    pub open spec fn after_home_check(self) -> Blob {
        if (self.state == BlobState::SearchFood || self.state == BlobState::GoToFood)
            && self.wants_home() {
            Blob { destination: self.home_destination(), state: BlobState::GoHome, ..self }
        } else {
            self
        }
    }

    /// Apply the early-return-home rule.
    fn check_go_home(&mut self)
        requires
            old(self).wf_core(),
        ensures
            *final(self) == old(self).after_home_check(),
            final(self).wf(),
    {
        match self.state {
            BlobState::SearchFood | BlobState::GoToFood => {
                let go = (self.food_found == 1 && self.energy < 3 * (self.settings.food_energy()
                    as u128)) || self.food_found >= 2;
                if go {
                    let (w, h) = self.settings.world_size();
                    let dx = if self.position.x > w / 2 {
                        w - self.position.x
                    } else {
                        self.position.x
                    };
                    let dy = if self.position.y > h / 2 {
                        h - self.position.y
                    } else {
                        self.position.y
                    };
                    if dx < dy {
                        let x = if self.position.x > w / 2 {
                            w
                        } else {
                            0
                        };
                        self.destination = Point { x, y: self.position.y };
                    } else {
                        let y = if self.position.y > h / 2 {
                            h
                        } else {
                            0
                        };
                        self.destination = Point { x: self.position.x, y };
                    }
                    self.state = BlobState::GoHome;
                }
            },
            BlobState::GoHome | BlobState::AtHome => {},
        }
    }

    /// Whether a food point is within the blob's sense radius.
    pub open spec fn within_sense(self, p: Point) -> bool {
        dist_sq(self.position, p) <= self.sense * self.sense
    }

    /// Whether any point of the pool is within the sense radius.
    pub open spec fn has_food_in_sense(self, food: Seq<Point>) -> bool {
        exists|i: int| 0 <= i < food.len() && self.within_sense(#[trigger] food[i])
    }

    /// `p` is a sensed food point at minimal distance.
    pub open spec fn nearest_food(self, food: Seq<Point>, p: Point) -> bool {
        &&& food.contains(p)
        &&& self.within_sense(p)
        &&& forall|i: int|
            0 <= i < food.len() && self.within_sense(#[trigger] food[i]) ==> dist_sq(
                self.position,
                p,
            ) <= dist_sq(self.position, food[i])
    }

    /// Scan the pool for the nearest food point within the sense radius;
    /// ties may resolve to any minimal point.
    fn search_food(&self, food: &Vec<Point>) -> (r: Option<Point>)
        requires
            self.wf_core(),
            all_in_world(self.settings, food@),
        ensures
            match r {
                Some(p) => self.nearest_food(food@, p),
                None => !self.has_food_in_sense(food@),
            },
    {
        assert(self.sense * self.sense <= 100_000_000_000_000u64) by (nonlinear_arith)
            requires
                self.sense <= 10_000_000u64,
        ;
        let sense_sq = self.sense * self.sense;
        let mut best: Option<Point> = None;
        let mut best_d2: u64 = 0;
        let mut i: usize = 0;
        while i < food.len()
            invariant
                self.wf_core(),
                all_in_world(self.settings, food@),
                0 <= i <= food@.len(),
                sense_sq == self.sense * self.sense,
                match best {
                    Some(p) => {
                        &&& food@.take(i as int).contains(p)
                        &&& self.within_sense(p)
                        &&& best_d2 == dist_sq(self.position, p)
                        &&& forall|j: int|
                            0 <= j < i && self.within_sense(#[trigger] food@[j]) ==> best_d2
                                <= dist_sq(self.position, food@[j])
                    },
                    None => forall|j: int|
                        0 <= j < i ==> !self.within_sense(#[trigger] food@[j]),
                },
            decreases food@.len() - i,
        {
            let d2 = dist_sq_exec(self.position, food[i]);
            if d2 <= sense_sq {
                let better = match best {
                    Some(_) => d2 < best_d2,
                    None => true,
                };
                if better {
                    best = Some(food[i]);
                    best_d2 = d2;
                    assert(food@.take(i + 1).contains(food@[i as int])) by {
                        assert(food@.take(i + 1)[i as int] == food@[i as int]);
                    }
                }
            }
            proof {
                if best is Some {
                    let p = best->Some_0;
                    if food@.take(i as int).contains(p) {
                        let k = choose|k: int|
                            0 <= k < i && food@.take(i as int)[k] == p;
                        assert(food@.take(i + 1)[k] == p);
                    }
                }
            }
            i = i + 1;
        }
        proof {
            assert(food@.take(food@.len() as int) =~= food@);
        }
        best
    }

    /// The blob after one meal: energy up by the size-scaled food energy,
    /// the meal counted.
    pub open spec fn after_eat(self) -> Blob {
        Blob {
            energy: (self.energy + self.eat_gain()) as u128,
            food_found: (self.food_found + 1) as u8,
            ..self
        }
    }

    /// Consume the food at the current destination.
    fn eat(&mut self)
        requires
            old(self).wf_core(),
            old(self).food_found <= 1,
        ensures
            *final(self) == old(self).after_eat(),
            final(self).wf_core(),
    {
        let ghost pre = *self;
        assert(self.settings.sim_food_energy as int * self.size as int
            <= 25_000_000_000_000_000_000) by (nonlinear_arith)
            requires
                self.settings.sim_food_energy <= 250_000_000_000_000u64,
                self.size <= 100_000u64,
        ;
        let gain: u128 = (self.settings.food_energy() as u128) * (self.size as u128) / (
        SCALE as u128);
        proof {
            lemma_div_pos_is_pos((self.settings.sim_food_energy * self.size) as int, SCALE as int);
            let g = pre.eat_gain();
            assert(gain == g);
            if pre.food_found == 0 {
                assert((2 - pre.food_found as int) * g == 2 * g);
                assert((2 - (pre.food_found + 1) as int) * g == 1 * g);
            } else {
                assert((2 - pre.food_found as int) * g == 1 * g);
                assert((2 - (pre.food_found + 1) as int) * g == 0 * g);
            }
        }
        self.energy = self.energy + gain;
        self.food_found = self.food_found + 1;
    }
}

/// A fresh point drawn uniformly inside the world.
pub(crate) fn random_point(settings: &Settings) -> (p: Point)
    requires
        settings.wf(),
    ensures
        in_world(*settings, p),
{
    let (w, h) = settings.world_size();
    Point { x: random_below(w + 1), y: random_below(h + 1) }
}

/// An acceptable destination for one search step: the nearest sensed food
/// point if any is sensed; otherwise a fresh in-world point when the blob
/// already stands on its destination, and the old destination when not.
pub open spec fn search_dest_ok(pre: Blob, food: Seq<Point>, d: Point) -> bool {
    if pre.has_food_in_sense(food) {
        pre.nearest_food(food, d)
    } else if pre.position == pre.destination {
        in_world(pre.settings, d)
    } else {
        d == pre.destination
    }
}

/// One search step with destination `d` spelled out: the blob targets `d`
/// and moves toward it. When a food point was sensed and the move arrives,
/// the meal is consumed within the same step — the point leaves the pool,
/// the meal is counted, and the blob keeps searching; when the move falls
/// short, the blob starts chasing. With nothing sensed the pool is
/// untouched and the blob keeps searching.
pub open spec fn search_step_with(
    pre: Blob,
    f0: Seq<Point>,
    post: Blob,
    f1: Seq<Point>,
    d: Point,
) -> bool {
    search_dest_ok(pre, f0, d) && {
        let tgt = Blob { destination: d, ..pre };
        if pre.has_food_in_sense(f0) {
            if tgt.move_arrives() {
                &&& exists|i: int|
                    0 <= i < f0.len() && f0[i] == d && f1 == #[trigger] f0.remove(i)
                &&& post == tgt.goto_eat_result()
            } else {
                &&& f1 == f0
                &&& post == (Blob { state: BlobState::GoToFood, ..tgt.after_move() })
            }
        } else {
            &&& f1 == f0
            &&& post == tgt.after_move()
        }
    }
}

/// One search step: pick an acceptable destination, then move toward it,
/// eating on same-tick arrival at a sensed food point.
pub open spec fn search_step_rel(pre: Blob, f0: Seq<Point>, post: Blob, f1: Seq<Point>) -> bool {
    exists|d: Point| #[trigger] search_step_with(pre, f0, post, f1, d)
}

impl Blob {
    /// The same blob, back to searching.
    pub open spec fn as_searching(self) -> Blob {
        Blob { state: BlobState::SearchFood, ..self }
    }

    /// The blob after reaching and consuming its food destination.
    pub open spec fn goto_eat_result(self) -> Blob {
        Blob { state: BlobState::SearchFood, ..self.after_move().after_eat() }
    }

    /// One homeward step: move, and settle down on arrival.
    pub open spec fn gohome_step(self) -> Blob {
        if self.move_arrives() {
            Blob { state: BlobState::AtHome, ..self.after_move() }
        } else {
            self.after_move()
        }
    }

    /// Run one search step: target the nearest sensed food — consuming it
    /// at once when this tick's move reaches it — or re-roll a stale
    /// destination, then move.
    fn step_search(&mut self, food: &mut Vec<Point>)
        requires
            old(self).wf_core(),
            old(self).state == BlobState::SearchFood,
            old(self).food_found <= 1,
            all_in_world(old(self).settings, old(food)@),
        ensures
            search_step_rel(*old(self), old(food)@, *final(self), final(food)@),
            final(self).wf_core(),
            final(self).state == BlobState::SearchFood || final(self).state
                == BlobState::GoToFood,
            final(self).food_found <= old(self).food_found + 1,
            final(self).id == old(self).id,
            final(self).speed == old(self).speed,
            final(self).sense == old(self).sense,
            final(self).size == old(self).size,
            final(self).settings == old(self).settings,
            all_in_world(old(self).settings, final(food)@),
            forall|p: Point| final(food)@.contains(p) ==> old(food)@.contains(p),
    {
        let ghost pre = *self;
        let ghost f0 = food@;
        match self.search_food(food) {
            Some(p) => {
                proof {
                    let k = choose|k: int| 0 <= k < f0.len() && f0[k] == p;
                    assert(pre.within_sense(f0[k]));
                }
                self.destination = p;
                let ghost tgt = *self;
                let arrived = self.move_to();
                if arrived {
                    self.eat();
                    remove_point(food, p);
                    proof {
                        let i = choose|i: int|
                            0 <= i < f0.len() && f0[i] == p && food@ == #[trigger] f0.remove(i);
                        f0.remove_ensures(i);
                        assert forall|q: Point| food@.contains(q) implies f0.contains(q) by {
                            let j = choose|j: int| 0 <= j < food@.len() && food@[j] == q;
                            if j < i {
                                assert(f0[j] == q);
                            } else {
                                assert(f0[j + 1] == q);
                            }
                        }
                        assert(*self == tgt.goto_eat_result());
                        assert(search_step_with(pre, f0, *self, food@, p));
                    }
                } else {
                    self.state = BlobState::GoToFood;
                    proof {
                        assert(*self == (Blob { state: BlobState::GoToFood, ..tgt.after_move() }));
                        assert(search_step_with(pre, f0, *self, food@, p));
                    }
                }
            },
            None => {
                if self.position == self.destination {
                    self.destination = random_point(&self.settings);
                }
                let ghost tgt = *self;
                self.move_to();
                proof {
                    assert(*self == tgt.after_move());
                    assert(search_step_with(pre, f0, *self, food@, tgt.destination));
                }
            },
        }
    }

    /// Advance the blob by one tick against the shared food pool: act on
    /// the current state, then apply the early-return-home rule. A
    /// searcher that reaches sensed food consumes it within the same
    /// tick; a chaser whose food was eaten by another blob re-runs the
    /// search step within the same tick.
    pub fn update(&mut self, food: &mut Vec<Point>)
        requires
            old(self).wf(),
            all_in_world(old(self).settings, old(food)@),
        ensures
            final(self).wf(),
            all_in_world(final(self).settings, final(food)@),
            update_rel(*old(self), old(food)@, *final(self), final(food)@),
            forall|p: Point| final(food)@.contains(p) ==> old(food)@.contains(p),
            final(self).id == old(self).id,
            final(self).speed == old(self).speed,
            final(self).sense == old(self).sense,
            final(self).size == old(self).size,
            final(self).settings == old(self).settings,
    {
        let ghost pre = *self;
        let ghost f0 = food@;
        match self.state {
            BlobState::SearchFood => {
                self.step_search(food);
                let ghost mid = *self;
                let ghost fmid = food@;
                self.check_go_home();
                proof {
                    assert(search_step_rel(pre, f0, mid, fmid) && *self == mid.after_home_check());
                }
            },
            BlobState::GoToFood => {
                if contains_point(food, self.destination) {
                    let arrived = self.move_to();
                    if arrived {
                        let dest = self.destination;
                        self.eat();
                        self.state = BlobState::SearchFood;
                        remove_point(food, dest);
                        proof {
                            let i = choose|i: int|
                                0 <= i < f0.len() && f0[i] == dest && food@ == #[trigger] f0
                                    .remove(i);
                            f0.remove_ensures(i);
                            assert(all_in_world(self.settings, food@));
                            assert forall|p: Point| food@.contains(p) implies f0.contains(
                                p,
                            ) by {
                                let j = choose|j: int| 0 <= j < food@.len() && food@[j] == p;
                                if j < i {
                                    assert(f0[j] == p);
                                } else {
                                    assert(f0[j + 1] == p);
                                }
                            }
                        }
                    }
                    self.check_go_home();
                } else {
                    self.state = BlobState::SearchFood;
                    self.step_search(food);
                    let ghost mid = *self;
                    let ghost fmid = food@;
                    self.check_go_home();
                    proof {
                        assert(search_step_rel(pre.as_searching(), f0, mid, fmid) && *self == mid
                            .after_home_check());
                    }
                }
            },
            BlobState::GoHome => {
                let arrived = self.move_to();
                if arrived {
                    self.state = BlobState::AtHome;
                }
            },
            BlobState::AtHome => {},
        }
    }
}

/// How one tick relates a blob and the food pool before and after
/// `update`: the state machine's transition relation. Searching runs one
/// search step, which eats on same-tick arrival at a sensed food point;
/// chasing moves and on arrival eats, removes the meal from the pool, and
/// resumes searching — unless the meal is already gone, in which case the
/// search step re-runs within the same tick; heading home moves and
/// settles on arrival; a blob at home waits. The early-return-home rule
/// closes every searching or chasing tick.
pub open spec fn update_rel(pre: Blob, f0: Seq<Point>, post: Blob, f1: Seq<Point>) -> bool {
    match pre.state {
        BlobState::SearchFood => exists|mid: Blob|
            #[trigger] search_step_rel(pre, f0, mid, f1) && post == mid.after_home_check(),
        BlobState::GoToFood => {
            if f0.contains(pre.destination) {
                if pre.move_arrives() {
                    &&& exists|i: int|
                        0 <= i < f0.len() && f0[i] == pre.destination && f1 == #[trigger] f0
                            .remove(i)
                    &&& post == pre.goto_eat_result().after_home_check()
                } else {
                    f1 == f0 && post == pre.after_move().after_home_check()
                }
            } else {
                exists|mid: Blob|
                    #[trigger] search_step_rel(pre.as_searching(), f0, mid, f1) && post == mid
                        .after_home_check()
            }
        },
        BlobState::GoHome => f1 == f0 && post == pre.gohome_step(),
        BlobState::AtHome => f1 == f0 && post == pre,
    }
}

/// A blob's fate at the generation boundary, from its final state and
/// meal count alone: blobs that made it home live on one meal and also
/// reproduce on two; everyone else starves.
pub open spec fn generation_outcome(b: Blob) -> GenerationResult {
    if b.state == BlobState::AtHome {
        if b.food_found == 0 {
            GenerationResult::Starve
        } else if b.food_found == 1 {
            GenerationResult::Live
        } else {
            GenerationResult::Reproduce
        }
    } else {
        GenerationResult::Starve
    }
}

/// The configured mutation range of the stat picked by `m`: speed for 0,
/// sense for 1, size otherwise.
pub open spec fn mutation_range(s: Settings, m: u64) -> u64 {
    if m == 0 {
        s.blob_speed.1
    } else if m == 1 {
        s.blob_sense.1
    } else {
        s.blob_size.1
    }
}

/// A stat after one mutation: scaled by `1 + draw/SCALE - range/(2*SCALE)`
/// (a perturbation centered at one), then capped.
pub open spec fn mutated_stat(stat: u64, range: u64, draw: u64, cap: u64) -> u64 {
    let raw = stat * (SCALE + draw - range / 2) / (SCALE as int);
    if raw > cap {
        cap
    } else {
        raw as u64
    }
}

/// The stats of `child` come from `parent` by mutating exactly the stat
/// picked by `m` with the uniform draw `d`, copying the other two.
pub open spec fn evolve_stats_ok(parent: Blob, child: Blob, m: u64, d: u64) -> bool {
    &&& m < 3
    &&& d <= mutation_range(parent.settings, m)
    &&& child.speed == (if m == 0 {
        mutated_stat(parent.speed, parent.settings.blob_speed.1, d, TRAIT_MAX)
    } else {
        parent.speed
    })
    &&& child.sense == (if m == 1 {
        mutated_stat(parent.sense, parent.settings.blob_sense.1, d, SENSE_MAX)
    } else {
        parent.sense
    })
    &&& child.size == (if m == 2 {
        mutated_stat(parent.size, parent.settings.blob_size.1, d, TRAIT_MAX)
    } else {
        parent.size
    })
}

/// Apply one mutation to a stat.
fn mutate_stat(stat: u64, range: u64, draw: u64, cap: u64) -> (r: u64)
    requires
        stat <= SENSE_MAX,
        range <= crate::settings::MUTATION_RANGE_MAX,
        draw <= range,
    ensures
        r == mutated_stat(stat, range, draw, cap),
        r <= cap,
{
    let factor = SCALE + draw - range / 2;
    assert(stat * factor <= 3_000_000_000u64) by (nonlinear_arith)
        requires
            stat <= 10_000_000u64,
            factor <= 300u64,
    ;
    let raw = stat * factor / SCALE;
    if raw > cap {
        cap
    } else {
        raw
    }
}

impl Blob {
    /// A fresh blob with the configured base stats and energy, searching
    /// from a random position toward a random destination.
    pub fn new(id: u64, settings: &Settings) -> (b: Blob)
        requires
            settings.wf(),
        ensures
            b.wf(),
            b.id == id,
            b.settings == *settings,
            b.energy == settings.spec_blob_energy(),
            b.speed == settings.spec_blob_speed().0,
            b.sense == settings.spec_blob_sense().0,
            b.size == settings.spec_blob_size().0,
            b.state == BlobState::SearchFood,
            b.food_found == 0,
            in_world(*settings, b.position),
            in_world(*settings, b.destination),
    {
        let b = Blob {
            id,
            energy: settings.blob_energy() as u128,
            speed: settings.blob_speed().0,
            sense: settings.blob_sense().0,
            size: settings.blob_size().0,
            state: BlobState::SearchFood,
            food_found: 0,
            destination: random_point(settings),
            position: random_point(settings),
            settings: *settings,
        };
        proof {
            lemma_eat_gain_bounded(b);
        }
        b
    }

    /// The blob's fate at a generation boundary, from its final state and
    /// meal count; the blob itself is reset for the next generation: base
    /// energy scaled by size, searching again, meals cleared, position and
    /// destination re-randomized. Stats and identity are kept.
    pub fn next_gen(&mut self) -> (r: GenerationResult)
        requires
            old(self).wf(),
        ensures
            r == generation_outcome(*old(self)),
            final(self).wf(),
            final(self).state == BlobState::SearchFood,
            final(self).food_found == 0,
            final(self).energy == reset_energy(old(self).settings, old(self).size),
            in_world(final(self).settings, final(self).position),
            in_world(final(self).settings, final(self).destination),
            final(self).id == old(self).id,
            final(self).speed == old(self).speed,
            final(self).sense == old(self).sense,
            final(self).size == old(self).size,
            final(self).settings == old(self).settings,
    {
        let result = match self.state {
            BlobState::AtHome => {
                if self.food_found == 0 {
                    GenerationResult::Starve
                } else if self.food_found == 1 {
                    GenerationResult::Live
                } else {
                    GenerationResult::Reproduce
                }
            },
            _ => GenerationResult::Starve,
        };
        assert(self.settings.blob_energy as int * self.size as int
            <= 50_000_000_000_000_000_000) by (nonlinear_arith)
            requires
                self.settings.blob_energy <= 500_000_000_000_000u64,
                self.size <= 100_000u64,
        ;
        self.energy = (self.settings.blob_energy() as u128) * (self.size as u128) / (
        SCALE as u128);
        self.state = BlobState::SearchFood;
        self.food_found = 0;
        self.position = random_point(&self.settings);
        self.destination = random_point(&self.settings);
        proof {
            lemma_div_pos_is_pos((self.settings.blob_energy * self.size) as int, SCALE as int);
            lemma_div_is_ordered(
                (self.settings.blob_energy * self.size) as int,
                50_000_000_000_000_000_000,
                SCALE as int,
            );
            assert(50_000_000_000_000_000_000int / 100 == 500_000_000_000_000_000int);
            lemma_eat_gain_bounded(*self);
            assert(self.energy <= 500_000_000_000_000_000u128);
            assert(self.energy + 2 * self.eat_gain() <= crate::ENERGY_CAP);
        }
        result
    }

    /// A mutated child of a surviving parent, with the given fresh id and
    /// the given uniform draws: `modifier` picks which stat mutates, `draw`
    /// sets the perturbation. Energy starts at the base scaled by the
    /// child's size; position and destination are re-randomized; the
    /// settings are shared with the parent.
    pub fn evolve_with(parent: &Blob, id: u64, modifier: u64, draw: u64) -> (child: Blob)
        requires
            parent.wf(),
            modifier < 3,
            draw <= mutation_range(parent.settings, modifier),
        ensures
            child.wf(),
            evolve_stats_ok(*parent, child, modifier, draw),
            child.id == id,
            child.state == BlobState::SearchFood,
            child.food_found == 0,
            child.settings == parent.settings,
            child.energy == reset_energy(parent.settings, child.size),
            in_world(parent.settings, child.position),
            in_world(parent.settings, child.destination),
    {
        let speed = if modifier == 0 {
            mutate_stat(parent.speed, parent.settings.blob_speed().1, draw, TRAIT_MAX)
        } else {
            parent.speed
        };
        let sense = if modifier == 1 {
            mutate_stat(parent.sense, parent.settings.blob_sense().1, draw, SENSE_MAX)
        } else {
            parent.sense
        };
        let size = if modifier == 2 {
            mutate_stat(parent.size, parent.settings.blob_size().1, draw, TRAIT_MAX)
        } else {
            parent.size
        };
        assert(parent.settings.blob_energy as int * size as int <= 50_000_000_000_000_000_000)
            by (nonlinear_arith)
            requires
                parent.settings.blob_energy <= 500_000_000_000_000u64,
                size <= 100_000u64,
        ;
        let energy = (parent.settings.blob_energy() as u128) * (size as u128) / (SCALE as u128);
        let child = Blob {
            id,
            energy,
            speed,
            sense,
            size,
            state: BlobState::SearchFood,
            food_found: 0,
            destination: random_point(&parent.settings),
            position: random_point(&parent.settings),
            settings: parent.settings,
        };
        proof {
            lemma_div_pos_is_pos((parent.settings.blob_energy * size) as int, SCALE as int);
            lemma_div_is_ordered(
                (parent.settings.blob_energy * size) as int,
                50_000_000_000_000_000_000,
                SCALE as int,
            );
            assert(50_000_000_000_000_000_000int / 100 == 500_000_000_000_000_000int);
            lemma_eat_gain_bounded(child);
            assert(child.energy <= 500_000_000_000_000_000u128);
            assert(child.energy + 2 * child.eat_gain() <= crate::ENERGY_CAP);
        }
        child
    }

    /// A mutated child of a surviving parent: one of the three stats,
    /// picked uniformly at random, mutates by a uniform perturbation.
    pub fn evolve(parent: &Blob, id: u64) -> (child: Blob)
        requires
            parent.wf(),
        ensures
            child.wf(),
            child.id == id,
            child.state == BlobState::SearchFood,
            child.food_found == 0,
            child.settings == parent.settings,
            child.energy == reset_energy(parent.settings, child.size),
            in_world(parent.settings, child.position),
            in_world(parent.settings, child.destination),
            exists|m: u64, d: u64| #[trigger] evolve_stats_ok(*parent, child, m, d),
    {
        let modifier = random_below(3);
        let range = if modifier == 0 {
            parent.settings.blob_speed().1
        } else if modifier == 1 {
            parent.settings.blob_sense().1
        } else {
            parent.settings.blob_size().1
        };
        let draw = if range == 0 {
            0
        } else {
            random_below(range)
        };
        let child = Self::evolve_with(parent, id, modifier, draw);
        proof {
            assert(evolve_stats_ok(*parent, child, modifier, draw));
        }
        child
    }

    /// A blob assembled from explicit parts, for callers that place agents
    /// deliberately: succeeds exactly when the parts form a well-formed
    /// blob.
    pub fn with_params(
        id: u64,
        settings: &Settings,
        speed: u64,
        sense: u64,
        size: u64,
        energy: u128,
        state: BlobState,
        food_found: u8,
        position: Point,
        destination: Point,
    ) -> (r: Option<Blob>)
        ensures
            ({
                let b = Blob {
                    id,
                    energy,
                    speed,
                    sense,
                    size,
                    state,
                    food_found,
                    destination,
                    position,
                    settings: *settings,
                };
                &&& (r is Some <==> b.wf())
                &&& (r matches Some(v) ==> v == b)
            }),
    {
        if !settings.is_wf() {
            return None;
        }
        let (w, h) = settings.world_size();
        let stats_ok = speed <= TRAIT_MAX && sense <= SENSE_MAX && size <= TRAIT_MAX
            && food_found <= 2;
        let is_home = match state {
            BlobState::GoHome => true,
            BlobState::AtHome => true,
            _ => false,
        };
        let home_ok = food_found != 2 || is_home;
        let pos_ok = position.x <= w && position.y <= h && destination.x <= w && destination.y
            <= h;
        if !(stats_ok && home_ok && pos_ok) {
            return None;
        }
        assert(settings.sim_food_energy as int * size as int <= 25_000_000_000_000_000_000)
            by (nonlinear_arith)
            requires
                settings.sim_food_energy <= 250_000_000_000_000u64,
                size <= 100_000u64,
        ;
        let gain: u128 = (settings.food_energy() as u128) * (size as u128) / (SCALE as u128);
        proof {
            lemma_div_pos_is_pos((settings.sim_food_energy * size) as int, SCALE as int);
            lemma_div_is_ordered(
                (settings.sim_food_energy * size) as int,
                25_000_000_000_000_000_000,
                SCALE as int,
            );
        }
        assert(25_000_000_000_000_000_000int / 100 == 250_000_000_000_000_000int);
        assert((2 - food_found as u128) as int * gain as int <= 500_000_000_000_000_000)
            by (nonlinear_arith)
            requires
                food_found <= 2,
                gain <= 250_000_000_000_000_000u128,
        ;
        let rem: u128 = (2 - food_found as u128) * gain;
        if energy <= crate::ENERGY_CAP - rem {
            Some(
                Blob {
                    id,
                    energy,
                    speed,
                    sense,
                    size,
                    state,
                    food_found,
                    destination,
                    position,
                    settings: *settings,
                },
            )
        } else {
            None
        }
    }

    /// Current energy reserve.
    pub fn energy(&self) -> (r: u128)
        ensures
            r == self.energy,
    {
        self.energy
    }

    /// Speed stat, in hundredths.
    pub fn speed(&self) -> (r: u64)
        ensures
            r == self.speed,
    {
        self.speed
    }

    /// Sense radius, in world units.
    pub fn sense(&self) -> (r: u64)
        ensures
            r == self.sense,
    {
        self.sense
    }

    /// Size stat, in hundredths.
    pub fn size(&self) -> (r: u64)
        ensures
            r == self.size,
    {
        self.size
    }

    /// Current behavioral state.
    pub fn state(&self) -> (r: BlobState)
        ensures
            r == self.state,
    {
        self.state
    }

    /// Meals found this generation.
    pub fn food_found(&self) -> (r: u8)
        ensures
            r == self.food_found,
    {
        self.food_found
    }

    /// The blob's identity.
    pub fn id(&self) -> (r: u64)
        ensures
            r == self.id,
    {
        self.id
    }

    /// Current position.
    pub fn position(&self) -> (r: Point)
        ensures
            r == self.position,
    {
        self.position
    }

    /// Current destination.
    pub fn destination(&self) -> (r: Point)
        ensures
            r == self.destination,
    {
        self.destination
    }
}

/// With well-formed settings and a bounded size, one meal's gain is at
/// most a quarter of `ENERGY_CAP`.
proof fn lemma_eat_gain_bounded(b: Blob)
    requires
        b.settings.sim_food_energy <= crate::settings::FOOD_ENERGY_MAX,
        b.size <= TRAIT_MAX,
    ensures
        0 <= b.eat_gain() <= 250_000_000_000_000_000,
{
    assert(b.settings.sim_food_energy as int * b.size as int <= 25_000_000_000_000_000_000)
        by (nonlinear_arith)
        requires
            b.settings.sim_food_energy <= 250_000_000_000_000u64,
            b.size <= 100_000u64,
    ;
    lemma_div_pos_is_pos((b.settings.sim_food_energy * b.size) as int, SCALE as int);
    lemma_div_is_ordered(
        (b.settings.sim_food_energy * b.size) as int,
        25_000_000_000_000_000_000,
        SCALE as int,
    );
}

/// Law: movement never drives the energy reserve negative. Under the
/// insufficient-energy branch nothing is debited and nothing moves; under
/// the sufficient branch exactly the step's cost, which the reserve
/// covers, is debited.
pub proof fn lemma_move_energy_nonnegative(b: Blob)
    requires
        b.wf_core(),
    ensures
        b.after_move().energy >= 0,
        b.can_move() ==> move_cost(b.step_len(), b.speed as int, b.size as int) <= b.energy
            && b.after_move().energy == b.energy - move_cost(
            b.step_len(),
            b.speed as int,
            b.size as int,
        ),
        !b.can_move() ==> b.after_move().energy == b.energy && b.after_move().position
            == b.position,
{
    crate::geometry::lemma_dist_sq_bound(b.position, b.destination);
    crate::geometry::lemma_sqrt_floor_exists(dist_sq(b.position, b.destination));
}

/// Law: the movement cost `len * speed^2 * size^3` is monotone in speed
/// and size; doubling the size at a fixed distance and speed multiplies
/// the cost by exactly eight.
pub proof fn lemma_move_cost_monotonic(len: int, s1: int, s2: int, z1: int, z2: int)
    requires
        0 <= len,
        0 <= s1 <= s2,
        0 <= z1 <= z2,
    ensures
        move_cost(len, s1, z1) <= move_cost(len, s2, z2),
{
    assert(len * s1 * s1 * z1 * z1 * z1 <= len * s2 * s2 * z2 * z2 * z2) by (nonlinear_arith)
        requires
            0 <= len,
            0 <= s1 <= s2,
            0 <= z1 <= z2,
    ;
}

/// Law: with a positive distance and positive stats the cost is strictly
/// monotone — raising speed or size strictly raises the cost.
pub proof fn lemma_move_cost_strictly_monotonic(len: int, s1: int, s2: int, z1: int, z2: int)
    requires
        0 < len,
        0 < s1 <= s2,
        0 < z1 <= z2,
        s1 < s2 || z1 < z2,
    ensures
        move_cost(len, s1, z1) < move_cost(len, s2, z2),
{
    assert(len * s1 * s1 * z1 * z1 * z1 < len * s2 * s2 * z2 * z2 * z2) by (nonlinear_arith)
        requires
            0 < len,
            0 < s1 <= s2,
            0 < z1 <= z2,
            s1 < s2 || z1 < z2,
    ;
}

/// Law: doubling size multiplies the movement cost by eight.
pub proof fn lemma_move_cost_size_doubling(len: int, speed: int, size: int)
    ensures
        move_cost(len, speed, 2 * size) == 8 * move_cost(len, speed, size),
{
    assert(len * speed * speed * (2 * size) * (2 * size) * (2 * size) == 8 * (len * speed * speed
        * size * size * size)) by (nonlinear_arith);
}

/// Law: a chaser whose destination was eaten by another blob re-runs the
/// search step within the same tick — the tick relation hands it the
/// whole searching transition, pool effects included.
pub proof fn lemma_goto_missing_food_searches_same_tick(
    pre: Blob,
    f0: Seq<Point>,
    post: Blob,
    f1: Seq<Point>,
)
    requires
        update_rel(pre, f0, post, f1),
        pre.state == BlobState::GoToFood,
        !f0.contains(pre.destination),
    ensures
        exists|mid: Blob|
            #[trigger] search_step_rel(pre.as_searching(), f0, mid, f1) && post
                == mid.after_home_check(),
{
}

/// Law: the generation outcome is Reproduce exactly for blobs at home
/// with two or more meals, Live exactly for blobs at home with one meal,
/// and Starve in every other case.
pub proof fn lemma_generation_outcome_cases(b: Blob)
    ensures
        generation_outcome(b) == GenerationResult::Reproduce <==> (b.state == BlobState::AtHome
            && b.food_found >= 2),
        generation_outcome(b) == GenerationResult::Live <==> (b.state == BlobState::AtHome
            && b.food_found == 1),
        generation_outcome(b) == GenerationResult::Starve <==> (b.state != BlobState::AtHome
            || b.food_found == 0),
{
}

/// Law: food contention resolves by processing order. When two chasers
/// target the one food point of the pool and the first one's move
/// arrives, then after both ticks the first has counted the meal, the
/// second has not and has fallen back to searching, and the pool is
/// empty — it shrank by exactly one element.
pub proof fn lemma_food_contention(
    first: Blob,
    first_post: Blob,
    second: Blob,
    second_post: Blob,
    f0: Seq<Point>,
    f1: Seq<Point>,
    f2: Seq<Point>,
    p: Point,
)
    requires
        first.wf(),
        second.wf(),
        update_rel(first, f0, first_post, f1),
        update_rel(second, f1, second_post, f2),
        first.state == BlobState::GoToFood,
        second.state == BlobState::GoToFood,
        first.destination == p,
        second.destination == p,
        f0 == seq![p],
    ensures
        first.move_arrives() ==> {
            &&& first_post.food_found == first.food_found + 1
            &&& second_post.food_found == second.food_found
            &&& f2.len() == f0.len() - 1
        },
{
    if first.move_arrives() {
        assert(f0[0] == p);
        assert(f0.contains(p));
        let k = choose|k: int| 0 <= k < f0.len() && f0[k] == p && f1 == #[trigger] f0.remove(k);
        f0.remove_ensures(k);
        assert(f1.len() == 0);
        assert(!f1.contains(p));
        let mid = choose|mid: Blob|
            #[trigger] search_step_rel(second.as_searching(), f1, mid, f2) && second_post
                == mid.after_home_check();
        let d = choose|d: Point| #[trigger] search_step_with(second.as_searching(), f1, mid, f2, d);
        assert(!second.as_searching().has_food_in_sense(f1));
    }
}

/// Law: evolution mutates at most the one stat picked by the modifier;
/// the other two are copied from the parent exactly.
pub proof fn lemma_evolve_mutates_one_stat(parent: Blob, child: Blob, m: u64, d: u64)
    requires
        evolve_stats_ok(parent, child, m, d),
    ensures
        m == 0 ==> child.sense == parent.sense && child.size == parent.size,
        m == 1 ==> child.speed == parent.speed && child.size == parent.size,
        m == 2 ==> child.speed == parent.speed && child.sense == parent.sense,
{
}

/// Whether the pool holds the given point.
fn contains_point(food: &Vec<Point>, p: Point) -> (r: bool)
    ensures
        r == food@.contains(p),
{
    let mut i: usize = 0;
    while i < food.len()
        invariant
            0 <= i <= food@.len(),
            forall|j: int| 0 <= j < i ==> food@[j] != p,
        decreases food@.len() - i,
    {
        if food[i] == p {
            return true;
        }
        i = i + 1;
    }
    false
}

/// Remove the first occurrence of the given point from the pool.
fn remove_point(food: &mut Vec<Point>, p: Point)
    requires
        old(food)@.contains(p),
    ensures
        exists|i: int|
            0 <= i < old(food)@.len() && old(food)@[i] == p && final(food)@ == #[trigger] old(
                food,
            )@.remove(i),
{
    let ghost f0 = food@;
    let mut i: usize = 0;
    while i < food.len()
        invariant
            f0 == old(food)@,
            food@ == f0,
            f0.contains(p),
            0 <= i <= f0.len(),
            forall|j: int| 0 <= j < i ==> f0[j] != p,
        decreases f0.len() - i,
    {
        if food[i] == p {
            food.remove(i);
            assert(food@ == old(food)@.remove(i as int));
            return ;
        }
        i = i + 1;
    }
    proof {
        let j = choose|j: int| 0 <= j < f0.len() && f0[j] == p;
        assert(false);
    }
}

} // verus!
