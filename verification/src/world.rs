//! The world's bookkeeping: its snakes by id, the snakes that changed or
//! died, its clock, its sectors and the food scattered over them.
//!
//! The world is generic in the snake type: a snake's body is floating point
//! and is moved by the caller, who keeps it here under its id.

use vstd::prelude::*;
use std::collections::HashMap;
use vstd::std_specs::iter::IteratorSpec;
use rand::rngs::StdRng;
use rand::{Rng, SeedableRng};
use crate::config::{SnakeId, WorldConfig};
use crate::food::Food;
use crate::sector::{edge, is_grid, spec_sector_index, Sector, SectorSeq};

verus! {

broadcast use {
    vstd::std_specs::hash::group_hash_axioms,
    vstd::seq_lib::group_seq_properties,
};

/// `rand::rngs::StdRng`, the world's random number generator.
#[verifier::external_type_specification]
#[verifier::external_body]
pub struct ExStdRng(StdRng);

/// `SeedableRng::from_entropy`: a generator seeded by the operating system
/// (the source panics where the system gives no entropy). Nothing is claimed
/// of its state.
#[verifier::external_body]
fn rng_from_entropy() -> StdRng {
    StdRng::from_entropy()
}

/// `Rng::gen_range(low..high)` for `u16`: a value in the range, which must
/// not be empty (the source panics on an empty range). Which value comes out
/// is left to chance.
#[verifier::external_body]
fn rng_range_u16(rng: &mut StdRng, low: u16, high: u16) -> (r: u16)
    requires
        low < high,
    ensures
        low <= r < high,
{
    rng.gen_range(low..high)
}

/// `Rng::gen_range(low..high)` for `u8`: a value in the range, which must
/// not be empty (the source panics on an empty range). Which value comes out
/// is left to chance.
#[verifier::external_body]
fn rng_range_u8(rng: &mut StdRng, low: u8, high: u8) -> (r: u8)
    requires
        low < high,
    ensures
        low <= r < high,
{
    rng.gen_range(low..high)
}

/// `HashMap::get_mut` (no specification in vstd): the value under `id`, if
/// there is one, borrowed so that whatever is left in it ends up in the map
/// under `id`; the map is otherwise unchanged.
#[verifier::external_body]
fn map_get_mut<'a, S>(m: &'a mut HashMap<SnakeId, S>, id: SnakeId) -> (r: Option<&'a mut S>)
    ensures
        match r {
            Some(v) => {
                &&& old(m)@.contains_key(id)
                &&& *v == old(m)@[id]
                &&& final(m)@ == old(m)@.insert(id, *final(v))
            },
            None => !old(m)@.contains_key(id) && final(m)@ == old(m)@,
        },
{
    m.get_mut(&id)
}

/// The number of food pellets in a list of sectors.
pub open spec fn total_food(s: Seq<Sector>) -> nat
    decreases s.len(),
{
    if s.len() == 0 {
        0
    } else {
        total_food(s.drop_last()) + s.last().food@.len()
    }
}

/// Changing one sector changes the total by the change in its food.
proof fn lemma_total_food_update(s: Seq<Sector>, i: int, v: Sector)
    requires
        0 <= i < s.len(),
    ensures
        total_food(s.update(i, v)) + s[i].food@.len() == total_food(s) + v.food@.len(),
    decreases s.len(),
{
    let t = s.update(i, v);
    if i == s.len() - 1 {
        assert(t.drop_last() =~= s.drop_last());
    } else {
        lemma_total_food_update(s.drop_last(), i, v);
        assert(t.drop_last() =~= s.drop_last().update(i, v));
    }
}

/// Whether pellet `f` was scattered properly into sector `i`: it lies in the
/// world, in that sector, with a size from 5 to 14 and a color below 28.
pub open spec fn scattered_into(f: Food, i: int) -> bool {
    &&& f.x < 2 * WorldConfig::GAME_RADIUS
    &&& f.y < 2 * WorldConfig::GAME_RADIUS
    &&& spec_sector_index(f.x, f.y) == i
    &&& 5 <= f.size < 15
    &&& f.color < 28
}

/// Whether `new` is `old` with pellets added at the end of sectors' food,
/// each properly scattered into its sector, and nothing else changed.
pub open spec fn food_added(old: Seq<Sector>, new: Seq<Sector>) -> bool {
    &&& new.len() == old.len()
    &&& forall|i: int|
        0 <= i < old.len() ==> {
            &&& (#[trigger] new[i]).x == old[i].x
            &&& new[i].y == old[i].y
            &&& new[i].box_x == old[i].box_x
            &&& new[i].box_y == old[i].box_y
            &&& new[i].snakes@ == old[i].snakes@
            &&& old[i].food@.len() <= new[i].food@.len()
            &&& new[i].food@.take(old[i].food@.len() as int) == old[i].food@
            &&& forall|k: int|
                old[i].food@.len() <= k < new[i].food@.len() ==> scattered_into(
                    #[trigger] new[i].food@[k],
                    i,
                )
        }
}

proof fn lemma_food_added_refl(s: Seq<Sector>)
    ensures
        food_added(s, s),
{
    assert forall|i: int| 0 <= i < s.len() implies s[i].food@.take(s[i].food@.len() as int) == s[i].food@ by {
        assert(s[i].food@.take(s[i].food@.len() as int) =~= s[i].food@);
    }
}

/// The world: snakes by id, the ids of dead and changed snakes, the sectors,
/// the id handed out last, the clock (milliseconds not yet spent on a frame,
/// frames so far), the configuration and the random number generator.
#[derive(Debug)]
pub struct World<S> {
    snakes: HashMap<SnakeId, S>,
    dead: Vec<SnakeId>,
    sectors: SectorSeq,
    changes: Vec<SnakeId>,
    last_snake_id: SnakeId,
    ticks: i64,
    frames: u32,
    config: WorldConfig,
    rng: StdRng,
}

impl<S> World<S> {
    /// The snakes by id.
    pub closed spec fn snake_map(self) -> Map<SnakeId, S> {
        self.snakes@
    }

    /// The ids of the snakes removed since the last flush, in order.
    pub closed spec fn dead_ids(self) -> Seq<SnakeId> {
        self.dead@
    }

    /// The ids of the snakes that changed in the last frame, in order.
    pub closed spec fn changed_ids(self) -> Seq<SnakeId> {
        self.changes@
    }

    /// The sectors.
    pub closed spec fn sector_list(self) -> Seq<Sector> {
        self.sectors@
    }

    /// The id handed out last.
    pub closed spec fn last_id(self) -> SnakeId {
        self.last_snake_id
    }

    /// Milliseconds not yet spent on a frame.
    pub closed spec fn pending_ticks(self) -> i64 {
        self.ticks
    }

    /// Frames run so far.
    pub closed spec fn frame_count(self) -> u32 {
        self.frames
    }

    /// The world's configuration.
    pub closed spec fn world_config(self) -> WorldConfig {
        self.config
    }

    /// The world's random number generator.
    pub closed spec fn generator(self) -> StdRng {
        self.rng
    }

    /// An empty world with the default configuration and a generator seeded
    /// by the operating system.
    pub fn new() -> (w: Self)
        ensures
            w.snake_map() == Map::<SnakeId, S>::empty(),
            w.dead_ids() == Seq::<SnakeId>::empty(),
            w.changed_ids() == Seq::<SnakeId>::empty(),
            w.sector_list() == Seq::<Sector>::empty(),
            w.last_id() == 0,
            w.pending_ticks() == 0,
            w.frame_count() == 0,
            w.world_config() == (WorldConfig { bots: 0, snake_average_length: 2, snake_min_length: 2 }),
    {
        World {
            snakes: HashMap::new(),
            dead: Vec::new(),
            sectors: SectorSeq::new(),
            changes: Vec::new(),
            last_snake_id: 0,
            ticks: 0,
            frames: 0,
            config: WorldConfig::default(),
            rng: rng_from_entropy(),
        }
    }

    /// Lays out the grid of empty sectors.
    pub fn init_sectors(&mut self)
        ensures
            is_grid(final(self).sector_list()),
            forall|i: int|
                0 <= i < final(self).sector_list().len() ==> (#[trigger] final(self).sector_list()[i]).snakes@.len()
                    == 0 && final(self).sector_list()[i].food@.len() == 0,
            final(self).snake_map() == old(self).snake_map(),
            final(self).dead_ids() == old(self).dead_ids(),
            final(self).changed_ids() == old(self).changed_ids(),
            final(self).last_id() == old(self).last_id(),
            final(self).pending_ticks() == old(self).pending_ticks(),
            final(self).frame_count() == old(self).frame_count(),
            final(self).world_config() == old(self).world_config(),
    {
        self.sectors.init_sectors();
    }

    /// Scatters 1000 pellets at random over the world: each at a random
    /// point, with a random size from 5 to 14 and a random color below 28,
    /// added to the food of the sector that holds the point. A pellet whose
    /// sector the list does not reach is dropped; on a list of at least as
    /// many sectors as the grid has, none is.
    pub fn init_food(&mut self)
        ensures
            food_added(old(self).sector_list(), final(self).sector_list()),
            total_food(final(self).sector_list()) <= total_food(old(self).sector_list()) + 1000,
            old(self).sector_list().len() >= edge() * edge() ==> total_food(final(self).sector_list())
                == total_food(old(self).sector_list()) + 1000,
            final(self).snake_map() == old(self).snake_map(),
            final(self).dead_ids() == old(self).dead_ids(),
            final(self).changed_ids() == old(self).changed_ids(),
            final(self).last_id() == old(self).last_id(),
            final(self).pending_ticks() == old(self).pending_ticks(),
            final(self).frame_count() == old(self).frame_count(),
            final(self).world_config() == old(self).world_config(),
    {
        let ghost start = self.sectors@;
        proof {
            lemma_food_added_refl(start);
        }
        let food_count: u32 = 1000;
        let mut n: u32 = 0;
        while n < food_count
            invariant
                0 <= n <= food_count,
                food_count == 1000,
                food_added(start, self.sectors@),
                total_food(self.sectors@) <= total_food(start) + n,
                start.len() >= edge() * edge() ==> total_food(self.sectors@) == total_food(start) + n,
                self.snakes@ == old(self).snakes@,
                self.dead@ == old(self).dead@,
                self.changes@ == old(self).changes@,
                self.last_snake_id == old(self).last_snake_id,
                self.ticks == old(self).ticks,
                self.frames == old(self).frames,
                self.config == old(self).config,
                start == old(self).sectors@,
            decreases food_count - n,
        {
            let x = rng_range_u16(&mut self.rng, 0, 2 * WorldConfig::GAME_RADIUS);
            let y = rng_range_u16(&mut self.rng, 0, 2 * WorldConfig::GAME_RADIUS);
            let size = rng_range_u8(&mut self.rng, 5, 15);
            let color = rng_range_u8(&mut self.rng, 0, 28);
            let food = Food::new(x, y, size, color);
            let ghost before = self.sectors@;
            match self.sectors.get_sector_mut(x, y) {
                Some(sector) => {
                    sector.insert_food(food);
                },
                None => {},
            }
            proof {
                let i = spec_sector_index(x, y);
                if i < before.len() {
                    lemma_total_food_update(before, i, self.sectors@[i]);
                    assert forall|j: int| 0 <= j < start.len() implies {
                        &&& (#[trigger] self.sectors@[j]).x == start[j].x
                        &&& self.sectors@[j].y == start[j].y
                        &&& self.sectors@[j].box_x == start[j].box_x
                        &&& self.sectors@[j].box_y == start[j].box_y
                        &&& self.sectors@[j].snakes@ == start[j].snakes@
                        &&& start[j].food@.len() <= self.sectors@[j].food@.len()
                        &&& self.sectors@[j].food@.take(start[j].food@.len() as int) == start[j].food@
                        &&& forall|k: int|
                            start[j].food@.len() <= k < self.sectors@[j].food@.len() ==> scattered_into(
                                #[trigger] self.sectors@[j].food@[k],
                                j,
                            )
                    } by {
                        if j == i {
                            assert(self.sectors@[j].food@ == before[j].food@.push(food));
                            assert(self.sectors@[j].food@.take(start[j].food@.len() as int) =~= before[j].food@.take(start[j].food@.len() as int));
                        }
                    }
                } else {
                    crate::sector::lemma_point_index_within_grid(x, y);
                }
            }
            n = n + 1;
        }
    }

    /// Sets the configuration, lays out the grid of sectors and scatters
    /// 1000 pellets over it.
    pub fn init(&mut self, config: WorldConfig)
        ensures
            final(self).world_config() == config,
            is_grid(final(self).sector_list()),
            total_food(final(self).sector_list()) == 1000,
            forall|i: int|
                0 <= i < final(self).sector_list().len() ==> {
                    &&& (#[trigger] final(self).sector_list()[i]).snakes@.len() == 0
                    &&& forall|k: int|
                        0 <= k < final(self).sector_list()[i].food@.len() ==> scattered_into(
                            #[trigger] final(self).sector_list()[i].food@[k],
                            i,
                        )
                },
            final(self).snake_map() == old(self).snake_map(),
            final(self).dead_ids() == old(self).dead_ids(),
            final(self).changed_ids() == old(self).changed_ids(),
            final(self).last_id() == old(self).last_id(),
            final(self).pending_ticks() == old(self).pending_ticks(),
            final(self).frame_count() == old(self).frame_count(),
    {
        self.config = config;
        self.init_sectors();
        let ghost laid = self.sectors@;
        proof {
            lemma_no_food(laid);
        }
        self.init_food();
        proof {
            let s = self.sectors@;
            assert forall|i: int| 0 <= i < s.len() implies {
                &&& (#[trigger] s[i]).snakes@.len() == 0
                &&& forall|k: int| 0 <= k < s[i].food@.len() ==> scattered_into(#[trigger] s[i].food@[k], i)
            } by {
                assert(laid[i].food@.len() == 0);
            }
        }
    }

    /// Hands out the next snake id: one more than the last.
    pub fn next_snake_id(&mut self) -> (id: SnakeId)
        requires
            old(self).last_id() < u16::MAX,
        ensures
            id == old(self).last_id() + 1,
            final(self).last_id() == id,
            final(self).snake_map() == old(self).snake_map(),
            final(self).dead_ids() == old(self).dead_ids(),
            final(self).changed_ids() == old(self).changed_ids(),
            final(self).sector_list() == old(self).sector_list(),
            final(self).pending_ticks() == old(self).pending_ticks(),
            final(self).frame_count() == old(self).frame_count(),
            final(self).world_config() == old(self).world_config(),
    {
        self.last_snake_id = self.last_snake_id + 1;
        self.last_snake_id
    }

    /// Draws the number of parts of a new snake: three more than the larger
    /// of the minimum length and a random number below the average length.
    /// An average above `u16::MAX - 2` is left out by `requires`: with it,
    /// some draws would give a length past `u16::MAX`, which overflows.
    pub fn roll_snake_length(&mut self) -> (len: u16)
        requires
            old(self).world_config().snake_average_length > 0,
            old(self).world_config().snake_min_length <= u16::MAX - 3,
            old(self).world_config().snake_average_length <= u16::MAX - 2,
        ensures
            exists|roll: u16|
                roll < old(self).world_config().snake_average_length && len == spec_snake_length(
                    old(self).world_config().snake_min_length,
                    roll,
                ),
            final(self).last_id() == old(self).last_id(),
            final(self).snake_map() == old(self).snake_map(),
            final(self).dead_ids() == old(self).dead_ids(),
            final(self).changed_ids() == old(self).changed_ids(),
            final(self).sector_list() == old(self).sector_list(),
            final(self).pending_ticks() == old(self).pending_ticks(),
            final(self).frame_count() == old(self).frame_count(),
            final(self).world_config() == old(self).world_config(),
    {
        let roll = rng_range_u16(&mut self.rng, 0, self.config.snake_average_length);
        snake_length(self.config.snake_min_length, roll)
    }

    /// Draws the skin of a new snake, from 9 to 29.
    pub fn roll_skin(&mut self) -> (skin: u8)
        ensures
            9 <= skin < 30,
            final(self).last_id() == old(self).last_id(),
            final(self).snake_map() == old(self).snake_map(),
            final(self).dead_ids() == old(self).dead_ids(),
            final(self).changed_ids() == old(self).changed_ids(),
            final(self).sector_list() == old(self).sector_list(),
            final(self).pending_ticks() == old(self).pending_ticks(),
            final(self).frame_count() == old(self).frame_count(),
            final(self).world_config() == old(self).world_config(),
    {
        rng_range_u8(&mut self.rng, 9, 30)
    }

    /// The random number generator, for the draws that the caller makes:
    /// the world's own generator, lent so that whatever state the caller's
    /// draws leave it in stays the world's.
    pub fn rng_mut(&mut self) -> (rng: &mut StdRng)
        ensures
            *rng == old(self).generator(),
            final(self).generator() == *final(rng),
            final(self).last_id() == old(self).last_id(),
            final(self).snake_map() == old(self).snake_map(),
            final(self).dead_ids() == old(self).dead_ids(),
            final(self).changed_ids() == old(self).changed_ids(),
            final(self).sector_list() == old(self).sector_list(),
            final(self).pending_ticks() == old(self).pending_ticks(),
            final(self).frame_count() == old(self).frame_count(),
            final(self).world_config() == old(self).world_config(),
    {
        &mut self.rng
    }

    /// Adds `dt` milliseconds to the clock and returns the time of the whole
    /// frames (of 8 ms) that are due, or zero when none is. The frames are
    /// counted (their number kept to 32 bits) and their time taken off the
    /// clock.
    pub fn advance_clock(&mut self, dt: i64) -> (frame_time: i64)
        requires
            i64::MIN <= old(self).pending_ticks() + dt <= i64::MAX,
            old(self).pending_ticks() + dt >= 8 ==> old(self).frame_count() + ((old(self).pending_ticks()
                + dt) / 8) % 4294967296 <= u32::MAX,
        ensures
            ({
                let t = old(self).pending_ticks() + dt;
                if t >= 8 {
                    &&& frame_time == (t / 8) * 8
                    &&& final(self).frame_count() == old(self).frame_count() + (t / 8) % 4294967296
                } else {
                    &&& frame_time == 0
                    &&& final(self).frame_count() == old(self).frame_count()
                }
            }),
            final(self).pending_ticks() + frame_time == old(self).pending_ticks() + dt,
            frame_time == clock_frame_time(old(self).pending_ticks() as int, dt as int),
            final(self).pending_ticks() == clock_rest(old(self).pending_ticks() as int, dt as int),
            old(self).pending_ticks() + dt >= 0 ==> 0 <= final(self).pending_ticks() < 8,
            final(self).last_id() == old(self).last_id(),
            final(self).snake_map() == old(self).snake_map(),
            final(self).dead_ids() == old(self).dead_ids(),
            final(self).changed_ids() == old(self).changed_ids(),
            final(self).sector_list() == old(self).sector_list(),
            final(self).world_config() == old(self).world_config(),
    {
        let frame_ms = WorldConfig::FRAME_TIME_MS as i64;
        self.ticks = self.ticks + dt;
        if self.ticks >= frame_ms {
            let vfr = self.ticks / frame_ms;
            let vfr_time = vfr * frame_ms;
            self.ticks = self.ticks - vfr_time;
            let count = (vfr % 4294967296) as u32;
            self.frames = self.frames + count;
            vfr_time
        } else {
            0
        }
    }

    /// Forgets the changes of the last frame.
    pub fn reset_changes(&mut self)
        ensures
            final(self).changed_ids() == Seq::<SnakeId>::empty(),
            final(self).last_id() == old(self).last_id(),
            final(self).snake_map() == old(self).snake_map(),
            final(self).dead_ids() == old(self).dead_ids(),
            final(self).sector_list() == old(self).sector_list(),
            final(self).pending_ticks() == old(self).pending_ticks(),
            final(self).frame_count() == old(self).frame_count(),
            final(self).world_config() == old(self).world_config(),
    {
        self.changes.clear();
    }

    /// Records that snake `id` changed in this frame.
    pub fn record_change(&mut self, id: SnakeId)
        ensures
            final(self).changed_ids() == old(self).changed_ids().push(id),
            final(self).last_id() == old(self).last_id(),
            final(self).snake_map() == old(self).snake_map(),
            final(self).dead_ids() == old(self).dead_ids(),
            final(self).sector_list() == old(self).sector_list(),
            final(self).pending_ticks() == old(self).pending_ticks(),
            final(self).frame_count() == old(self).frame_count(),
            final(self).world_config() == old(self).world_config(),
    {
        self.changes.push(id);
    }

    /// The ids of the snakes, each once, in the map's iteration order.
    pub fn snake_ids(&self) -> (ids: Vec<SnakeId>)
        ensures
            ids@.to_set() == self.snake_map().dom(),
            ids@.no_duplicates(),
    {
        let ghost keys = vstd::std_specs::hash::spec_keys_iter(&self.snakes).remaining();
        let mut ids: Vec<SnakeId> = Vec::new();
        for k in it: self.snakes.keys()
            invariant
                it.seq() == keys,
                ids@ == it.seq().take(it.index() as int).unref(),
        {
            ids.push(*k);
            assert(it.seq().take(it.index() + 1).unref() =~= ids@);
        }
        proof {
            assert(ids@ =~= keys.unref());
            assert forall|a: int, b: int| 0 <= a < b < ids@.len() implies ids@[a] != ids@[b] by {
                assert(keys[a] != keys[b]);
            }
        }
        ids
    }

    /// Adds (or replaces) snake `id`.
    pub fn add_snake(&mut self, id: SnakeId, snake: S)
        ensures
            final(self).snake_map() == old(self).snake_map().insert(id, snake),
            final(self).last_id() == old(self).last_id(),
            final(self).dead_ids() == old(self).dead_ids(),
            final(self).changed_ids() == old(self).changed_ids(),
            final(self).sector_list() == old(self).sector_list(),
            final(self).pending_ticks() == old(self).pending_ticks(),
            final(self).frame_count() == old(self).frame_count(),
            final(self).world_config() == old(self).world_config(),
    {
        self.snakes.insert(id, snake);
    }

    /// Removes snake `id` and records it as dead.
    pub fn remove_snake(&mut self, id: SnakeId)
        ensures
            final(self).snake_map() == old(self).snake_map().remove(id),
            final(self).dead_ids() == old(self).dead_ids().push(id),
            final(self).last_id() == old(self).last_id(),
            final(self).changed_ids() == old(self).changed_ids(),
            final(self).sector_list() == old(self).sector_list(),
            final(self).pending_ticks() == old(self).pending_ticks(),
            final(self).frame_count() == old(self).frame_count(),
            final(self).world_config() == old(self).world_config(),
    {
        self.snakes.remove(&id);
        self.dead.push(id);
    }

    /// Snake `id`, if there is one.
    pub fn get_snake(&self, id: SnakeId) -> (r: Option<&S>)
        ensures
            match r {
                Some(s) => self.snake_map().contains_key(id) && *s == self.snake_map()[id],
                None => !self.snake_map().contains_key(id),
            },
    {
        self.snakes.get(&id)
    }

    /// Snake `id`, for change, if there is one.
    pub fn get_snake_mut(&mut self, id: SnakeId) -> (r: Option<&mut S>)
        ensures
            match r {
                Some(s) => {
                    &&& old(self).snake_map().contains_key(id)
                    &&& *s == old(self).snake_map()[id]
                    &&& final(self).snake_map() == old(self).snake_map().insert(id, *final(s))
                },
                None => !old(self).snake_map().contains_key(id) && final(self).snake_map() == old(
                    self,
                ).snake_map(),
            },
            final(self).last_id() == old(self).last_id(),
            final(self).dead_ids() == old(self).dead_ids(),
            final(self).changed_ids() == old(self).changed_ids(),
            final(self).sector_list() == old(self).sector_list(),
            final(self).pending_ticks() == old(self).pending_ticks(),
            final(self).frame_count() == old(self).frame_count(),
            final(self).world_config() == old(self).world_config(),
    {
        map_get_mut(&mut self.snakes, id)
    }

    /// All snakes by id.
    pub fn get_snakes(&self) -> (m: &HashMap<SnakeId, S>)
        ensures
            m@ == self.snake_map(),
    {
        &self.snakes
    }

    /// All snakes by id, for change.
    pub fn get_snakes_mut(&mut self) -> (m: &mut HashMap<SnakeId, S>)
        ensures
            m@ == old(self).snake_map(),
            final(self).snake_map() == final(m)@,
            final(self).last_id() == old(self).last_id(),
            final(self).dead_ids() == old(self).dead_ids(),
            final(self).changed_ids() == old(self).changed_ids(),
            final(self).sector_list() == old(self).sector_list(),
            final(self).pending_ticks() == old(self).pending_ticks(),
            final(self).frame_count() == old(self).frame_count(),
            final(self).world_config() == old(self).world_config(),
    {
        &mut self.snakes
    }

    /// The sectors.
    pub fn get_sectors(&self) -> (s: &SectorSeq)
        ensures
            s@ == self.sector_list(),
    {
        &self.sectors
    }

    /// The sectors, for change.
    pub fn get_sectors_mut(&mut self) -> (s: &mut SectorSeq)
        ensures
            s@ == old(self).sector_list(),
            final(self).sector_list() == final(s)@,
            final(self).last_id() == old(self).last_id(),
            final(self).snake_map() == old(self).snake_map(),
            final(self).dead_ids() == old(self).dead_ids(),
            final(self).changed_ids() == old(self).changed_ids(),
            final(self).pending_ticks() == old(self).pending_ticks(),
            final(self).frame_count() == old(self).frame_count(),
            final(self).world_config() == old(self).world_config(),
    {
        &mut self.sectors
    }

    /// The ids of the snakes removed since the last flush.
    pub fn get_dead(&self) -> (d: &Vec<SnakeId>)
        ensures
            d@ == self.dead_ids(),
    {
        &self.dead
    }

    /// The ids of the snakes that changed in the last frame.
    pub fn get_changed_snakes(&self) -> (c: &Vec<SnakeId>)
        ensures
            c@ == self.changed_ids(),
    {
        &self.changes
    }

    /// The id handed out last.
    pub fn get_last_snake_id(&self) -> (id: SnakeId)
        ensures
            id == self.last_id(),
    {
        self.last_snake_id
    }

    /// Milliseconds not yet spent on a frame.
    pub fn get_ticks(&self) -> (t: i64)
        ensures
            t == self.pending_ticks(),
    {
        self.ticks
    }

    /// Frames run so far.
    pub fn get_frames(&self) -> (f: u32)
        ensures
            f == self.frame_count(),
    {
        self.frames
    }

    /// The world's configuration.
    pub fn get_config(&self) -> (c: &WorldConfig)
        ensures
            *c == self.world_config(),
    {
        &self.config
    }

    /// Forgets the changed and the dead snakes.
    pub fn flush_changes(&mut self)
        ensures
            final(self).changed_ids() == Seq::<SnakeId>::empty(),
            final(self).dead_ids() == Seq::<SnakeId>::empty(),
            final(self).last_id() == old(self).last_id(),
            final(self).snake_map() == old(self).snake_map(),
            final(self).sector_list() == old(self).sector_list(),
            final(self).pending_ticks() == old(self).pending_ticks(),
            final(self).frame_count() == old(self).frame_count(),
            final(self).world_config() == old(self).world_config(),
    {
        self.changes.clear();
        self.dead.clear();
    }
}

/// The frame time that one advance of the clock by `dt` hands out, from
/// `pending` milliseconds not yet spent: the whole frames (of 8 ms) in
/// `pending + dt`, or zero when there is not one.
pub open spec fn clock_frame_time(pending: int, dt: int) -> int {
    let t = pending + dt;
    if t >= 8 {
        (t / 8) * 8
    } else {
        0
    }
}

/// The milliseconds left pending after one advance of the clock by `dt`.
pub open spec fn clock_rest(pending: int, dt: int) -> int {
    pending + dt - clock_frame_time(pending, dt)
}

/// The milliseconds left pending after advancing the clock by each of `dts`
/// in turn.
pub open spec fn clock_after(pending: int, dts: Seq<int>) -> int
    decreases dts.len(),
{
    if dts.len() == 0 {
        pending
    } else {
        clock_rest(clock_after(pending, dts.drop_last()), dts.last())
    }
}

/// The frame time handed out in all, advancing the clock by each of `dts` in
/// turn.
pub open spec fn clock_handed(pending: int, dts: Seq<int>) -> int
    decreases dts.len(),
{
    if dts.len() == 0 {
        0
    } else {
        clock_handed(pending, dts.drop_last()) + clock_frame_time(
            clock_after(pending, dts.drop_last()),
            dts.last(),
        )
    }
}

/// The sum of `dts`.
pub open spec fn total_time(dts: Seq<int>) -> int
    decreases dts.len(),
{
    if dts.len() == 0 {
        0
    } else {
        total_time(dts.drop_last()) + dts.last()
    }
}

/// Over any run of clock advances by non-negative amounts, starting with
/// less than a frame pending, the frame time handed out in all is the whole
/// frames of the total time, `8 * ((pending + total) / 8)`, and less than a
/// frame stays pending after every advance.
pub proof fn lemma_clock_run(pending: int, dts: Seq<int>)
    requires
        0 <= pending < 8,
        forall|k: int| 0 <= k < dts.len() ==> dts[k] >= 0,
    ensures
        0 <= clock_after(pending, dts) < 8,
        clock_handed(pending, dts) % 8 == 0,
        clock_handed(pending, dts) + clock_after(pending, dts) == pending + total_time(dts),
        clock_handed(pending, dts) == 8 * ((pending + total_time(dts)) / 8),
    decreases dts.len(),
{
    if dts.len() > 0 {
        let prefix = dts.drop_last();
        lemma_clock_run(pending, prefix);
        let p = clock_after(pending, prefix);
        let d = dts.last();
        let t = p + d;
        if t >= 8 {
            assert((t / 8) * 8 <= t < (t / 8) * 8 + 8) by (nonlinear_arith)
                requires
                    t >= 8,
            ;
            assert(((t / 8) * 8) % 8 == 0) by (nonlinear_arith);
        }
        let h = clock_handed(pending, prefix);
        let f = clock_frame_time(p, d);
        assert((h + f) % 8 == 0) by (nonlinear_arith)
            requires
                h % 8 == 0,
                f % 8 == 0,
        ;
    }
    let x = pending + total_time(dts);
    let h = clock_handed(pending, dts);
    let a = clock_after(pending, dts);
    assert(h == 8 * (x / 8)) by (nonlinear_arith)
        requires
            h % 8 == 0,
            h + a == x,
            0 <= a < 8,
    ;
}

/// The ids of the steps that reported a change, in order.
pub open spec fn changed_in(steps: Seq<(SnakeId, bool)>) -> Seq<SnakeId>
    decreases steps.len(),
{
    if steps.len() == 0 {
        Seq::empty()
    } else {
        let rest = changed_in(steps.drop_last());
        if steps.last().1 {
            rest.push(steps.last().0)
        } else {
            rest
        }
    }
}

/// The ids of the steps, in order.
pub open spec fn step_ids(steps: Seq<(SnakeId, bool)>) -> Seq<SnakeId> {
    steps.map_values(|s: (SnakeId, bool)| s.0)
}

/// A frame's changes: where each snake reports its step once, the changed
/// snakes are, each once, exactly those whose step reported a change.
pub proof fn lemma_frame_changes_each_once(steps: Seq<(SnakeId, bool)>)
    requires
        step_ids(steps).no_duplicates(),
    ensures
        changed_in(steps).no_duplicates(),
        forall|id: SnakeId|
            #[trigger] changed_in(steps).contains(id) <==> exists|k: int|
                0 <= k < steps.len() && steps[k] == (id, true),
    decreases steps.len(),
{
    if steps.len() > 0 {
        let prefix = steps.drop_last();
        assert(step_ids(prefix) =~= step_ids(steps).drop_last());
        lemma_frame_changes_each_once(prefix);
        let last = steps.last();
        assert forall|id: SnakeId|
            #[trigger] changed_in(steps).contains(id) <==> exists|k: int|
                0 <= k < steps.len() && steps[k] == (id, true) by {
            if changed_in(steps).contains(id) {
                if changed_in(prefix).contains(id) {
                    let k = choose|k: int| 0 <= k < prefix.len() && prefix[k] == (id, true);
                    assert(steps[k] == (id, true));
                } else {
                    assert(steps[steps.len() - 1] == (id, true));
                }
            }
            if exists|k: int| 0 <= k < steps.len() && steps[k] == (id, true) {
                let k = choose|k: int| 0 <= k < steps.len() && steps[k] == (id, true);
                if k < prefix.len() {
                    assert(prefix[k] == (id, true));
                    assert(changed_in(prefix).contains(id));
                } else {
                    assert(changed_in(steps) == changed_in(prefix).push(id));
                    assert(changed_in(steps)[changed_in(prefix).len() as int] == id);
                }
            }
        }
        if last.1 {
            if changed_in(prefix).contains(last.0) {
                let k = choose|k: int| 0 <= k < prefix.len() && prefix[k] == (last.0, true);
                assert(step_ids(steps)[k] == step_ids(steps)[steps.len() - 1]);
            }
        }
    }
}

/// The work of one frame: every snake of `ids` (each once) is to move by
/// `dt` milliseconds.
pub struct Frame {
    pub dt: i64,
    pub ids: Vec<SnakeId>,
}

impl<S> World<S> {
    /// Advances the clock by `dt` milliseconds. When whole frames are due,
    /// starts a frame: forgets the last frame's changes and returns the
    /// frames' whole time with the id of every snake, each once (in the
    /// map's order), for each snake to be moved by that time. When none is
    /// due, returns zero time and no id, and leaves the changes as they were.
    pub fn tick(&mut self, dt: i64) -> (frame: Frame)
        requires
            i64::MIN <= old(self).pending_ticks() + dt <= i64::MAX,
            old(self).pending_ticks() + dt >= 8 ==> old(self).frame_count() + ((old(self).pending_ticks()
                + dt) / 8) % 4294967296 <= u32::MAX,
        ensures
            frame.dt == clock_frame_time(old(self).pending_ticks() as int, dt as int),
            final(self).pending_ticks() == clock_rest(old(self).pending_ticks() as int, dt as int),
            ({
                let t = old(self).pending_ticks() + dt;
                if t >= 8 {
                    final(self).frame_count() == old(self).frame_count() + (t / 8) % 4294967296
                } else {
                    final(self).frame_count() == old(self).frame_count()
                }
            }),
            frame.dt > 0 ==> {
                &&& frame.ids@.no_duplicates()
                &&& frame.ids@.to_set() == old(self).snake_map().dom()
                &&& final(self).changed_ids() == Seq::<SnakeId>::empty()
            },
            frame.dt == 0 ==> {
                &&& frame.ids@ == Seq::<SnakeId>::empty()
                &&& final(self).changed_ids() == old(self).changed_ids()
            },
            final(self).snake_map() == old(self).snake_map(),
            final(self).dead_ids() == old(self).dead_ids(),
            final(self).sector_list() == old(self).sector_list(),
            final(self).last_id() == old(self).last_id(),
            final(self).world_config() == old(self).world_config(),
    {
        let frame_time = self.advance_clock(dt);
        if frame_time > 0 {
            self.reset_changes();
            let ids = self.snake_ids();
            Frame { dt: frame_time, ids }
        } else {
            Frame { dt: 0, ids: Vec::new() }
        }
    }

    /// Ends a frame: records as changed, after those already recorded, the
    /// snakes of `steps` whose step reported a change, in order.
    pub fn record_frame(&mut self, steps: &Vec<(SnakeId, bool)>)
        ensures
            final(self).changed_ids() == old(self).changed_ids() + changed_in(steps@),
            final(self).snake_map() == old(self).snake_map(),
            final(self).dead_ids() == old(self).dead_ids(),
            final(self).sector_list() == old(self).sector_list(),
            final(self).last_id() == old(self).last_id(),
            final(self).pending_ticks() == old(self).pending_ticks(),
            final(self).frame_count() == old(self).frame_count(),
            final(self).world_config() == old(self).world_config(),
    {
        let ghost start = self.changes@;
        let n = steps.len();
        for i in 0..n
            invariant
                n == steps@.len(),
                start == old(self).changes@,
                self.changes@ == start + changed_in(steps@.take(i as int)),
                self.snakes@ == old(self).snakes@,
                self.dead@ == old(self).dead@,
                self.sectors@ == old(self).sectors@,
                self.last_snake_id == old(self).last_snake_id,
                self.ticks == old(self).ticks,
                self.frames == old(self).frames,
                self.config == old(self).config,
        {
            let (id, changed) = steps[i];
            if changed {
                self.changes.push(id);
            }
            proof {
                assert(steps@.take(i + 1).drop_last() =~= steps@.take(i as int));
                assert(self.changes@ =~= start + changed_in(steps@.take(i + 1)));
            }
        }
        proof {
            assert(steps@.take(n as int) =~= steps@);
        }
    }
}

impl<S> Default for World<S> {
    fn default() -> (w: Self)
        ensures
            w.snake_map() == Map::<SnakeId, S>::empty(),
            w.dead_ids() == Seq::<SnakeId>::empty(),
            w.changed_ids() == Seq::<SnakeId>::empty(),
            w.sector_list() == Seq::<Sector>::empty(),
            w.last_id() == 0,
            w.pending_ticks() == 0,
            w.frame_count() == 0,
            w.world_config() == (WorldConfig { bots: 0, snake_average_length: 2, snake_min_length: 2 }),
    {
        Self::new()
    }
}

/// The number of parts of a new snake for a given draw: three more than the
/// larger of the minimum length and the draw.
pub open spec fn spec_snake_length(min_len: u16, roll: u16) -> int {
    3 + if min_len >= roll { min_len as int } else { roll as int }
}

/// A new snake has three parts more than the larger of the minimum length
/// and the draw: at least three more than each, and exactly three more than
/// one of them.
pub proof fn lemma_snake_length_is_larger_plus_three(min_len: u16, roll: u16)
    ensures
        spec_snake_length(min_len, roll) >= min_len + 3,
        spec_snake_length(min_len, roll) >= roll + 3,
        spec_snake_length(min_len, roll) == min_len + 3 || spec_snake_length(min_len, roll) == roll + 3,
{
}

/// The number of parts of a new snake for a given draw below the average
/// length.
pub fn snake_length(min_len: u16, roll: u16) -> (len: u16)
    requires
        spec_snake_length(min_len, roll) <= u16::MAX,
    ensures
        len == spec_snake_length(min_len, roll),
{
    let body = if min_len >= roll { min_len } else { roll };
    1 + 2 + body
}

/// Removing a snake takes it out of the world and records it as dead; every
/// other snake stays as it was.
pub proof fn lemma_removed_snake_is_gone<S>(before: World<S>, after: World<S>, id: SnakeId)
    requires
        after.snake_map() == before.snake_map().remove(id),
        after.dead_ids() == before.dead_ids().push(id),
    ensures
        !after.snake_map().contains_key(id),
        after.dead_ids().contains(id),
        forall|other: SnakeId|
            other != id ==> (#[trigger] after.snake_map().contains_key(other) == before.snake_map().contains_key(other))
                && (before.snake_map().contains_key(other) ==> after.snake_map()[other] == before.snake_map()[other]),
{
    assert(after.dead_ids()[before.dead_ids().len() as int] == id);
}

/// Sectors without food hold no food in total.
proof fn lemma_no_food(s: Seq<Sector>)
    requires
        forall|i: int| 0 <= i < s.len() ==> (#[trigger] s[i]).food@.len() == 0,
    ensures
        total_food(s) == 0,
    decreases s.len(),
{
    if s.len() > 0 {
        lemma_no_food(s.drop_last());
    }
}

} // verus!
