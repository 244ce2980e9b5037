//! The integer side of a snake's motion: its timers, its speed, its boost and
//! the change flags that it reports.
//!
//! Positions and headings are floating point and stay with the caller; this
//! module decides how many milliseconds of turning and moving a tick grants,
//! how the speed follows the boost, and which changes a tick reports.

use vstd::prelude::*;

verus! {

/// The head moved.
pub const CHANGE_POS: u8 = 1;
/// The heading changed.
pub const CHANGE_ANGLE: u8 = 2;
/// The wanted heading changed.
pub const CHANGE_WANGLE: u8 = 4;
/// The speed changed.
pub const CHANGE_SPEED: u8 = 8;
/// The fullness changed.
pub const CHANGE_FULLNESS: u8 = 16;
/// The snake is dying.
pub const CHANGE_DYING: u8 = 32;
/// The snake is dead.
pub const CHANGE_DEAD: u8 = 64;

/// Milliseconds that one movement frame takes at `speed` (pixels per
/// second): the time to cover one step of 42 pixels.
pub open spec fn movement_interval(speed: u16) -> int {
    42000int / (speed as int)
}

/// The speed that a snake heads for: the boost speed while accelerating,
/// the base speed otherwise.
pub open spec fn wanted_speed(acceleration: bool) -> u16 {
    if acceleration {
        SnakeMotion::BOOST_SPEED
    } else {
        SnakeMotion::BASE_MOVE_SPEED
    }
}

/// The speed after one adjustment: `speed` moved towards `wanted` by at most
/// `acc`, reaching it when it is within `acc`.
pub open spec fn next_speed(speed: u16, wanted: u16, acc: int) -> int {
    if speed == wanted {
        speed as int
    } else if speed < wanted {
        if wanted - speed <= acc { wanted as int } else { speed + acc }
    } else {
        if speed - wanted <= acc { wanted as int } else { speed - acc }
    }
}

/// An adjustment never overshoots: the new speed lies between the old one
/// and the wanted one, no farther from the wanted speed than before, and
/// equal to it once it was within reach. So a speed between the base and
/// the boost speed stays between them.
pub proof fn lemma_speed_approaches_wanted(speed: u16, wanted: u16, acc: int)
    requires
        acc >= 0,
    ensures
        speed <= wanted ==> speed <= next_speed(speed, wanted, acc) <= wanted,
        wanted <= speed ==> wanted <= next_speed(speed, wanted, acc) <= speed,
        (if speed <= wanted { wanted - speed <= acc } else { speed - wanted <= acc }) ==> next_speed(speed, wanted, acc) == wanted,
        SnakeMotion::BASE_MOVE_SPEED <= speed <= SnakeMotion::BOOST_SPEED
            && SnakeMotion::BASE_MOVE_SPEED <= wanted <= SnakeMotion::BOOST_SPEED
            ==> SnakeMotion::BASE_MOVE_SPEED <= next_speed(speed, wanted, acc) <= SnakeMotion::BOOST_SPEED,
        speed + acc < wanted ==> next_speed(speed, wanted, acc) == speed + acc,
        wanted + acc < speed ==> next_speed(speed, wanted, acc) == speed - acc,
{
}

/// A movement frame lasts the whole milliseconds that covering one step of
/// 42 pixels takes at `speed` pixels per second: the longest time in which
/// the snake moves no more than one step, and at least a millisecond.
pub proof fn lemma_movement_interval_covers_one_step(speed: u16)
    requires
        1 <= speed <= 42000,
    ensures
        movement_interval(speed) >= 1,
        movement_interval(speed) * speed <= 42000,
        42000 < (movement_interval(speed) + 1) * speed,
{
    let q = movement_interval(speed);
    let s = speed as int;
    assert(q * s <= 42000 < (q + 1) * s && q >= 1) by (nonlinear_arith)
        requires
            q == 42000int / s,
            1 <= s <= 42000,
    ;
}

/// A snake heads for the boost speed, 448 pixels per second, while it
/// boosts, and for the base speed, 185, otherwise.
pub proof fn lemma_wanted_speed(acceleration: bool)
    ensures
        acceleration ==> wanted_speed(acceleration) == 448,
        !acceleration ==> wanted_speed(acceleration) == 185,
{
}

/// Growing adds one part for each whole hundred of the volume, and at least
/// one part.
pub proof fn lemma_growth_one_part_per_hundred(volume: u16)
    ensures
        growth_count(volume) >= 1,
        growth_count(volume) * 100 <= (if volume >= 100 { volume as int } else { 100 }),
        (if volume >= 100 { volume as int } else { 100 }) < (growth_count(volume) + 1) * 100,
{
}

/// Shrinking removes one part for each whole hundred of the volume, and at
/// least one part, unless that would leave fewer than three parts (the
/// length taken as a 16-bit number), when it removes down to three.
pub proof fn lemma_shrink_one_part_per_hundred(volume: u16, len: int)
    requires
        len % 65536 >= 3,
    ensures
        0 <= shrink_count(volume, len) <= len % 65536 - 3,
        shrink_count(volume, len) * 100 <= (if volume >= 100 { volume as int } else { 100 }),
        shrink_count(volume, len) == len % 65536 - 3 || (if volume >= 100 { volume as int } else { 100 })
            < (shrink_count(volume, len) + 1) * 100,
        len % 65536 - 3 >= 1 ==> shrink_count(volume, len) >= 1,
{
}

/// The timers, speed and flags of a snake.
#[derive(Debug, Clone)]
pub struct SnakeMotion {
    /// Pixels per second.
    pub speed: u16,
    /// Whether the player asked for the boost.
    pub acceleration: bool,
    /// Whether the snake is steered by the server.
    pub bot: bool,
    /// The change flags reported so far (`CHANGE_*`).
    pub update: u8,
    /// Milliseconds of movement not yet spent on a frame.
    pub mov_ticks: i64,
    /// Milliseconds of turning not yet spent on a frame.
    pub rot_ticks: i64,
    /// Milliseconds of steering not yet spent on a decision.
    pub ai_ticks: i64,
}

impl SnakeMotion {
    pub const BASE_MOVE_SPEED: u16 = 185;
    pub const BOOST_SPEED: u16 = 448;
    pub const SPEED_ACCELERATION: u16 = 1000;
    pub const PARTS_SKIP_COUNT: usize = 3;
    pub const PARTS_START_MOVE_COUNT: usize = 4;
    /// Milliseconds per rotation frame: 1000 times the angle of one rotation
    /// step (42 / 448 * 4.125 radians) over the angular speed (4.125 rad/s),
    /// rounded down.
    pub const ROT_STEP_INTERVAL: i64 = 93;
    pub const AI_STEP_INTERVAL: i64 = 1000;

    /// A new snake's motion: base speed, no boost, no flags, no pending time.
    pub fn new() -> (m: Self)
        ensures
            m.speed == Self::BASE_MOVE_SPEED,
            !m.acceleration,
            !m.bot,
            m.update == 0,
            m.mov_ticks == 0,
            m.rot_ticks == 0,
            m.ai_ticks == 0,
    {
        SnakeMotion {
            speed: Self::BASE_MOVE_SPEED,
            acceleration: false,
            bot: false,
            update: 0,
            mov_ticks: 0,
            rot_ticks: 0,
            ai_ticks: 0,
        }
    }

    /// Whether the snake is dying or dead, so that it no longer moves.
    pub fn is_halted(&self) -> (r: bool)
        ensures
            r == (self.update & (CHANGE_DYING | CHANGE_DEAD) != 0),
    {
        self.update & (CHANGE_DYING | CHANGE_DEAD) != 0
    }

    /// Spends `dt` milliseconds on the server's steering of a bot and
    /// returns how many steering decisions are due (none for a player's
    /// snake). A decision falls due each full second once more than a
    /// second is pending.
    pub fn ai_step(&mut self, dt: i64) -> (frames: i64)
        requires
            old(self).bot ==> i64::MIN <= old(self).ai_ticks + dt <= i64::MAX,
        ensures
            final(self).speed == old(self).speed,
            final(self).acceleration == old(self).acceleration,
            final(self).bot == old(self).bot,
            final(self).update == old(self).update,
            final(self).mov_ticks == old(self).mov_ticks,
            final(self).rot_ticks == old(self).rot_ticks,
            !old(self).bot ==> frames == 0 && final(self).ai_ticks == old(self).ai_ticks,
            old(self).bot ==> {
                let t = old(self).ai_ticks + dt;
                if t > Self::AI_STEP_INTERVAL {
                    &&& frames == t / Self::AI_STEP_INTERVAL as int
                    &&& final(self).ai_ticks == t - frames * Self::AI_STEP_INTERVAL
                    &&& 0 <= final(self).ai_ticks < Self::AI_STEP_INTERVAL
                } else {
                    &&& frames == 0
                    &&& final(self).ai_ticks == t
                }
            },
    {
        if !self.bot {
            return 0;
        }
        self.ai_ticks = self.ai_ticks + dt;
        if self.ai_ticks > Self::AI_STEP_INTERVAL {
            let frames = self.ai_ticks / Self::AI_STEP_INTERVAL;
            self.ai_ticks = self.ai_ticks - frames * Self::AI_STEP_INTERVAL;
            frames
        } else {
            0
        }
    }

    /// Spends `dt` milliseconds of turning and returns the milliseconds
    /// that whole rotation frames take (zero when no frame is due).
    pub fn rotation_step(&mut self, dt: i64) -> (frames_ticks: i64)
        requires
            i64::MIN <= old(self).rot_ticks + dt <= i64::MAX,
        ensures
            final(self).speed == old(self).speed,
            final(self).acceleration == old(self).acceleration,
            final(self).bot == old(self).bot,
            final(self).update == old(self).update,
            final(self).mov_ticks == old(self).mov_ticks,
            final(self).ai_ticks == old(self).ai_ticks,
            ({
                let t = old(self).rot_ticks + dt;
                if t >= Self::ROT_STEP_INTERVAL {
                    &&& frames_ticks == (t / Self::ROT_STEP_INTERVAL as int) * Self::ROT_STEP_INTERVAL
                    &&& final(self).rot_ticks == t - frames_ticks
                    &&& 0 <= final(self).rot_ticks < Self::ROT_STEP_INTERVAL
                } else {
                    &&& frames_ticks == 0
                    &&& final(self).rot_ticks == t
                }
            }),
    {
        self.rot_ticks = self.rot_ticks + dt;
        if self.rot_ticks >= Self::ROT_STEP_INTERVAL {
            let frames = self.rot_ticks / Self::ROT_STEP_INTERVAL;
            assert(0 <= frames * Self::ROT_STEP_INTERVAL <= self.rot_ticks) by (nonlinear_arith)
                requires
                    frames == (self.rot_ticks as int) / (Self::ROT_STEP_INTERVAL as int),
                    self.rot_ticks >= Self::ROT_STEP_INTERVAL,
            ;
            let frames_ticks = frames * Self::ROT_STEP_INTERVAL;
            self.rot_ticks = self.rot_ticks - frames_ticks;
            frames_ticks
        } else {
            0
        }
    }

    /// Spends `dt` milliseconds of movement and returns the milliseconds
    /// that whole movement frames take at the current speed (zero when no
    /// frame is due). The speed must lie between 1 and 42000: above, a frame
    /// would last no whole millisecond and the frame count would divide by
    /// zero.
    pub fn movement_step(&mut self, dt: i64) -> (frames_ticks: i64)
        requires
            0 < old(self).speed <= 42000,
            i64::MIN <= old(self).mov_ticks + dt <= i64::MAX,
        ensures
            final(self).speed == old(self).speed,
            final(self).acceleration == old(self).acceleration,
            final(self).bot == old(self).bot,
            final(self).update == old(self).update,
            final(self).rot_ticks == old(self).rot_ticks,
            final(self).ai_ticks == old(self).ai_ticks,
            ({
                let t = old(self).mov_ticks + dt;
                let interval = movement_interval(old(self).speed);
                if t >= interval {
                    &&& frames_ticks == (t / interval) * interval
                    &&& final(self).mov_ticks == t - frames_ticks
                    &&& 0 <= final(self).mov_ticks < interval
                } else {
                    &&& frames_ticks == 0
                    &&& final(self).mov_ticks == t
                }
            }),
    {
        let interval: i64 = 1000 * (crate::config::WorldConfig::MOVE_STEP_DISTANCE as i64) / (self.speed as i64);
        assert(interval == movement_interval(self.speed));
        assert(interval >= 1) by (nonlinear_arith)
            requires
                interval == 42000int / (self.speed as int),
                1 <= self.speed <= 42000,
        ;
        self.mov_ticks = self.mov_ticks + dt;
        if self.mov_ticks >= interval {
            let frames = self.mov_ticks / interval;
            assert(0 <= frames * interval <= self.mov_ticks) by (nonlinear_arith)
                requires
                    frames == (self.mov_ticks as int) / (interval as int),
                    self.mov_ticks >= interval,
                    interval >= 1,
            ;
            let frames_ticks = frames * interval;
            self.mov_ticks = self.mov_ticks - frames_ticks;
            frames_ticks
        } else {
            0
        }
    }

    /// Decides the boost after a movement frame: a boosting snake of at most
    /// three parts stops boosting; a longer one pays for it (`true`: it is
    /// to shrink by a volume of 33).
    pub fn consume_boost(&mut self, parts_len: usize) -> (shrink: bool)
        ensures
            final(self).speed == old(self).speed,
            final(self).bot == old(self).bot,
            final(self).update == old(self).update,
            final(self).mov_ticks == old(self).mov_ticks,
            final(self).rot_ticks == old(self).rot_ticks,
            final(self).ai_ticks == old(self).ai_ticks,
            shrink == (old(self).acceleration && parts_len > 3),
            final(self).acceleration == (old(self).acceleration && parts_len > 3),
    {
        if self.acceleration {
            if parts_len <= 3 {
                self.acceleration = false;
                false
            } else {
                true
            }
        } else {
            false
        }
    }

    /// Moves the speed towards the wanted speed (boost or base) by at most
    /// `frames_ticks` pixels per second (the acceleration of 1000 px/s^2
    /// over that time, kept to 16 bits), without overshooting. Returns
    /// whether the speed was off the wanted speed.
    pub fn adjust_speed(&mut self, frames_ticks: i64) -> (changed: bool)
        requires
            0 <= frames_ticks,
            Self::SPEED_ACCELERATION * frames_ticks <= i64::MAX,
        ensures
            final(self).acceleration == old(self).acceleration,
            final(self).bot == old(self).bot,
            final(self).update == old(self).update,
            final(self).mov_ticks == old(self).mov_ticks,
            final(self).rot_ticks == old(self).rot_ticks,
            final(self).ai_ticks == old(self).ai_ticks,
            changed == (old(self).speed != wanted_speed(old(self).acceleration)),
            final(self).speed == next_speed(old(self).speed, wanted_speed(old(self).acceleration), (frames_ticks as int) % 65536),
    {
        let wanted = if self.acceleration { Self::BOOST_SPEED } else { Self::BASE_MOVE_SPEED };
        if self.speed == wanted {
            return false;
        }
        let scaled: i64 = (Self::SPEED_ACCELERATION as i64) * frames_ticks / 1000;
        assert(scaled == frames_ticks) by (nonlinear_arith)
            requires
                scaled == (1000 * frames_ticks) / 1000int,
                frames_ticks >= 0,
        ;
        let acc = (scaled % 65536) as u16;
        if wanted > self.speed {
            if wanted - self.speed <= acc {
                self.speed = wanted;
            } else {
                self.speed = self.speed + acc;
            }
        } else {
            if self.speed - wanted <= acc {
                self.speed = wanted;
            } else {
                self.speed = self.speed - acc;
            }
        }
        true
    }

    /// Reports the changes of a tick: a nonzero set of changes that differs
    /// from the flags reported so far is added to them and the tick counts
    /// as a change (`true`).
    pub fn commit_changes(&mut self, changes: u8) -> (reported: bool)
        ensures
            final(self).speed == old(self).speed,
            final(self).acceleration == old(self).acceleration,
            final(self).bot == old(self).bot,
            final(self).mov_ticks == old(self).mov_ticks,
            final(self).rot_ticks == old(self).rot_ticks,
            final(self).ai_ticks == old(self).ai_ticks,
            reported == (changes > 0 && changes != old(self).update),
            reported ==> final(self).update == old(self).update | changes,
            !reported ==> final(self).update == old(self).update,
    {
        if changes > 0 && changes != self.update {
            self.update = self.update | changes;
            true
        } else {
            false
        }
    }
}

/// The number of parts that growing by `volume` adds: one per hundred, and
/// at least one.
pub open spec fn growth_count(volume: u16) -> int {
    if volume / 100 >= 1 { (volume / 100) as int } else { 1 }
}

/// The number of parts that shrinking by `volume` removes from a snake of
/// `len` parts: one per hundred and at least one, but never below three
/// parts, the length being taken as a 16-bit number.
pub open spec fn shrink_count(volume: u16, len: int) -> int {
    let wanted = if volume / 100 >= 1 { (volume / 100) as int } else { 1 };
    let room = len % 65536 - 3;
    if wanted <= room { wanted } else { room }
}

/// The number of parts that growing by `volume` adds.
pub fn parts_to_add(volume: u16) -> (n: usize)
    ensures
        n == growth_count(volume),
{
    let q = volume / 100;
    if q >= 1 { q as usize } else { 1 }
}

/// The number of parts that shrinking by `volume` removes from a snake of
/// `len` parts (at least three parts as a 16-bit number).
pub fn parts_to_remove(volume: u16, len: usize) -> (n: usize)
    requires
        len % 65536 >= 3,
    ensures
        n == shrink_count(volume, len as int),
        n <= len - 3,
{
    let q = volume / 100;
    let wanted: u16 = if q >= 1 { q } else { 1 };
    let short_len = (len % 65536) as u16;
    let room = short_len - 3;
    if wanted <= room { wanted as usize } else { room as usize }
}

/// Grows a body by `volume`: copies of its last part are appended, as many
/// as `parts_to_add` gives. A body without parts stays empty.
pub fn grow_parts<T: Copy>(parts: &mut Vec<T>, volume: u16)
    requires
        old(parts)@.len() + growth_count(volume) <= usize::MAX,
    ensures
        old(parts)@.len() == 0 ==> final(parts)@ == old(parts)@,
        old(parts)@.len() > 0 ==> {
            &&& final(parts)@.len() == old(parts)@.len() + growth_count(volume)
            &&& final(parts)@.take(old(parts)@.len() as int) == old(parts)@
            &&& forall|k: int|
                old(parts)@.len() <= k < final(parts)@.len() ==> final(parts)@[k] == old(parts)@.last()
        },
{
    let n = parts_to_add(volume);
    let start = parts.len();
    let ghost orig = parts@;
    for i in 0..n
        invariant
            start == orig.len(),
            orig.len() + n <= usize::MAX,
            start == 0 ==> parts@ == orig,
            start > 0 ==> {
                &&& parts@.len() == start + i
                &&& parts@.take(start as int) == orig
                &&& forall|k: int| start <= k < parts@.len() ==> parts@[k] == orig.last()
            },
    {
        if parts.len() > 0 {
            let last = parts[parts.len() - 1];
            proof {
                if parts@.len() > start {
                    assert(parts@[parts@.len() - 1] == orig.last());
                } else {
                    assert(parts@ =~= parts@.take(start as int));
                }
            }
            parts.push(last);
            assert(parts@.take(start as int) =~= parts@.drop_last().take(start as int));
        }
    }
}

/// Shrinks a body by `volume`: its last parts are popped, as many as
/// `parts_to_remove` gives, and returned in the order they were popped
/// (from the tail towards the head).
pub fn shrink_parts<T: Copy>(parts: &mut Vec<T>, volume: u16) -> (removed: Vec<T>)
    requires
        old(parts)@.len() % 65536 >= 3,
    ensures
        final(parts)@ == old(parts)@.take(old(parts)@.len() - shrink_count(volume, old(parts)@.len() as int)),
        removed@ == old(parts)@.skip(final(parts)@.len() as int).reverse(),
        final(parts)@.len() >= 3,
{
    let n = parts_to_remove(volume, parts.len());
    let ghost orig = parts@;
    let mut removed: Vec<T> = Vec::new();
    for i in 0..n
        invariant
            n <= orig.len() - 3,
            n == shrink_count(volume, orig.len() as int),
            parts@ == orig.take(orig.len() - i),
            removed@ == orig.skip(orig.len() - i).reverse(),
    {
        if parts.len() > 3 {
            match parts.pop() {
                Some(part) => {
                    removed.push(part);
                },
                None => {},
            }
        }
        assert(parts@ =~= orig.take(orig.len() - (i + 1)));
        assert(removed@ =~= orig.skip(orig.len() - (i + 1)).reverse());
    }
    removed
}

/// The body after the parts at positions `1..end` have each moved up to
/// where the part ahead of them was: position 0 stays, position `i` takes
/// what `i - 1` held (position 0 counting as `lead`), and the parts from
/// `end` on stay.
pub open spec fn shifted_parts<T>(parts: Seq<T>, lead: T, end: int) -> Seq<T> {
    parts.take(1) + parts.update(0, lead).take(end - 1) + parts.skip(end)
}

/// Moves the parts at positions `1..end` one place along the body, each to
/// where the part ahead of it was, the first of them to `lead` (where the
/// head was before it moved). Returns what position `end - 1` held before
/// (`lead` when `end` is 1): where the part at `end` moves next.
pub fn shift_parts<T: Copy>(parts: &mut Vec<T>, lead: T, end: usize) -> (carried: T)
    requires
        1 <= end <= old(parts)@.len(),
    ensures
        final(parts)@ == shifted_parts(old(parts)@, lead, end as int),
        carried == old(parts)@.update(0, lead)[end - 1],
{
    let ghost orig = parts@;
    let mut prev = lead;
    let mut i: usize = 1;
    while i < end
        invariant
            1 <= i <= end <= orig.len(),
            parts@.len() == orig.len(),
            parts@ == shifted_parts(orig, lead, i as int),
            prev == orig.update(0, lead)[i - 1],
        decreases end - i,
    {
        let old_part = parts[i];
        parts[i] = prev;
        prev = old_part;
        i = i + 1;
        assert(parts@ =~= shifted_parts(orig, lead, i as int));
    }
    prev
}

} // verus!
