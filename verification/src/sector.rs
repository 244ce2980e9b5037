//! Spatial partitioning: the square grid of sectors that covers the world,
//! the food and snakes that each sector holds, and the sets of sectors that
//! a snake's bounding box and its client's viewport overlap.
//!
//! Whether a circle overlaps a sector is a floating-point test that the
//! caller makes; the functions here take its outcome for every sector.

use vstd::prelude::*;
use crate::config::{SnakeId, WorldConfig};
use crate::food::{Food, FoodSeq};
use crate::seqs::{
    lemma_concat_no_duplicates, lemma_filter_contains_iff, lemma_filter_no_duplicates,
    lemma_filter_take_step, lemma_swap_keeps_multiset,
};

verus! {

broadcast use vstd::seq_lib::group_seq_properties;

/// Sector indices in increasing order.
pub open spec fn sorted_indices(s: Seq<usize>) -> bool {
    forall|a: int, b: int| 0 <= a < b < s.len() ==> s[a] <= s[b]
}

/// Food in order of increasing `x`.
pub open spec fn sorted_by_x(s: Seq<Food>) -> bool {
    forall|a: int, b: int| 0 <= a < b < s.len() ==> s[a].x <= s[b].x
}

/// The pellets of `s` whose `x` is `k`, in their order in `s`.
pub open spec fn with_x(s: Seq<Food>, k: u16) -> Seq<Food> {
    s.filter(|f: Food| f.x == k)
}

/// Sorts indices into increasing order, keeping each index as often as it
/// occurs.
fn sort_indices(v: &mut Vec<usize>)
    ensures
        sorted_indices(final(v)@),
        final(v)@.to_multiset() == old(v)@.to_multiset(),
{
    let n = v.len();
    let ghost orig = v@.to_multiset();
    let mut i: usize = 0;
    while i < n
        invariant
            v.len() == n,
            0 <= i <= n,
            v@.to_multiset() == orig,
            forall|a: int, b: int| 0 <= a < b < i ==> v@[a] <= v@[b],
        decreases n - i,
    {
        let mut j: usize = i;
        while j > 0 && v[j - 1] > v[j]
            invariant
                v.len() == n,
                0 <= j <= i < n,
                v@.to_multiset() == orig,
                forall|a: int, b: int| 0 <= a < b <= i && a != j && b != j ==> v@[a] <= v@[b],
                forall|b: int| j < b <= i ==> v@[j as int] <= v@[b],
            decreases j,
        {
            let lo = v[j - 1];
            let hi = v[j];
            proof {
                lemma_swap_keeps_multiset(v@, j - 1, j as int);
            }
            v.set(j - 1, hi);
            v.set(j, lo);
            j = j - 1;
        }
        i = i + 1;
    }
}

/// Swapping two neighbours that do not both satisfy `p` keeps the entries
/// that satisfy `p` in their order.
proof fn lemma_swap_keeps_filter<T>(s: Seq<T>, j: int, p: spec_fn(T) -> bool)
    requires
        0 < j < s.len(),
        !(p(s[j - 1]) && p(s[j])),
    ensures
        s.update(j - 1, s[j]).update(j, s[j - 1]).filter(p) == s.filter(p),
{
    let t = s.update(j - 1, s[j]).update(j, s[j - 1]);
    let pre = s.take(j - 1);
    let post = s.skip(j + 1);
    let mid = seq![s[j - 1], s[j]];
    let tmid = seq![s[j], s[j - 1]];
    assert(s =~= pre + mid + post);
    assert(t =~= pre + tmid + post);
    Seq::filter_distributes_over_add(pre + mid, post, p);
    Seq::filter_distributes_over_add(pre, mid, p);
    Seq::filter_distributes_over_add(pre + tmid, post, p);
    Seq::filter_distributes_over_add(pre, tmid, p);
    reveal_with_fuel(Seq::<_>::filter, 3);
    assert(mid.drop_last() =~= seq![s[j - 1]]);
    assert(tmid.drop_last() =~= seq![s[j]]);
    assert(seq![s[j - 1]].drop_last() =~= Seq::<T>::empty());
    assert(seq![s[j]].drop_last() =~= Seq::<T>::empty());
    assert(mid.filter(p) =~= tmid.filter(p));
}

/// Sorts pellets by `x`, keeping pellets with equal `x` in their order.
fn sort_food_by_x(v: &mut Vec<Food>)
    ensures
        sorted_by_x(final(v)@),
        final(v)@.to_multiset() == old(v)@.to_multiset(),
        forall|k: u16| with_x(final(v)@, k) == with_x(old(v)@, k),
{
    let n = v.len();
    let ghost orig = v@;
    let mut i: usize = 0;
    while i < n
        invariant
            v.len() == n,
            0 <= i <= n,
            v@.to_multiset() == orig.to_multiset(),
            forall|k: u16| with_x(v@, k) == with_x(orig, k),
            forall|a: int, b: int| 0 <= a < b < i ==> v@[a].x <= v@[b].x,
        decreases n - i,
    {
        let mut j: usize = i;
        while j > 0 && v[j - 1].x > v[j].x
            invariant
                v.len() == n,
                0 <= j <= i < n,
                v@.to_multiset() == orig.to_multiset(),
                forall|k: u16| with_x(v@, k) == with_x(orig, k),
                forall|a: int, b: int| 0 <= a < b <= i && a != j && b != j ==> v@[a].x <= v@[b].x,
                forall|b: int| j < b <= i ==> v@[j as int].x <= v@[b].x,
            decreases j,
        {
            let lo = v[j - 1];
            let hi = v[j];
            proof {
                lemma_swap_keeps_multiset(v@, j - 1, j as int);
                assert forall|k: u16| with_x(v@.update(j - 1, v@[j as int]).update(j as int, v@[j - 1]), k) == with_x(v@, k) by {
                    lemma_swap_keeps_filter(v@, j as int, |f: Food| f.x == k);
                }
            }
            v.set(j - 1, hi);
            v.set(j, lo);
            j = j - 1;
        }
        i = i + 1;
    }
}

/// The entries of `v` other than `x`, in order.
fn without(v: &Vec<usize>, x: usize) -> (r: Vec<usize>)
    ensures
        r@ == v@.filter(|s: usize| s != x),
{
    let mut r: Vec<usize> = Vec::new();
    for i in 0..v.len()
        invariant
            r@ == v@.take(i as int).filter(|s: usize| s != x),
    {
        proof {
            lemma_filter_take_step(v@, i as int, |s: usize| s != x);
        }
        if v[i] != x {
            r.push(v[i]);
        }
    }
    assert(v@.take(v.len() as int) =~= v@);
    r
}

/// Whether `x` occurs in `v`.
fn occurs(v: &Vec<usize>, x: usize) -> (r: bool)
    ensures
        r == v@.contains(x),
{
    for i in 0..v.len()
        invariant
            forall|j: int| 0 <= j < i ==> v@[j] != x,
    {
        if v[i] == x {
            return true;
        }
    }
    false
}

/// What `insert_sector` leaves: the record, with the sector added at the
/// end unless it was there already.
pub open spec fn with_sector(recorded: Seq<usize>, idx: usize) -> Seq<usize> {
    if recorded.contains(idx) {
        recorded
    } else {
        recorded.push(idx)
    }
}

/// Recording a sector makes it present, adds nothing else, and keeps a
/// record without repeats without repeats; recording it again changes
/// nothing.
pub proof fn lemma_insert_records_once(recorded: Seq<usize>, idx: usize)
    ensures
        with_sector(recorded, idx).contains(idx),
        forall|x: usize| #[trigger] with_sector(recorded, idx).contains(x) <==> (recorded.contains(x) || x == idx),
        recorded.no_duplicates() ==> with_sector(recorded, idx).no_duplicates(),
        with_sector(with_sector(recorded, idx), idx) == with_sector(recorded, idx),
{
    let after = with_sector(recorded, idx);
    if !recorded.contains(idx) {
        assert(after[recorded.len() as int] == idx);
        assert forall|x: usize| #[trigger] after.contains(x) <==> (recorded.contains(x) || x == idx) by {
            if after.contains(x) {
                let k = choose|k: int| 0 <= k < after.len() && after[k] == x;
                if k < recorded.len() {
                    assert(recorded[k] == x);
                }
            }
            if recorded.contains(x) {
                let k = choose|k: int| 0 <= k < recorded.len() && recorded[k] == x;
                assert(after[k] == x);
            }
        }
        if recorded.no_duplicates() {
            assert forall|a: int, b: int| 0 <= a < b < after.len() implies after[a] != after[b] by {
                if b == recorded.len() {
                    assert(recorded.contains(recorded[a]));
                }
            }
        }
    }
}

/// A circle in the world together with the sectors that it overlaps.
#[derive(Debug, Clone)]
pub struct BoundBox {
    pub id: SnakeId,
    pub sectors: Vec<usize>,
}

impl BoundBox {
    /// The box of snake `id`, overlapping no sector yet.
    pub fn new(id: SnakeId) -> (b: Self)
        ensures
            b.id == id,
            b.sectors@ == Seq::<usize>::empty(),
    {
        BoundBox { id, sectors: Vec::new() }
    }

    /// Records that the box overlaps sector `sector_idx` (once).
    pub fn insert_sector(&mut self, sector_idx: usize)
        ensures
            final(self).id == old(self).id,
            final(self).sectors@ == with_sector(old(self).sectors@, sector_idx),
    {
        if !occurs(&self.sectors, sector_idx) {
            self.sectors.push(sector_idx);
        }
    }

    /// Whether the box is recorded to overlap sector `sector_idx`.
    pub fn is_present(&self, sector_idx: usize) -> (r: bool)
        ensures
            r == self.sectors@.contains(sector_idx),
    {
        occurs(&self.sectors, sector_idx)
    }

    /// Forgets every record of sector `sector_idx`.
    pub fn remove_sector(&mut self, sector_idx: usize)
        ensures
            final(self).id == old(self).id,
            final(self).sectors@ == old(self).sectors@.filter(|s: usize| s != sector_idx),
    {
        self.sectors = without(&self.sectors, sector_idx);
    }

    /// Puts the recorded sectors in increasing order.
    pub fn sort_sectors(&mut self)
        ensures
            final(self).id == old(self).id,
            sorted_indices(final(self).sectors@),
            final(self).sectors@.to_multiset() == old(self).sectors@.to_multiset(),
    {
        sort_indices(&mut self.sectors);
    }
}

/// One square of the grid: its column and row, the center of the circle
/// that encloses it, and the snakes and food in it.
#[derive(Debug, Clone)]
pub struct Sector {
    pub x: u8,
    pub y: u8,
    pub box_x: u16,
    pub box_y: u16,
    pub snakes: Vec<SnakeId>,
    pub food: FoodSeq,
}

/// The center of the sector in column (or row) `c`.
pub open spec fn sector_center(c: int) -> int {
    WorldConfig::SECTOR_SIZE * c + WorldConfig::SECTOR_SIZE / 2
}

impl Sector {
    /// The empty sector in column `x` and row `y`. Its center is computed in
    /// 16 bits, which holds for columns and rows up to 217.
    pub fn new(x: u8, y: u8) -> (s: Self)
        requires
            x <= 217,
            y <= 217,
        ensures
            s.x == x,
            s.y == y,
            s.box_x == sector_center(x as int),
            s.box_y == sector_center(y as int),
            s.snakes@ == Seq::<SnakeId>::empty(),
            s.food@ == Seq::<Food>::empty(),
    {
        let half = WorldConfig::SECTOR_SIZE / 2;
        Sector {
            x,
            y,
            box_x: WorldConfig::SECTOR_SIZE * (x as u16) + half,
            box_y: WorldConfig::SECTOR_SIZE * (y as u16) + half,
            snakes: Vec::new(),
            food: Vec::new(),
        }
    }

    /// Adds a pellet at the end of the sector's food.
    pub fn insert_food(&mut self, food: Food)
        ensures
            final(self).x == old(self).x,
            final(self).y == old(self).y,
            final(self).box_x == old(self).box_x,
            final(self).box_y == old(self).box_y,
            final(self).snakes@ == old(self).snakes@,
            final(self).food@ == old(self).food@.push(food),
    {
        self.food.push(food);
    }

    /// Gives up the pellets that a snake's head reaches: those whose position
    /// in the sector's food is marked in `in_reach` (positions past its end
    /// count as unmarked) leave the sector and are appended, in order, to
    /// `eaten`; the others stay, in order.
    pub fn take_food(&mut self, in_reach: &Vec<bool>, eaten: &mut Vec<Food>)
        ensures
            final(self).food@ == pick(old(self).food@, in_reach@, false),
            final(eaten)@ == old(eaten)@ + pick(old(self).food@, in_reach@, true),
            final(self).x == old(self).x,
            final(self).y == old(self).y,
            final(self).box_x == old(self).box_x,
            final(self).box_y == old(self).box_y,
            final(self).snakes@ == old(self).snakes@,
    {
        let ghost orig = self.food@;
        let ghost eaten0 = eaten@;
        let mut kept: Vec<Food> = Vec::new();
        let n = self.food.len();
        for i in 0..n
            invariant
                n == orig.len(),
                self.food@ == orig,
                orig == old(self).food@,
                eaten0 == old(eaten)@,
                kept@ == pick(orig.take(i as int), in_reach@, false),
                eaten@ == eaten0 + pick(orig.take(i as int), in_reach@, true),
                self.x == old(self).x,
                self.y == old(self).y,
                self.box_x == old(self).box_x,
                self.box_y == old(self).box_y,
                self.snakes@ == old(self).snakes@,
        {
            let f = self.food[i];
            let reach = i < in_reach.len() && in_reach[i];
            if reach {
                eaten.push(f);
            } else {
                kept.push(f);
            }
            proof {
                assert(orig.take(i + 1).drop_last() =~= orig.take(i as int));
                assert(eaten@ =~= eaten0 + pick(orig.take(i + 1), in_reach@, true));
            }
        }
        proof {
            assert(orig.take(n as int) =~= orig);
        }
        self.food = kept;
    }

    /// Removes snake `id` from the sector, keeping the others in order.
    pub fn remove_snake(&mut self, id: SnakeId)
        ensures
            final(self).x == old(self).x,
            final(self).y == old(self).y,
            final(self).box_x == old(self).box_x,
            final(self).box_y == old(self).box_y,
            final(self).food@ == old(self).food@,
            final(self).snakes@ == old(self).snakes@.filter(|s: SnakeId| s != id),
    {
        let mut kept: Vec<SnakeId> = Vec::new();
        for i in 0..self.snakes.len()
            invariant
                kept@ == self.snakes@.take(i as int).filter(|s: SnakeId| s != id),
        {
            proof {
                lemma_filter_take_step(self.snakes@, i as int, |s: SnakeId| s != id);
            }
            if self.snakes[i] != id {
                kept.push(self.snakes[i]);
            }
        }
        assert(self.snakes@.take(self.snakes.len() as int) =~= self.snakes@);
        self.snakes = kept;
    }

    /// Sorts the sector's food by `x`; pellets with equal `x` keep their
    /// order.
    pub fn sort_food(&mut self)
        ensures
            final(self).x == old(self).x,
            final(self).y == old(self).y,
            final(self).box_x == old(self).box_x,
            final(self).box_y == old(self).box_y,
            final(self).snakes@ == old(self).snakes@,
            sorted_by_x(final(self).food@),
            final(self).food@.to_multiset() == old(self).food@.to_multiset(),
            forall|k: u16| with_x(final(self).food@, k) == with_x(old(self).food@, k),
    {
        sort_food_by_x(&mut self.food);
    }
}


/// Number of sectors along each edge of the grid.
pub open spec fn edge() -> int {
    WorldConfig::SECTOR_COUNT_ALONG_EDGE as int
}

/// Whether `s` is the sector that belongs at position `i` of the grid,
/// which lists the sectors row by row.
pub open spec fn sector_at(s: Sector, i: int) -> bool {
    &&& s.x == i % edge()
    &&& s.y == i / edge()
    &&& s.box_x == sector_center(i % edge())
    &&& s.box_y == sector_center(i / edge())
}

/// Whether `s` is the full grid of sectors, row by row.
pub open spec fn is_grid(s: Seq<Sector>) -> bool {
    &&& s.len() == edge() * edge()
    &&& forall|i: int| 0 <= i < s.len() ==> sector_at(#[trigger] s[i], i)
}

/// The index of the sector that holds the point `(x, y)`, row by row.
pub open spec fn spec_sector_index(x: u16, y: u16) -> int {
    (y / WorldConfig::SECTOR_SIZE) as int * edge() + (x / WorldConfig::SECTOR_SIZE) as int
}

/// The grid of sectors that covers the world.
#[derive(Debug, Clone)]
pub struct SectorSeq {
    sectors: Vec<Sector>,
}

impl View for SectorSeq {
    type V = Seq<Sector>;

    closed spec fn view(&self) -> Seq<Sector> {
        self.sectors@
    }
}

proof fn lemma_row_major(row: int, col: int)
    requires
        0 <= row,
        0 <= col < edge(),
    ensures
        (row * edge() + col) % edge() == col,
        (row * edge() + col) / edge() == row,
{
    assert((row * 144 + col) % 144 == col && (row * 144 + col) / 144 == row) by (nonlinear_arith)
        requires
            0 <= row,
            0 <= col < 144,
    ;
}

impl SectorSeq {
    /// An empty list of sectors.
    pub fn new() -> (s: Self)
        ensures
            s@ == Seq::<Sector>::empty(),
    {
        SectorSeq { sectors: Vec::new() }
    }

    /// Replaces the list by the full grid of empty sectors, row by row.
    pub fn init_sectors(&mut self)
        ensures
            is_grid(final(self)@),
            forall|i: int|
                0 <= i < final(self)@.len() ==> (#[trigger] final(self)@[i]).snakes@.len() == 0
                    && final(self)@[i].food@.len() == 0,
    {
        let count = WorldConfig::SECTOR_COUNT_ALONG_EDGE as usize;
        self.sectors.clear();
        self.sectors.reserve(count * count);
        for y in 0..count
            invariant
                count == edge(),
                self.sectors@.len() == y * count,
                forall|i: int|
                    0 <= i < self.sectors@.len() ==> sector_at(#[trigger] self.sectors@[i], i)
                        && self.sectors@[i].snakes@.len() == 0 && self.sectors@[i].food@.len() == 0,
        {
            for x in 0..count
                invariant
                    count == edge(),
                    0 <= y < count,
                    self.sectors@.len() == y * count + x,
                    forall|i: int|
                        0 <= i < self.sectors@.len() ==> sector_at(#[trigger] self.sectors@[i], i)
                            && self.sectors@[i].snakes@.len() == 0 && self.sectors@[i].food@.len()
                            == 0,
            {
                proof {
                    lemma_row_major(y as int, x as int);
                }
                self.sectors.push(Sector::new(x as u8, y as u8));
            }
            assert((y + 1) * count == y * count + count) by (nonlinear_arith);
        }
    }

    /// The index of the sector that holds the point `(x, y)`, row by row.
    pub fn get_index(&self, x: u16, y: u16) -> (idx: usize)
        ensures
            idx == spec_sector_index(x, y),
    {
        let sx = (x / WorldConfig::SECTOR_SIZE) as usize;
        let sy = (y / WorldConfig::SECTOR_SIZE) as usize;
        let edge = WorldConfig::SECTOR_COUNT_ALONG_EDGE as usize;
        sy * edge + sx
    }

    /// The sector that holds the point `(x, y)`, if the list reaches it.
    pub fn get_sector(&self, x: u16, y: u16) -> (r: Option<&Sector>)
        ensures
            match r {
                Some(s) => spec_sector_index(x, y) < self@.len() && *s == self@[spec_sector_index(x, y)],
                None => spec_sector_index(x, y) >= self@.len(),
            },
    {
        let idx = self.get_index(x, y);
        self.get_by_index(idx)
    }

    /// The sector that holds the point `(x, y)`, for change, if the list
    /// reaches it.
    pub fn get_sector_mut(&mut self, x: u16, y: u16) -> (r: Option<&mut Sector>)
        ensures
            match r {
                Some(s) => {
                    &&& spec_sector_index(x, y) < old(self)@.len()
                    &&& *s == old(self)@[spec_sector_index(x, y)]
                    &&& final(self)@ == old(self)@.update(spec_sector_index(x, y), *final(s))
                },
                None => spec_sector_index(x, y) >= old(self)@.len() && final(self)@ == old(self)@,
            },
    {
        let idx = self.get_index(x, y);
        self.get_by_index_mut(idx)
    }

    /// The sector at position `idx`, if there is one.
    pub fn get_by_index(&self, idx: usize) -> (r: Option<&Sector>)
        ensures
            match r {
                Some(s) => idx < self@.len() && *s == self@[idx as int],
                None => idx >= self@.len(),
            },
    {
        if idx < self.sectors.len() {
            Some(&self.sectors[idx])
        } else {
            None
        }
    }

    /// The sector at position `idx`, for change, if there is one.
    pub fn get_by_index_mut(&mut self, idx: usize) -> (r: Option<&mut Sector>)
        ensures
            match r {
                Some(s) => {
                    &&& idx < old(self)@.len()
                    &&& *s == old(self)@[idx as int]
                    &&& final(self)@ == old(self)@.update(idx as int, *final(s))
                },
                None => idx >= old(self)@.len() && final(self)@ == old(self)@,
            },
    {
        if idx < self.sectors.len() {
            Some(&mut self.sectors[idx])
        } else {
            None
        }
    }

    /// The number of sectors.
    pub fn len(&self) -> (n: usize)
        ensures
            n == self@.len(),
    {
        self.sectors.len()
    }
}

impl Default for SectorSeq {
    fn default() -> (s: Self)
        ensures
            s@ == Seq::<Sector>::empty(),
    {
        Self::new()
    }
}

/// Whether position `i` is marked in `mask`; positions past its end are not.
pub open spec fn marked(mask: Seq<bool>, i: int) -> bool {
    0 <= i < mask.len() && mask[i]
}

/// The items of `s` whose position is marked in `mask` (when `want`) or not
/// marked (otherwise), in order.
pub open spec fn pick<T>(s: Seq<T>, mask: Seq<bool>, want: bool) -> Seq<T>
    decreases s.len(),
{
    if s.len() == 0 {
        Seq::empty()
    } else {
        let rest = pick(s.drop_last(), mask, want);
        if marked(mask, s.len() - 1) == want {
            rest.push(s.last())
        } else {
            rest
        }
    }
}

/// Taking food loses no pellet and makes none: the pellets eaten and those
/// kept are, together, the pellets the sector held.
pub proof fn lemma_taken_food_is_conserved<T>(s: Seq<T>, mask: Seq<bool>)
    ensures
        pick(s, mask, true).to_multiset().add(pick(s, mask, false).to_multiset()) == s.to_multiset(),
        pick(s, mask, true).len() + pick(s, mask, false).len() == s.len(),
    decreases s.len(),
{
    broadcast use vstd::seq_lib::group_to_multiset_ensures;
    if s.len() > 0 {
        lemma_taken_food_is_conserved(s.drop_last(), mask);
        assert(s.drop_last().push(s.last()) =~= s);
        assert(s.to_multiset() =~= s.drop_last().to_multiset().insert(s.last()));
        if marked(mask, s.len() - 1) {
            assert(pick(s, mask, true).to_multiset().add(pick(s, mask, false).to_multiset()) =~= s.to_multiset());
        } else {
            assert(pick(s, mask, true).to_multiset().add(pick(s, mask, false).to_multiset()) =~= s.to_multiset());
        }
    } else {
        assert(s.to_multiset() =~= vstd::multiset::Multiset::empty());
    }
}

/// A sector's center is the middle of its column (or row): halfway between
/// its two edges, 300 pixels apart.
pub proof fn lemma_sector_center_is_middle(c: int)
    ensures
        WorldConfig::SECTOR_SIZE * c <= sector_center(c) < WorldConfig::SECTOR_SIZE * (c + 1),
        2 * sector_center(c) == WorldConfig::SECTOR_SIZE * c + WorldConfig::SECTOR_SIZE * (c + 1),
{
}

/// The grid's edge holds exactly as many sectors as cover the world's
/// width, twice its radius.
pub proof fn lemma_grid_covers_world()
    ensures
        edge() * WorldConfig::SECTOR_SIZE == 2 * WorldConfig::GAME_RADIUS,
{
}

/// A point of the world (both coordinates below twice the world radius) has
/// its sector index within the grid's size.
pub proof fn lemma_point_index_within_grid(x: u16, y: u16)
    requires
        x < 2 * WorldConfig::GAME_RADIUS,
        y < 2 * WorldConfig::GAME_RADIUS,
    ensures
        0 <= spec_sector_index(x, y) < edge() * edge(),
{
    let col = (x / 300) as int;
    let row = (y / 300) as int;
    assert(row * 144 + col < 144 * 144) by (nonlinear_arith)
        requires
            0 <= row < 144,
            0 <= col < 144,
    ;
}

/// On the grid, a point of the world (both coordinates below twice the
/// world radius) lies in a sector of the grid, and the sector at its index
/// is the one whose column and row hold it.
pub proof fn lemma_point_in_its_sector(s: Seq<Sector>, x: u16, y: u16)
    requires
        is_grid(s),
        x < 2 * WorldConfig::GAME_RADIUS,
        y < 2 * WorldConfig::GAME_RADIUS,
    ensures
        0 <= spec_sector_index(x, y) < s.len(),
        s[spec_sector_index(x, y)].x == x / WorldConfig::SECTOR_SIZE,
        s[spec_sector_index(x, y)].y == y / WorldConfig::SECTOR_SIZE,
        s[spec_sector_index(x, y)].x * WorldConfig::SECTOR_SIZE <= x < (s[spec_sector_index(x, y)].x
            + 1) * WorldConfig::SECTOR_SIZE,
        s[spec_sector_index(x, y)].y * WorldConfig::SECTOR_SIZE <= y < (s[spec_sector_index(x, y)].y
            + 1) * WorldConfig::SECTOR_SIZE,
{
    let col = (x / 300) as int;
    let row = (y / 300) as int;
    lemma_row_major(row, col);
    assert(row * 144 + col < 144 * 144) by (nonlinear_arith)
        requires
            0 <= row < 144,
            0 <= col < 144,
    ;
    assert(s[spec_sector_index(x, y)].x == col);
}

/// The positions `0..n` as sector indices.
pub open spec fn indices(n: nat) -> Seq<usize> {
    Seq::new(n, |i: int| i as usize)
}

/// Whether sector `i` starts being overlapped: it is in range now and was
/// not recorded before.
pub open spec fn enters(recorded: Seq<usize>, in_range: Seq<bool>) -> spec_fn(usize) -> bool {
    |i: usize| in_range[i as int] && !recorded.contains(i)
}

/// Whether sector `i` stops being overlapped: it is out of range now and was
/// recorded before.
pub open spec fn leaves(recorded: Seq<usize>, in_range: Seq<bool>) -> spec_fn(usize) -> bool {
    |i: usize| !in_range[i as int] && recorded.contains(i)
}

/// Whether a recorded sector stays recorded: it is still in range, or beyond
/// the sectors that were tested.
pub open spec fn stays(in_range: Seq<bool>) -> spec_fn(usize) -> bool {
    |s: usize| s >= in_range.len() || in_range[s as int]
}

/// The sectors that start being overlapped, in increasing order.
pub open spec fn entered_sectors(recorded: Seq<usize>, in_range: Seq<bool>) -> Seq<usize> {
    indices(in_range.len()).filter(enters(recorded, in_range))
}

/// The sectors that stop being overlapped, in increasing order.
pub open spec fn left_sectors(recorded: Seq<usize>, in_range: Seq<bool>) -> Seq<usize> {
    indices(in_range.len()).filter(leaves(recorded, in_range))
}

/// The record after an update: the recorded sectors that stay, in their
/// order, followed by the sectors that start being overlapped.
pub open spec fn updated_sectors(recorded: Seq<usize>, in_range: Seq<bool>) -> Seq<usize> {
    recorded.filter(stays(in_range)) + entered_sectors(recorded, in_range)
}

/// After an update, a tested sector is recorded exactly when it is in range,
/// an untested one exactly when it was recorded before, and a record without
/// repeats stays without repeats. The sectors listed as entering are the
/// tested ones that are in range and were not recorded; those listed as
/// leaving are the tested ones that are out of range and were recorded.
pub proof fn lemma_update_tracks_range(recorded: Seq<usize>, in_range: Seq<bool>)
    requires
        in_range.len() <= usize::MAX,
    ensures
        forall|i: usize|
            i < in_range.len() ==> (#[trigger] updated_sectors(recorded, in_range).contains(i)
                <==> in_range[i as int]),
        forall|s: usize|
            s >= in_range.len() ==> (#[trigger] updated_sectors(recorded, in_range).contains(s)
                <==> recorded.contains(s)),
        forall|i: usize|
            #[trigger] entered_sectors(recorded, in_range).contains(i) <==> (i < in_range.len()
                && in_range[i as int] && !recorded.contains(i)),
        forall|i: usize|
            #[trigger] left_sectors(recorded, in_range).contains(i) <==> (i < in_range.len()
                && !in_range[i as int] && recorded.contains(i)),
        recorded.no_duplicates() ==> updated_sectors(recorded, in_range).no_duplicates(),
{
    let n = in_range.len();
    let all = indices(n);
    let kept = recorded.filter(stays(in_range));
    let entered = entered_sectors(recorded, in_range);
    let left = left_sectors(recorded, in_range);
    assert forall|i: usize| all.contains(i) <==> i < n by {
        if i < n {
            assert(all[i as int] == i);
        }
    }
    assert forall|i: usize| #[trigger] entered.contains(i) <==> (i < n && in_range[i as int] && !recorded.contains(i)) by {
        lemma_filter_contains_iff(all, enters(recorded, in_range), i);
    }
    assert forall|i: usize| #[trigger] left.contains(i) <==> (i < n && !in_range[i as int] && recorded.contains(i)) by {
        lemma_filter_contains_iff(all, leaves(recorded, in_range), i);
    }
    assert forall|s: usize| #[trigger] kept.contains(s) <==> (recorded.contains(s) && (s >= n || in_range[s as int])) by {
        lemma_filter_contains_iff(recorded, stays(in_range), s);
    }
    assert forall|i: usize| #[trigger] updated_sectors(recorded, in_range).contains(i) <==> (kept.contains(i) || entered.contains(i)) by {
        let u = kept + entered;
        if u.contains(i) {
            let k = choose|k: int| 0 <= k < u.len() && u[k] == i;
            if k < kept.len() {
                assert(kept[k] == i);
            } else {
                assert(entered[k - kept.len()] == i);
            }
        }
        if kept.contains(i) {
            let k = choose|k: int| 0 <= k < kept.len() && kept[k] == i;
            assert(u[k] == i);
        }
        if entered.contains(i) {
            let k = choose|k: int| 0 <= k < entered.len() && entered[k] == i;
            assert(u[kept.len() + k] == i);
        }
    }
    if recorded.no_duplicates() {
        lemma_filter_no_duplicates(recorded, stays(in_range));
        assert forall|a: int, b: int| 0 <= a < b < all.len() implies all[a] != all[b] by {
            assert(all[a] == a as usize && all[b] == b as usize);
        }
        lemma_filter_no_duplicates(all, enters(recorded, in_range));
        lemma_concat_no_duplicates(kept, entered);
    }
}

/// The sectors that start being overlapped, in increasing order.
fn positions_where_entering(recorded: &Vec<usize>, in_range: &[bool]) -> (r: Vec<usize>)
    ensures
        r@ == entered_sectors(recorded@, in_range@),
{
    let n = in_range.len();
    let ghost all = indices(n as nat);
    let mut r: Vec<usize> = Vec::new();
    for i in 0..n
        invariant
            n == in_range@.len(),
            all == indices(n as nat),
            r@ == all.take(i as int).filter(enters(recorded@, in_range@)),
    {
        proof {
            lemma_filter_take_step(all, i as int, enters(recorded@, in_range@));
        }
        if in_range[i] && !occurs(recorded, i) {
            r.push(i);
        }
    }
    assert(all.take(n as int) =~= all);
    r
}

/// The sectors that stop being overlapped, in increasing order.
fn positions_where_leaving(recorded: &Vec<usize>, in_range: &[bool]) -> (r: Vec<usize>)
    ensures
        r@ == left_sectors(recorded@, in_range@),
{
    let n = in_range.len();
    let ghost all = indices(n as nat);
    let mut r: Vec<usize> = Vec::new();
    for i in 0..n
        invariant
            n == in_range@.len(),
            all == indices(n as nat),
            r@ == all.take(i as int).filter(leaves(recorded@, in_range@)),
    {
        proof {
            lemma_filter_take_step(all, i as int, leaves(recorded@, in_range@));
        }
        if !in_range[i] && occurs(recorded, i) {
            r.push(i);
        }
    }
    assert(all.take(n as int) =~= all);
    r
}

/// The recorded sectors that stay recorded, in their order.
fn staying(recorded: &Vec<usize>, in_range: &[bool]) -> (r: Vec<usize>)
    ensures
        r@ == recorded@.filter(stays(in_range@)),
{
    let mut r: Vec<usize> = Vec::new();
    for i in 0..recorded.len()
        invariant
            r@ == recorded@.take(i as int).filter(stays(in_range@)),
    {
        proof {
            lemma_filter_take_step(recorded@, i as int, stays(in_range@));
        }
        let s = recorded[i];
        if s >= in_range.len() || in_range[s] {
            r.push(s);
        }
    }
    assert(recorded@.take(recorded.len() as int) =~= recorded@);
    r
}

/// A snake's bounding box and the sectors it overlaps.
#[derive(Debug, Clone)]
pub struct SnakeBoundBox {
    pub bound_box: BoundBox,
}

impl SnakeBoundBox {
    /// The box of snake `id`, overlapping no sector yet.
    pub fn new(id: SnakeId) -> (b: Self)
        ensures
            b.bound_box.id == id,
            b.bound_box.sectors@ == Seq::<usize>::empty(),
    {
        SnakeBoundBox { bound_box: BoundBox::new(id) }
    }

    /// Brings the record up to date after a move: `in_range[i]` says whether
    /// the box at its new place overlaps sector `i`. Sectors that it no
    /// longer overlaps are forgotten; those that it newly overlaps are added
    /// at the end, in increasing order.
    pub fn update_sectors(&mut self, in_range: &[bool])
        ensures
            final(self).bound_box.id == old(self).bound_box.id,
            final(self).bound_box.sectors@ == updated_sectors(old(self).bound_box.sectors@, in_range@),
    {
        let mut entered = positions_where_entering(&self.bound_box.sectors, in_range);
        let mut kept = staying(&self.bound_box.sectors, in_range);
        kept.append(&mut entered);
        self.bound_box.sectors = kept;
    }
}

/// A client's viewport and the sectors it overlaps, with the sectors that
/// the last update brought into view and took out of it.
#[derive(Debug, Clone)]
pub struct ViewPort {
    pub bound_box: BoundBox,
    pub new_sectors: Vec<usize>,
    pub old_sectors: Vec<usize>,
}

impl ViewPort {
    /// The viewport of snake `id`, overlapping no sector yet.
    pub fn new(id: SnakeId) -> (v: Self)
        ensures
            v.bound_box.id == id,
            v.bound_box.sectors@ == Seq::<usize>::empty(),
            v.new_sectors@ == Seq::<usize>::empty(),
            v.old_sectors@ == Seq::<usize>::empty(),
    {
        ViewPort { bound_box: BoundBox::new(id), new_sectors: Vec::new(), old_sectors: Vec::new() }
    }

    /// Brings the record up to date after a move: `in_range[i]` says whether
    /// the viewport at its new place overlaps sector `i`. The sectors that
    /// came into view and those that went out of view are listed in
    /// increasing order.
    pub fn update_sectors(&mut self, in_range: &[bool])
        ensures
            final(self).bound_box.id == old(self).bound_box.id,
            final(self).bound_box.sectors@ == updated_sectors(old(self).bound_box.sectors@, in_range@),
            final(self).new_sectors@ == entered_sectors(old(self).bound_box.sectors@, in_range@),
            final(self).old_sectors@ == left_sectors(old(self).bound_box.sectors@, in_range@),
    {
        let entered = positions_where_entering(&self.bound_box.sectors, in_range);
        let left = positions_where_leaving(&self.bound_box.sectors, in_range);
        let mut kept = staying(&self.bound_box.sectors, in_range);
        let mut added = entered.clone();
        kept.append(&mut added);
        self.bound_box.sectors = kept;
        self.new_sectors = entered;
        self.old_sectors = left;
    }
}

} // verus!
