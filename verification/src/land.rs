//! The lawn: its coordinate systems and the index of planted tiles.
//!
//! Lengths are whole numbers of *steps*. One world unit is [`WORLD_SCALE`]
//! steps, which is fine enough for every speed of the game to be a whole
//! number of steps per millisecond.

use bevy::platform::collections::HashMap;
use bevy::platform::hash::FixedHasher;
use vstd::prelude::*;

verus! {

/// Steps per world unit.
pub const WORLD_SCALE: i64 = 300;

/// Width of one tile, in steps (80 world units).
pub const LAND_TILE_WIDTH: i64 = 24000;

/// Height of one tile, in steps (100 world units).
pub const LAND_TILE_HEIGHT: i64 = 30000;

/// Where the land image is drawn, in steps: 70 world units to the right of
/// the middle of the screen,
pub const LAND_DISPLAY_OFFSET_X: i64 = 21000;

/// and at its height.
pub const LAND_DISPLAY_OFFSET_Y: i64 = 0;

/// From the centre of the land image to the bottom-left corner of the tiles,
/// in steps: 445 world units to the left,
pub const LAND_TO_TILE_OFFSET_X: i64 = -133500;

/// and 275 down.
pub const LAND_TO_TILE_OFFSET_Y: i64 = -82500;

/// How many tiles the land has in a row.
pub const LAND_COLUMNS: i32 = 9;

/// How many rows the land has.
pub const LAND_ROWS: i32 = 5;

/// World position of the centre of tile (0, 0): display offset, plus the
/// offset to the tiles' corner, plus half a tile.
pub const FIRST_TILE_X: i64 = -100500;

/// World position of the centre of tile (0, 0), upwards.
pub const FIRST_TILE_Y: i64 = -67500;

/// World position of the left edge of the land: half a tile to the left of
/// the centre of tile (0, 0).
pub const LAND_LEFT_EDGE_X: i64 = -112500;

/// The whole number nearest to `a / d`; a tie goes away from zero.
pub open spec fn round_div(a: int, d: int) -> int
    recommends
        d > 0,
{
    if a >= 0 {
        if 2 * (a % d) >= d {
            a / d + 1
        } else {
            a / d
        }
    } else {
        if 2 * ((-a) % d) >= d {
            -((-a) / d + 1)
        } else {
            -((-a) / d)
        }
    }
}

/// `v`, or the end of the `i32` range that is nearest to it.
pub open spec fn clamp_i32(v: int) -> i32 {
    if v < i32::MIN {
        i32::MIN
    } else if v > i32::MAX {
        i32::MAX
    } else {
        v as i32
    }
}

/// Rounding never moves a value by more than half a divisor.
pub proof fn lemma_round_div_is_nearest(a: int, d: int)
    requires
        d > 0,
    ensures
        -d <= 2 * (round_div(a, d) * d - a) <= d,
{
    let m = if a >= 0 { a } else { -a };
    vstd::arithmetic::div_mod::lemma_fundamental_div_mod(m, d);
    vstd::arithmetic::div_mod::lemma_mod_bound(m, d);
    assert(d * (m / d + 1) == d * (m / d) + d) by (nonlinear_arith);
    assert((m / d + 1) * d == d * (m / d + 1)) by (nonlinear_arith);
    assert((m / d) * d == d * (m / d)) by (nonlinear_arith);
    if a < 0 {
        assert((-(m / d + 1)) * d == -((m / d + 1) * d)) by (nonlinear_arith);
        assert((-(m / d)) * d == -((m / d) * d)) by (nonlinear_arith);
    }
}

/// A whole multiple of the divisor rounds to its factor.
pub proof fn lemma_round_div_of_multiple(k: int, d: int)
    requires
        d > 0,
    ensures
        round_div(k * d, d) == k,
{
    let m = if k >= 0 { k } else { -k };
    assert(m * d >= 0) by (nonlinear_arith)
        requires
            m >= 0,
            d > 0,
    ;
    assert(k >= 0 ==> k * d == m * d);
    assert(k < 0 ==> -(k * d) == m * d) by (nonlinear_arith)
        requires
            m == if k >= 0 { k } else { -k },
    ;
    assert(k < 0 ==> k * d < 0) by (nonlinear_arith)
        requires
            d > 0,
    ;
    vstd::arithmetic::div_mod::lemma_div_multiples_vanish(m, d);
    vstd::arithmetic::div_mod::lemma_mod_multiples_basic(m, d);
}

/// Executable [`round_div`].
pub fn round_div_i64(a: i64, d: i64) -> (q: i64)
    requires
        d > 0,
    ensures
        q == round_div(a as int, d as int),
{
    let wide: i128 = a as i128;
    let magnitude: u64 = if a >= 0 {
        wide as u64
    } else {
        (-wide) as u64
    };
    let divisor: u64 = d as u64;
    let whole: u64 = magnitude / divisor;
    let rest: u64 = magnitude % divisor;
    let up: bool = rest >= divisor - rest;
    proof {
        vstd::arithmetic::div_mod::lemma_fundamental_div_mod(magnitude as int, d as int);
        vstd::arithmetic::div_mod::lemma_mod_bound(magnitude as int, d as int);
        assert(whole * d <= magnitude) by (nonlinear_arith)
            requires
                magnitude == d * whole + rest,
                rest >= 0,
        ;
        assert(whole <= magnitude) by (nonlinear_arith)
            requires
                whole * d <= magnitude,
                d >= 1,
                whole >= 0,
        ;
        assert(up ==> whole + 1 <= magnitude) by (nonlinear_arith)
            requires
                magnitude == d * whole + rest,
                2 * rest >= d ==> up,
                up ==> 2 * rest >= d,
                rest < d,
                d >= 1,
                whole >= 0,
        ;
    }
    let nearest: u64 = if up {
        whole + 1
    } else {
        whole
    };
    if a >= 0 {
        nearest as i64
    } else {
        (-(nearest as i128)) as i64
    }
}

/// A point of the world, in steps.
#[derive(Clone, Copy, Debug, PartialEq, Eq, Structural)]
pub struct WorldPos {
    pub x: i64,
    pub y: i64,
}

/// A tile address with a fraction: how far a point lies from the centre of
/// tile (0, 0), in steps. A whole tile is [`LAND_TILE_WIDTH`] steps wide and
/// [`LAND_TILE_HEIGHT`] steps high.
#[derive(Clone, Copy, Debug, PartialEq, Eq, Structural)]
pub struct GridPos {
    pub x: i64,
    pub y: i64,
}

impl GridPos {
    /// The address of the centre of tile (`column`, `row`).
    pub open spec fn of_tile(tile: (i32, i32)) -> GridPos {
        GridPos { x: (tile.0 * LAND_TILE_WIDTH) as i64, y: (tile.1 * LAND_TILE_HEIGHT) as i64 }
    }

    /// The world position of this address.
    pub open spec fn world(self) -> (int, int) {
        (self.x + FIRST_TILE_X, self.y + FIRST_TILE_Y)
    }

    /// The address of a world position.
    pub open spec fn of_world(pos: (int, int)) -> (int, int) {
        (pos.0 - FIRST_TILE_X, pos.1 - FIRST_TILE_Y)
    }

    /// The tile this address lies in, before it is cut to the `i32` range.
    pub open spec fn nearest_tile(self) -> (int, int) {
        (round_div(self.x as int, LAND_TILE_WIDTH as int), round_div(self.y as int, LAND_TILE_HEIGHT as int))
    }

    /// The tile this address lies in.
    pub open spec fn tile(self) -> (i32, i32) {
        (clamp_i32(self.nearest_tile().0), clamp_i32(self.nearest_tile().1))
    }

    /// Whether the tile of this address is one of the land's.
    pub open spec fn on_land(self) -> bool {
        0 <= self.tile().0 < LAND_COLUMNS && 0 <= self.tile().1 < LAND_ROWS
    }

    /// The centre of tile (`x`, `y`).
    pub fn new(x: i32, y: i32) -> (pos: GridPos)
        ensures
            pos == GridPos::of_tile((x, y)),
            pos.x == x * LAND_TILE_WIDTH,
            pos.y == y * LAND_TILE_HEIGHT,
    {
        assert(-0x8000_0000 * 24000 <= x * 24000 <= 0x7fff_ffff * 24000) by (nonlinear_arith)
            requires
                -0x8000_0000 <= x <= 0x7fff_ffff,
        ;
        assert(-0x8000_0000 * 30000 <= y * 30000 <= 0x7fff_ffff * 30000) by (nonlinear_arith)
            requires
                -0x8000_0000 <= y <= 0x7fff_ffff,
        ;
        GridPos { x: (x as i64) * LAND_TILE_WIDTH, y: (y as i64) * LAND_TILE_HEIGHT }
    }

    /// Converts a grid position to the world position of the same point; for
    /// a whole tile that is the tile's centre.
    pub fn to_world(&self) -> (pos: WorldPos)
        requires
            i64::MIN <= self.x + FIRST_TILE_X,
            i64::MIN <= self.y + FIRST_TILE_Y,
        ensures
            (pos.x as int, pos.y as int) == self.world(),
            pos.tile() == self.tile(),
    {
        WorldPos { x: self.x + FIRST_TILE_X, y: self.y + FIRST_TILE_Y }
    }

    /// Converts a world position to the grid position of the same point.
    pub fn from_world(pos: WorldPos) -> (grid: GridPos)
        requires
            pos.x - FIRST_TILE_X <= i64::MAX,
            pos.y - FIRST_TILE_Y <= i64::MAX,
        ensures
            (grid.x as int, grid.y as int) == GridPos::of_world((pos.x as int, pos.y as int)),
            grid.tile() == pos.tile(),
    {
        GridPos { x: pos.x - FIRST_TILE_X, y: pos.y - FIRST_TILE_Y }
    }

    /// The tile this address lies in: each coordinate goes to the nearest
    /// whole tile, and a tile number beyond the `i32` range to the end of it.
    pub fn to_tile(&self) -> (tile: (i32, i32))
        ensures
            tile == self.tile(),
    {
        let column: i64 = round_div_i64(self.x, LAND_TILE_WIDTH);
        let row: i64 = round_div_i64(self.y, LAND_TILE_HEIGHT);
        (clamp_to_i32(column), clamp_to_i32(row))
    }

    /// The centre of the tile this address lies in.
    pub fn round(&self) -> (pos: GridPos)
        ensures
            pos == GridPos::of_tile(self.tile()),
            pos.tile() == self.tile(),
    {
        let tile = self.to_tile();
        proof {
            lemma_round_div_of_multiple(tile.0 as int, LAND_TILE_WIDTH as int);
            lemma_round_div_of_multiple(tile.1 as int, LAND_TILE_HEIGHT as int);
        }
        GridPos::new(tile.0, tile.1)
    }

    /// Whether this address lies in a tile of the land.
    pub fn in_land(&self) -> (inside: bool)
        ensures
            inside == self.on_land(),
    {
        let tile = self.to_tile();
        0 <= tile.0 && tile.0 < LAND_COLUMNS && 0 <= tile.1 && tile.1 < LAND_ROWS
    }
}

impl From<GridPos> for (i32, i32) {
    /// The tile that an address lies in: see [`GridPos::to_tile`].
    fn from(value: GridPos) -> (tile: (i32, i32)) {
        value.to_tile()
    }
}

impl vstd::std_specs::convert::FromSpecImpl<GridPos> for (i32, i32) {
    open spec fn obeys_from_spec() -> bool {
        true
    }

    open spec fn from_spec(value: GridPos) -> (i32, i32) {
        value.tile()
    }
}

/// Executable [`clamp_i32`].
pub fn clamp_to_i32(v: i64) -> (c: i32)
    ensures
        c == clamp_i32(v as int),
{
    if v < i32::MIN as i64 {
        i32::MIN
    } else if v > i32::MAX as i64 {
        i32::MAX
    } else {
        v as i32
    }
}

/// A quotient of a large dividend lies beyond the `i32` range.
proof fn lemma_round_div_far_right(a: int, d: int)
    requires
        0 < d <= 0x1_0000,
        a >= 0x7000_0000_0000_0000,
    ensures
        round_div(a, d) > i32::MAX,
{
    lemma_round_div_is_nearest(a, d);
    let q = round_div(a, d);
    if q <= 0x7fff_ffff {
        assert(q * d <= 0x7fff_ffff * d) by (nonlinear_arith)
            requires
                q <= 0x7fff_ffff,
                d > 0,
        ;
        assert(0x7fff_ffff * d <= 0x7fff_ffff * 0x1_0000) by (nonlinear_arith)
            requires
                d <= 0x1_0000,
        ;
    }
}

impl WorldPos {
    /// The world position of the centre of a tile.
    pub open spec fn centre_of(tile: (i32, i32)) -> WorldPos {
        WorldPos {
            x: (tile.0 * LAND_TILE_WIDTH + FIRST_TILE_X) as i64,
            y: (tile.1 * LAND_TILE_HEIGHT + FIRST_TILE_Y) as i64,
        }
    }

    /// The tile that this position lies in.
    pub open spec fn tile(self) -> (i32, i32) {
        (
            clamp_i32(round_div(self.x - FIRST_TILE_X, LAND_TILE_WIDTH as int)),
            clamp_i32(round_div(self.y - FIRST_TILE_Y, LAND_TILE_HEIGHT as int)),
        )
    }

    /// Whether this position lies in a tile of the land.
    pub open spec fn on_land(self) -> bool {
        0 <= self.tile().0 < LAND_COLUMNS && 0 <= self.tile().1 < LAND_ROWS
    }

    /// The centre of a tile.
    pub fn tile_centre(tile: (i32, i32)) -> (pos: WorldPos)
        ensures
            pos == WorldPos::centre_of(tile),
            pos.x == tile.0 * LAND_TILE_WIDTH + FIRST_TILE_X,
            pos.y == tile.1 * LAND_TILE_HEIGHT + FIRST_TILE_Y,
            pos.tile() == tile,
    {
        proof {
            lemma_tile_round_trip(tile);
        }
        GridPos::new(tile.0, tile.1).to_world()
    }

    /// The tile that this position lies in: the nearest one on each axis.
    pub fn to_tile(&self) -> (tile: (i32, i32))
        ensures
            tile == self.tile(),
    {
        let x: i64 = if self.x > i64::MAX + FIRST_TILE_X {
            i64::MAX
        } else {
            self.x - FIRST_TILE_X
        };
        let y: i64 = if self.y > i64::MAX + FIRST_TILE_Y {
            i64::MAX
        } else {
            self.y - FIRST_TILE_Y
        };
        proof {
            if self.x > i64::MAX + FIRST_TILE_X {
                lemma_round_div_far_right(self.x - FIRST_TILE_X, LAND_TILE_WIDTH as int);
                lemma_round_div_far_right(x as int, LAND_TILE_WIDTH as int);
            }
            if self.y > i64::MAX + FIRST_TILE_Y {
                lemma_round_div_far_right(self.y - FIRST_TILE_Y, LAND_TILE_HEIGHT as int);
                lemma_round_div_far_right(y as int, LAND_TILE_HEIGHT as int);
            }
        }
        (GridPos { x, y }).to_tile()
    }

    /// Whether this position lies in a tile of the land.
    pub fn in_land(&self) -> (inside: bool)
        ensures
            inside == self.on_land(),
    {
        let tile = self.to_tile();
        0 <= tile.0 && tile.0 < LAND_COLUMNS && 0 <= tile.1 && tile.1 < LAND_ROWS
    }
}

/// Round trip: the centre of a tile lies in that tile, for every tile, so
/// going from a tile to the world and back gives the tile again.
pub proof fn lemma_tile_round_trip(tile: (i32, i32))
    ensures
        WorldPos::centre_of(tile).tile() == tile,
        GridPos::of_tile(tile).tile() == tile,
        GridPos::of_tile(tile).world() == (
            WorldPos::centre_of(tile).x as int,
            WorldPos::centre_of(tile).y as int,
        ),
{
    assert(-0x8000_0000 * 24000 <= tile.0 * 24000 <= 0x7fff_ffff * 24000) by (nonlinear_arith)
        requires
            -0x8000_0000 <= tile.0 <= 0x7fff_ffff,
    ;
    assert(-0x8000_0000 * 30000 <= tile.1 * 30000 <= 0x7fff_ffff * 30000) by (nonlinear_arith)
        requires
            -0x8000_0000 <= tile.1 <= 0x7fff_ffff,
    ;
    lemma_round_div_of_multiple(tile.0 as int, LAND_TILE_WIDTH as int);
    lemma_round_div_of_multiple(tile.1 as int, LAND_TILE_HEIGHT as int);
}

/// `bevy::platform::hash::FixedHasher`, the hasher that bevy's hash map uses
/// by default. Nothing is said of it.
#[verifier::external_type_specification]
#[verifier::external_body]
pub struct ExFixedHasher(FixedHasher);

/// `bevy::platform::collections::HashMap`, bevy's hash map. What it holds
/// is named by [`tile_entries`]; nothing else is known of it.
#[verifier::external_type_specification]
#[verifier::external_body]
#[verifier::reject_recursive_types(K)]
#[verifier::reject_recursive_types(V)]
#[verifier::reject_recursive_types(S)]
pub struct ExHashMap<K, V, S>(HashMap<K, V, S>);

/// The table behind [`LandPlants`]: for a tile, the plant that stands on it,
/// if any.
pub type TileMap = HashMap<(i32, i32), Option<u64>>;

/// What a [`TileMap`] holds: its keys and the value stored under each. The
/// name has no definition; the three functions that follow say, on trust,
/// what the calls into the hash map do to it.
pub uninterp spec fn tile_entries(tiles: TileMap) -> Map<(i32, i32), Option<u64>>;

/// Calls `HashMap::new`. Taken on trust: the new map holds nothing.
#[verifier::external_body]
fn tiles_new() -> (made: TileMap)
    ensures
        (tile_entries(made) == Map::<(i32, i32), Option<u64>>::empty()),
{
    HashMap::new()
}

/// Calls `HashMap::insert`. Taken on trust: afterwards the key is bound to
/// the value, whether it was bound before or not, and every other key is as
/// it was.
#[verifier::external_body]
fn tiles_insert(tiles: &mut TileMap, key: (i32, i32), value: Option<u64>)
    ensures
        tile_entries(*final(tiles)) == tile_entries(*old(tiles)).insert(key, value),
{
    tiles.insert(key, value);
}

/// Calls `HashMap::get`. Taken on trust: the result is the value that the
/// key is bound to, if it is bound, and nothing if it is not.
#[verifier::external_body]
fn tiles_get(tiles: &TileMap, key: (i32, i32)) -> (value: Option<Option<u64>>)
    ensures
        value == (if tile_entries(*tiles).dom().contains(key) {
            Some(tile_entries(*tiles)[key])
        } else {
            None
        }),
{
    tiles.get(&key).copied()
}

/// What was wrong with a change of the plant index: the tile was not as
/// the caller thought.
#[derive(Clone, Copy, Debug, PartialEq, Eq, Structural)]
pub enum OccupancyError {
    /// A plant was added to a tile that already had one.
    TileOccupied,
    /// A plant was removed from a tile that had none.
    TileEmpty,
}

/// Map index storing the plant on each tile.
pub struct LandPlants {
    pub tiles: TileMap,
}

impl View for LandPlants {
    type V = Map<(i32, i32), Option<u64>>;

    open spec fn view(&self) -> Map<(i32, i32), Option<u64>> {
        tile_entries(self.tiles)
    }
}

/// Whether a tile is one of the land's.
pub open spec fn is_land_tile(tile: (i32, i32)) -> bool {
    0 <= tile.0 < LAND_COLUMNS && 0 <= tile.1 < LAND_ROWS
}

/// The plant that a table of tiles has on a tile: none where the table has
/// no entry.
pub open spec fn occupant_of(tiles: Map<(i32, i32), Option<u64>>, tile: (i32, i32)) -> Option<u64> {
    if tiles.dom().contains(tile) {
        tiles[tile]
    } else {
        None
    }
}

impl LandPlants {
    /// The plant on a tile.
    pub open spec fn occupant(self, tile: (i32, i32)) -> Option<u64> {
        occupant_of(self@, tile)
    }

    /// Whether no tile holds a plant.
    pub open spec fn bare(self) -> bool {
        forall|tile: (i32, i32)| self.occupant(tile) is None
    }

    /// The plant on a tile, if there is one.
    pub fn get(&self, tile: (i32, i32)) -> (plant: Option<u64>)
        ensures
            plant == self.occupant(tile),
    {
        match tiles_get(&self.tiles, tile) {
            Some(found) => found,
            None => None,
        }
    }

    /// Records `entity` as the plant on the tile of `pos`. The tile should be
    /// empty: if it is not, the new plant takes the place of the old one in
    /// the index and the call reports [`OccupancyError::TileOccupied`].
    pub fn add(&mut self, pos: GridPos, entity: u64) -> (done: Result<(), OccupancyError>)
        ensures
            final(self)@ == old(self)@.insert(pos.tile(), Some(entity)),
            final(self).occupant(pos.tile()) == Some(entity),
            old(self).occupant(pos.tile()) is None ==> done == Ok::<(), OccupancyError>(()),
            old(self).occupant(pos.tile()) is Some ==> done == Err::<(), OccupancyError>(
                OccupancyError::TileOccupied,
            ),
    {
        let key = pos.to_tile();
        let was_empty = self.is_empty(pos);
        tiles_insert(&mut self.tiles, key, Some(entity));
        if was_empty {
            Ok(())
        } else {
            Err(OccupancyError::TileOccupied)
        }
    }

    /// Whether no plant stands on the tile of `pos`.
    pub fn is_empty(&self, pos: GridPos) -> (empty: bool)
        ensures
            empty == (self.occupant(pos.tile()) is None),
    {
        self.get(pos.to_tile()).is_none()
    }

    /// Clears the tile of `pos`. The tile should hold a plant: if it does
    /// not, the call reports [`OccupancyError::TileEmpty`].
    pub fn remove(&mut self, pos: GridPos) -> (done: Result<(), OccupancyError>)
        ensures
            final(self)@ == old(self)@.insert(pos.tile(), None),
            final(self).occupant(pos.tile()) is None,
            old(self).occupant(pos.tile()) is Some ==> done == Ok::<(), OccupancyError>(()),
            old(self).occupant(pos.tile()) is None ==> done == Err::<(), OccupancyError>(
                OccupancyError::TileEmpty,
            ),
    {
        let key = pos.to_tile();
        let was_empty = self.is_empty(pos);
        tiles_insert(&mut self.tiles, key, None);
        if was_empty {
            Err(OccupancyError::TileEmpty)
        } else {
            Ok(())
        }
    }
}

impl Default for LandPlants {
    /// The index of a fresh lawn: every tile of the land is there, and empty.
    fn default() -> (land: LandPlants)
        ensures
            land.bare(),
            forall|tile: (i32, i32)| land@.dom().contains(tile) <==> is_land_tile(tile),
    {
        let mut tiles = tiles_new();
        let mut x: i32 = 0;
        while x < LAND_COLUMNS
            invariant
                0 <= x <= LAND_COLUMNS,
                forall|tile: (i32, i32)|
                    tile_entries(tiles).dom().contains(tile) <==> (0 <= tile.0 < x && 0 <= tile.1
                        < LAND_ROWS),
                forall|tile: (i32, i32)|
                    tile_entries(tiles).dom().contains(tile) ==> tile_entries(tiles)[tile] is None,
            decreases LAND_COLUMNS - x,
        {
            let mut y: i32 = 0;
            while y < LAND_ROWS
                invariant
                    0 <= x < LAND_COLUMNS,
                    0 <= y <= LAND_ROWS,
                    forall|tile: (i32, i32)|
                        tile_entries(tiles).dom().contains(tile) <==> ((0 <= tile.0 < x && 0
                            <= tile.1 < LAND_ROWS) || (tile.0 == x && 0 <= tile.1 < y)),
                    forall|tile: (i32, i32)|
                        tile_entries(tiles).dom().contains(tile) ==> tile_entries(tiles)[tile] is None,
                decreases LAND_ROWS - y,
            {
                tiles_insert(&mut tiles, (x, y), None);
                y = y + 1;
            }
            x = x + 1;
        }
        LandPlants { tiles }
    }
}

} // verus!
