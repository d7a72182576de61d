use vstd::prelude::*;
use vstd::arithmetic::div_mod::lemma_small_mod;
use crate::location::{Location, Species, spec_location_description};
use crate::noise_field::lemma_mul_upper;
use crate::position::Position;

verus! {

/// The terrain classification of a world cell.
#[derive(Debug, Clone, Copy, PartialEq, Eq, Structural)]
pub enum TerrainType {
    Water,
    Plains,
    Forest,
    Mountains,
    Desert,
    Snow,
    Jungle,
    Swamp,
}

/// A marker for a notable site on the overworld.
#[derive(Debug, Clone, Copy, PartialEq, Eq, Structural)]
pub enum FeatureType {
    Plain,
    Town,
    Dungeon,
    Mine,
    Shrine,
    Ruins,
}

/// One world grid cell. `height` is the elevation in thousandths of the unit
/// interval; `blocked` is derived from the terrain; `seen` is the only field
/// that changes after generation.
#[derive(Debug, Clone)]
pub struct Tile {
    pub height: u32,
    pub terrain: TerrainType,
    pub location: Option<Location>,
    pub blocked: bool,
    pub seen: bool,
}

/// Whether terrain blocks movement: exactly water and mountains do.
pub open spec fn terrain_blocks(t: TerrainType) -> bool {
    t == TerrainType::Water || t == TerrainType::Mountains
}

/// The map glyph of a tile: a settlement shows its species, bare terrain its
/// classification.
pub open spec fn spec_appearance(t: Tile) -> char {
    match t.location {
        Option::Some(l) => match l.species {
            Species::Human => 'H',
            Species::Orc => 'O',
            Species::Elf => 'E',
            Species::Cat => 'C',
            Species::Rat => 'R',
            Species::Bee => 'B',
            Species::Bear => '\u{01B1}',
            Species::Spirit => 'G',
        },
        Option::None => match t.terrain {
            TerrainType::Water => 'w',
            TerrainType::Plains => ',',
            TerrainType::Forest => 'p',
            TerrainType::Mountains => '^',
            TerrainType::Desert => '.',
            TerrainType::Snow => '*',
            TerrainType::Jungle => 'd',
            TerrainType::Swamp => 's',
        },
    }
}

impl Tile {
    /// The map glyph of the tile.
    pub fn appearance(&self) -> (c: char)
        ensures
            c == spec_appearance(*self),
    {
        match &self.location {
            Option::Some(l) => match l.species {
                Species::Human => 'H',
                Species::Orc => 'O',
                Species::Elf => 'E',
                Species::Cat => 'C',
                Species::Rat => 'R',
                Species::Bee => 'B',
                Species::Bear => '\u{01B1}',
                Species::Spirit => 'G',
            },
            Option::None => match self.terrain {
                TerrainType::Water => 'w',
                TerrainType::Plains => ',',
                TerrainType::Forest => 'p',
                TerrainType::Mountains => '^',
                TerrainType::Desert => '.',
                TerrainType::Snow => '*',
                TerrainType::Jungle => 'd',
                TerrainType::Swamp => 's',
            },
        }
    }
}

/// The world grid, one row after another in a single flat buffer.
pub type TileGrid = Vec<Tile>;

/// The fog-of-war radius around the player.
pub const FOG_RADIUS: i64 = 4;

/// A cell index within a `width * height` grid stays within the buffer.
pub proof fn lemma_grid_index(x: int, y: int, w: int, h: int)
    requires
        0 <= x < w,
        0 <= y < h,
    ensures
        0 <= y * w + x < w * h,
        y * w >= 0,
{
    assert(0 <= y * w + x < w * h) by (nonlinear_arith)
        requires
            0 <= x < w,
            0 <= y < h,
    ;
    assert(y * w >= 0) by (nonlinear_arith)
        requires
            0 <= y,
            0 < w,
    ;
}

/// The generated overworld: a fixed-size toroidal grid of tiles.
pub struct World {
    pub seed: u64,
    pub width: usize,
    pub height: usize,
    pub wraparound: bool,
    pub tiles: TileGrid,
}

impl World {
    /// A world is well formed when its grid matches its stated dimensions and
    /// the dimensions stay within the supported bounds.
    pub open spec fn wf(&self) -> bool {
        &&& 1 <= self.width
        &&& 1 <= self.height
        &&& self.width * self.height <= 0x1000_0000
        &&& self.tiles@.len() == self.width * self.height
    }

    /// The tile at cell `(x, y)`.
    pub open spec fn spec_tile(&self, x: int, y: int) -> Tile {
        self.tiles@[y * self.width + x]
    }

    pub fn width(&self) -> (r: usize)
        ensures
            r == self.width,
    {
        self.width
    }

    pub fn height(&self) -> (r: usize)
        ensures
            r == self.height,
    {
        self.height
    }

    pub fn get_tile(&self, position: &Position) -> (t: &Tile)
        requires
            self.wf(),
            position.x < self.width,
            position.y < self.height,
        ensures
            *t == self.spec_tile(position.x as int, position.y as int),
    {
        proof {
            lemma_grid_index(position.x as int, position.y as int, self.width as int,
                self.height as int);
        }
        &self.tiles[position.y * self.width + position.x]
    }

    /// The coordinates a position maps to on this world: reduced modulo the
    /// dimensions under wraparound, clamped to the edges otherwise.
    pub open spec fn spec_wrapped(&self, p: Position) -> Position {
        if self.wraparound {
            Position {
                x: (p.x as int % self.width as int) as usize,
                y: (p.y as int % self.height as int) as usize,
            }
        } else {
            Position {
                x: if p.x < self.width {
                    p.x
                } else {
                    (self.width - 1) as usize
                },
                y: if p.y < self.height {
                    p.y
                } else {
                    (self.height - 1) as usize
                },
            }
        }
    }

    /// Toroidal normalization of a position.
    pub fn get_wrapped_coordinates(&self, position: &Position) -> (r: Position)
        requires
            1 <= self.width,
            1 <= self.height,
        ensures
            r == self.spec_wrapped(*position),
            r.x < self.width,
            r.y < self.height,
    {
        if self.wraparound {
            Position { x: position.x % self.width, y: position.y % self.height }
        } else {
            Position {
                x: if position.x < self.width {
                    position.x
                } else {
                    self.width - 1
                },
                y: if position.y < self.height {
                    position.y
                } else {
                    self.height - 1
                },
            }
        }
    }

    /// A settlement's one-line prompt, if the tile holds one.
    pub fn get_interaction_prompt(&self, tile: &Tile) -> (r: Option<String>)
        ensures
            r is Some <==> tile.location is Some,
            tile.location is Some ==> r.unwrap()@ == spec_location_description(
                tile.location.unwrap(),
            ),
    {
        match &tile.location {
            Option::Some(loc) => Option::Some(loc.generate_description()),
            Option::None => Option::None,
        }
    }
}

/// Whether the offset `(dx, dy)` lands the fog update centered at `(cx, cy)`
/// on cell `(x, y)`, given the world's topology.
pub open spec fn fog_offset_hits(
    w: int,
    h: int,
    wrap: bool,
    cx: int,
    cy: int,
    x: int,
    y: int,
    dx: int,
    dy: int,
) -> bool {
    if wrap {
        x == (cx + dx) % w && y == (cy + dy) % h
    } else {
        x == cx + dx && y == cy + dy
    }
}

/// Whether the visibility update centered at `(cx, cy)` with the given radius
/// marks cell `(x, y)`: some offset within the circular mask lands on it.
pub open spec fn fog_covers(
    w: int,
    h: int,
    wrap: bool,
    cx: int,
    cy: int,
    radius: int,
    x: int,
    y: int,
) -> bool {
    exists|dx: int, dy: int|
        #![trigger fog_offset_hits(w, h, wrap, cx, cy, x, y, dx, dy)]
        -radius <= dx <= radius && -radius <= dy <= radius && dx * dx + dy * dy <= radius * radius
            && fog_offset_hits(w, h, wrap, cx, cy, x, y, dx, dy)
}

/// Like `fog_covers`, restricted to the offsets a row-major sweep of the mask
/// has already visited when it stands at `(dxi, dyi)`.
pub open spec fn fog_covers_before(
    w: int,
    h: int,
    wrap: bool,
    cx: int,
    cy: int,
    radius: int,
    x: int,
    y: int,
    dyi: int,
    dxi: int,
) -> bool {
    exists|dx: int, dy: int|
        #![trigger fog_offset_hits(w, h, wrap, cx, cy, x, y, dx, dy)]
        -radius <= dx <= radius && -radius <= dy <= radius && (dy < dyi || (dy == dyi && dx < dxi))
            && dx * dx + dy * dy <= radius * radius && fog_offset_hits(w, h, wrap, cx, cy, x, y, dx, dy)
}

/// Distinct cells of a grid have distinct flat indices.
pub proof fn lemma_grid_index_injective(x1: int, y1: int, x2: int, y2: int, w: int)
    requires
        0 <= x1 < w,
        0 <= x2 < w,
        0 <= y1,
        0 <= y2,
        y1 * w + x1 == y2 * w + x2,
    ensures
        x1 == x2,
        y1 == y2,
{
    assert(x1 == x2 && y1 == y2) by (nonlinear_arith)
        requires
            0 <= x1 < w,
            0 <= x2 < w,
            0 <= y1,
            0 <= y2,
            y1 * w + x1 == y2 * w + x2,
    ;
}

impl World {
    /// All fields of every tile except `seen` agree between the two worlds,
    /// and the frame of the world itself is unchanged.
    pub open spec fn same_but_seen(self, other: World) -> bool {
        &&& other.seed == self.seed
        &&& other.width == self.width
        &&& other.height == self.height
        &&& other.wraparound == self.wraparound
        &&& other.tiles@.len() == self.tiles@.len()
        &&& forall|i: int|
            0 <= i < self.tiles@.len() ==> {
                &&& (#[trigger] other.tiles@[i]).height == self.tiles@[i].height
                &&& other.tiles@[i].terrain == self.tiles@[i].terrain
                &&& other.tiles@[i].location == self.tiles@[i].location
                &&& other.tiles@[i].blocked == self.tiles@[i].blocked
            }
    }

    /// Recompute the visibility overlay around the player with the fixed fog
    /// radius; the only mutation path into the grid after generation.
    pub fn update(&mut self, player_pos: &Position)
        requires
            old(self).wf(),
            player_pos.x < old(self).width,
            player_pos.y < old(self).height,
        ensures
            old(self).same_but_seen(*final(self)),
            forall|x: int, y: int|
                0 <= x < old(self).width && 0 <= y < old(self).height ==> (#[trigger] final(self).spec_tile(x, y)).seen == (old(self).spec_tile(x, y).seen || fog_covers(
                    old(self).width as int,
                    old(self).height as int,
                    old(self).wraparound,
                    player_pos.x as int,
                    player_pos.y as int,
                    FOG_RADIUS as int,
                    x,
                    y,
                )),
    {
        self.update_visibility(player_pos, FOG_RADIUS);
    }

    /// Mark every cell within the circular mask of squared radius
    /// `radius * radius` around `position` as seen, wrapping the mask around
    /// the torus when wraparound is on and dropping out-of-range cells
    /// otherwise.
    fn update_visibility(&mut self, position: &Position, radius: i64)
        requires
            old(self).wf(),
            position.x < old(self).width,
            position.y < old(self).height,
            0 <= radius <= 1000,
        ensures
            old(self).same_but_seen(*final(self)),
            forall|x: int, y: int|
                0 <= x < old(self).width && 0 <= y < old(self).height ==> (#[trigger] final(self).spec_tile(x, y)).seen == (old(self).spec_tile(x, y).seen || fog_covers(
                    old(self).width as int,
                    old(self).height as int,
                    old(self).wraparound,
                    position.x as int,
                    position.y as int,
                    radius as int,
                    x,
                    y,
                )),
    {
        let ghost w = old(self).width as int;
        let ghost h = old(self).height as int;
        let ghost wrap = old(self).wraparound;
        let ghost cx = position.x as int;
        let ghost cy = position.y as int;
        let ghost r = radius as int;
        let mut dy: i64 = -radius;
        while dy <= radius
            invariant
                old(self).wf(),
                position.x < old(self).width,
                position.y < old(self).height,
                0 <= radius <= 1000,
                w == old(self).width as int,
                h == old(self).height as int,
                wrap == old(self).wraparound,
                cx == position.x as int,
                cy == position.y as int,
                r == radius as int,
                -radius <= dy <= radius + 1,
                old(self).same_but_seen(*self),
                forall|x: int, y: int|
                    0 <= x < w && 0 <= y < h ==> (#[trigger] self.spec_tile(x, y)).seen == (old(self).spec_tile(x, y).seen || fog_covers_before(w, h, wrap, cx, cy, r, x, y,
                        dy as int, -r)),
            decreases radius + 1 - dy,
        {
            let mut dx: i64 = -radius;
            while dx <= radius
                invariant
                    old(self).wf(),
                    position.x < old(self).width,
                    position.y < old(self).height,
                    0 <= radius <= 1000,
                    w == old(self).width as int,
                    h == old(self).height as int,
                    wrap == old(self).wraparound,
                    cx == position.x as int,
                    cy == position.y as int,
                    r == radius as int,
                    -radius <= dy <= radius,
                    -radius <= dx <= radius + 1,
                    old(self).same_but_seen(*self),
                    forall|x: int, y: int|
                        0 <= x < w && 0 <= y < h ==> (#[trigger] self.spec_tile(x, y)).seen == (
                        old(self).spec_tile(x, y).seen || fog_covers_before(w, h, wrap, cx, cy, r,
                            x, y, dy as int, dx as int)),
                decreases radius + 1 - dx,
            {
                let ghost prev = *self;
                proof {
                    assert(0 <= dx * dx <= 1_000_000 && 0 <= dy * dy <= 1_000_000 && 0 <= radius
                        * radius <= 1_000_000) by (nonlinear_arith)
                        requires
                            -1000 <= dx <= 1000,
                            -1000 <= dy <= 1000,
                            0 <= radius <= 1000,
                    ;
                }
                if dx * dx + dy * dy <= radius * radius {
                    self.mark_seen(position, dx, dy, radius);
                }
                proof {
                    assert forall|x: int, y: int| 0 <= x < w && 0 <= y < h implies ((
                    #[trigger] self.spec_tile(x, y)).seen == (old(self).spec_tile(x, y).seen
                        || fog_covers_before(w, h, wrap, cx, cy, r, x, y, dy as int, dx as int
                        + 1))) by {
                        let hit = dx * dx + dy * dy <= radius * radius;
                        if fog_covers_before(w, h, wrap, cx, cy, r, x, y, dy as int, dx as int
                            + 1) {
                            let (dx0, dy0) = choose|dx0: int, dy0: int|
                                -r <= dx0 <= r && -r <= dy0 <= r && (dy0 < dy as int || (dy0
                                    == dy as int && dx0 < dx as int + 1)) && dx0 * dx0 + dy0 * dy0
                                    <= r * r && #[trigger] fog_offset_hits(w, h, wrap, cx, cy, x,
                                    y, dx0, dy0);
                            if dy0 < dy as int || (dy0 == dy as int && dx0 < dx as int) {
                                assert(fog_covers_before(w, h, wrap, cx, cy, r, x, y, dy as int,
                                    dx as int));
                                assert(prev.spec_tile(x, y).seen);
                            } else {
                                assert(dx0 == dx as int && dy0 == dy as int);
                                assert(hit);
                                assert(self.spec_tile(x, y).seen);
                            }
                        }
                        if self.spec_tile(x, y).seen && !old(self).spec_tile(x, y).seen {
                            if prev.spec_tile(x, y).seen {
                                let (dx0, dy0) = choose|dx0: int, dy0: int|
                                    -r <= dx0 <= r && -r <= dy0 <= r && (dy0 < dy as int || (dy0
                                        == dy as int && dx0 < dx as int)) && dx0 * dx0 + dy0 * dy0
                                        <= r * r && #[trigger] fog_offset_hits(w, h, wrap, cx, cy,
                                        x, y, dx0, dy0);
                                assert(fog_covers_before(w, h, wrap, cx, cy, r, x, y, dy as int,
                                    dx as int + 1));
                            } else {
                                assert(hit && fog_offset_hits(w, h, wrap, cx, cy, x, y, dx as int,
                                    dy as int));
                                assert(fog_covers_before(w, h, wrap, cx, cy, r, x, y, dy as int,
                                    dx as int + 1));
                            }
                        }
                    }
                }
                dx = dx + 1;
            }
            proof {
                assert forall|x: int, y: int| 0 <= x < w && 0 <= y < h implies ((#[trigger] self
                    .spec_tile(x, y)).seen == (old(self).spec_tile(x, y).seen
                    || fog_covers_before(w, h, wrap, cx, cy, r, x, y, dy as int + 1, -r))) by {
                    if fog_covers_before(w, h, wrap, cx, cy, r, x, y, dy as int + 1, -r) {
                        let (dx0, dy0) = choose|dx0: int, dy0: int|
                            -r <= dx0 <= r && -r <= dy0 <= r && (dy0 < dy as int + 1 || (dy0
                                == dy as int + 1 && dx0 < -r)) && dx0 * dx0 + dy0 * dy0 <= r * r
                                && #[trigger] fog_offset_hits(w, h, wrap, cx, cy, x, y, dx0, dy0);
                        assert(fog_covers_before(w, h, wrap, cx, cy, r, x, y, dy as int, dx as int
                            + 1));
                    }
                    if self.spec_tile(x, y).seen && !old(self).spec_tile(x, y).seen {
                        let (dx0, dy0) = choose|dx0: int, dy0: int|
                            -r <= dx0 <= r && -r <= dy0 <= r && (dy0 < dy as int || (dy0
                                == dy as int && dx0 < dx as int)) && dx0 * dx0 + dy0 * dy0 <= r
                                * r && #[trigger] fog_offset_hits(w, h, wrap, cx, cy, x, y, dx0,
                                dy0);
                        assert(fog_covers_before(w, h, wrap, cx, cy, r, x, y, dy as int + 1, -r));
                    }
                }
            }
            dy = dy + 1;
        }
        proof {
            assert forall|x: int, y: int| 0 <= x < w && 0 <= y < h implies ((#[trigger] self
                .spec_tile(x, y)).seen == (old(self).spec_tile(x, y).seen || fog_covers(
                w,
                h,
                wrap,
                cx,
                cy,
                r,
                x,
                y,
            ))) by {
                if fog_covers(w, h, wrap, cx, cy, r, x, y) {
                    let (dx0, dy0) = choose|dx0: int, dy0: int|
                        -r <= dx0 <= r && -r <= dy0 <= r && dx0 * dx0 + dy0 * dy0 <= r * r
                            && #[trigger] fog_offset_hits(w, h, wrap, cx, cy, x, y, dx0, dy0);
                    assert(fog_covers_before(w, h, wrap, cx, cy, r, x, y, r + 1, -r));
                }
                if self.spec_tile(x, y).seen && !old(self).spec_tile(x, y).seen {
                    let (dx0, dy0) = choose|dx0: int, dy0: int|
                        -r <= dx0 <= r && -r <= dy0 <= r && (dy0 < r + 1 || (dy0 == r + 1 && dx0
                            < -r)) && dx0 * dx0 + dy0 * dy0 <= r * r && #[trigger] fog_offset_hits(
                            w,
                            h,
                            wrap,
                            cx,
                            cy,
                            x,
                            y,
                            dx0,
                            dy0,
                        );
                    assert(fog_covers(w, h, wrap, cx, cy, r, x, y));
                }
            }
        }
    }


    /// Mark the single cell that the offset `(dx, dy)` reaches from
    /// `position` as seen, if it lands on the grid.
    fn mark_seen(&mut self, position: &Position, dx: i64, dy: i64, radius: i64)
        requires
            old(self).wf(),
            position.x < old(self).width,
            position.y < old(self).height,
            0 <= radius <= 1000,
            -radius <= dx <= radius,
            -radius <= dy <= radius,
        ensures
            old(self).same_but_seen(*final(self)),
            forall|x: int, y: int|
                0 <= x < old(self).width && 0 <= y < old(self).height ==> (#[trigger] final(self).spec_tile(x, y)).seen == (old(self).spec_tile(x, y).seen || fog_offset_hits(
                    old(self).width as int,
                    old(self).height as int,
                    old(self).wraparound,
                    position.x as int,
                    position.y as int,
                    x,
                    y,
                    dx as int,
                    dy as int,
                )),
    {
        let ghost w = old(self).width as int;
        let ghost h = old(self).height as int;
        proof {
            assert(w <= w * h && h <= w * h) by (nonlinear_arith)
                requires
                    1 <= w,
                    1 <= h,
            ;
        }
        let w_exec: usize = self.width;
        let h_exec: usize = self.height;
        if self.wraparound {
            proof {
                lemma_mul_upper(radius as int, w, 1000, 0x1000_0000);
                lemma_mul_upper(radius as int, h, 1000, 0x1000_0000);
            }
            let bx: u64 = (position.x as u64) + (radius as u64) * (w_exec as u64);
            let by: u64 = (position.y as u64) + (radius as u64) * (h_exec as u64);
            proof {
                vstd::arithmetic::mul::lemma_mul_inequality(1, w, radius as int);
                vstd::arithmetic::mul::lemma_mul_inequality(1, h, radius as int);
                assert(1 * (radius as int) == radius as int) by (nonlinear_arith);
                assert(w * (radius as int) == (radius as int) * w) by (nonlinear_arith);
                assert(h * (radius as int) == (radius as int) * h) by (nonlinear_arith);
            }
            let vx: u64 = if dx >= 0 {
                bx + (dx as u64)
            } else {
                bx - ((-dx) as u64)
            };
            let vy: u64 = if dy >= 0 {
                by + (dy as u64)
            } else {
                by - ((-dy) as u64)
            };
            let wx: usize = (vx % (w_exec as u64)) as usize;
            let wy: usize = (vy % (h_exec as u64)) as usize;
            proof {
                vstd::arithmetic::div_mod::lemma_mod_multiples_vanish(radius as int,
                    position.x as int + dx as int, w);
                vstd::arithmetic::div_mod::lemma_mod_multiples_vanish(radius as int,
                    position.y as int + dy as int, h);
                assert(w * (radius as int) == (radius as int) * w) by (nonlinear_arith);
                assert(h * (radius as int) == (radius as int) * h) by (nonlinear_arith);
                lemma_grid_index(wx as int, wy as int, w, h);
            }
            let idx: usize = wy * w_exec + wx;
            self.tiles[idx].seen = true;
            proof {
                assert forall|x: int, y: int| 0 <= x < w && 0 <= y < h implies (#[trigger] self
                    .spec_tile(x, y)).seen == (old(self).spec_tile(x, y).seen || fog_offset_hits(
                    w,
                    h,
                    old(self).wraparound,
                    position.x as int,
                    position.y as int,
                    x,
                    y,
                    dx as int,
                    dy as int,
                )) by {
                    lemma_grid_index(x, y, w, h);
                    if y * w + x == idx {
                        lemma_grid_index_injective(x, y, wx as int, wy as int, w);
                    }
                }
            }
        } else {
            let txi: i64 = (position.x as i64) + dx;
            let tyi: i64 = (position.y as i64) + dy;
            if 0 <= txi && txi < (w_exec as i64) && 0 <= tyi && tyi < (h_exec as i64) {
                let wx: usize = txi as usize;
                let wy: usize = tyi as usize;
                proof {
                    lemma_grid_index(wx as int, wy as int, w, h);
                }
                let idx: usize = wy * w_exec + wx;
                self.tiles[idx].seen = true;
                proof {
                    assert forall|x: int, y: int| 0 <= x < w && 0 <= y < h implies (#[trigger] self
                        .spec_tile(x, y)).seen == (old(self).spec_tile(x, y).seen
                        || fog_offset_hits(w, h, old(self).wraparound, position.x as int,
                        position.y as int, x, y, dx as int, dy as int)) by {
                        lemma_grid_index(x, y, w, h);
                        if y * w + x == idx {
                            lemma_grid_index_injective(x, y, wx as int, wy as int, w);
                        }
                    }
                }
            }
        }
    }
}

/// The absolute value of an integer.
pub open spec fn abs_int(a: int) -> int {
    if a >= 0 {
        a
    } else {
        -a
    }
}

/// The Manhattan distance between two cells.
pub open spec fn manhattan(x1: int, y1: int, x2: int, y2: int) -> int {
    abs_int(x1 - x2) + abs_int(y1 - y2)
}

/// Whether the tile at `(x, y)` of `w` holds a settlement of species `s`.
pub open spec fn spec_has_species(w: World, s: Species, x: int, y: int) -> bool {
    match w.spec_tile(x, y).location {
        Option::Some(l) => l.species == s,
        Option::None => false,
    }
}

impl World {
    /// The settlement of the given species nearest to `start` by Manhattan
    /// distance: `None` exactly when no tile holds one.
    pub fn find_nearest_species(&self, start: &Position, target_species: Species) -> (r: Option<
        Position,
    >)
        requires
            self.wf(),
            start.x < self.width,
            start.y < self.height,
        ensures
            match r {
                Option::Some(p) => {
                    &&& p.x < self.width
                    &&& p.y < self.height
                    &&& spec_has_species(*self, target_species, p.x as int, p.y as int)
                    &&& forall|x: int, y: int|
                        0 <= x < self.width && 0 <= y < self.height
                            && #[trigger] spec_has_species(*self, target_species, x, y)
                            ==> manhattan(start.x as int, start.y as int, p.x as int, p.y as int)
                            <= manhattan(start.x as int, start.y as int, x, y)
                },
                Option::None => forall|x: int, y: int|
                    0 <= x < self.width && 0 <= y < self.height ==> !(
                    #[trigger] spec_has_species(*self, target_species, x, y)),
            },
    {
        let ghost sx = start.x as int;
        let ghost sy = start.y as int;
        let mut closest: Option<Position> = Option::None;
        let mut best_d: i64 = 0;
        let mut y: usize = 0;
        while y < self.height
            invariant
                self.wf(),
                start.x < self.width,
                start.y < self.height,
                sx == start.x as int,
                sy == start.y as int,
                0 <= y <= self.height,
                match closest {
                    Option::Some(p) => {
                        &&& p.x < self.width
                        &&& p.y < self.height
                        &&& spec_has_species(*self, target_species, p.x as int, p.y as int)
                        &&& best_d == manhattan(sx, sy, p.x as int, p.y as int)
                        &&& forall|xq: int, yq: int|
                            0 <= xq < self.width && 0 <= yq < y && #[trigger] spec_has_species(
                                *self,
                                target_species,
                                xq,
                                yq,
                            ) ==> best_d <= manhattan(sx, sy, xq, yq)
                    },
                    Option::None => forall|xq: int, yq: int|
                        0 <= xq < self.width && 0 <= yq < y ==> !(#[trigger] spec_has_species(
                            *self,
                            target_species,
                            xq,
                            yq,
                        )),
                },
            decreases self.height - y,
        {
            let mut x: usize = 0;
            while x < self.width
                invariant
                    self.wf(),
                    start.x < self.width,
                    start.y < self.height,
                    sx == start.x as int,
                    sy == start.y as int,
                    0 <= y < self.height,
                    0 <= x <= self.width,
                    match closest {
                        Option::Some(p) => {
                            &&& p.x < self.width
                            &&& p.y < self.height
                            &&& spec_has_species(*self, target_species, p.x as int, p.y as int)
                            &&& best_d == manhattan(sx, sy, p.x as int, p.y as int)
                            &&& forall|xq: int, yq: int|
                                0 <= xq < self.width && 0 <= yq < self.height && (yq < y || (yq
                                    == y && xq < x)) && #[trigger] spec_has_species(*self,
                                    target_species, xq, yq) ==> best_d <= manhattan(sx, sy, xq, yq)
                        },
                        Option::None => forall|xq: int, yq: int|
                            0 <= xq < self.width && 0 <= yq < self.height && (yq < y || (yq == y
                                && xq < x)) ==> !(#[trigger] spec_has_species(*self,
                                target_species, xq, yq)),
                    },
                decreases self.width - x,
            {
                let here = Position { x, y };
                let tile = self.get_tile(&here);
                let mut hit: bool = false;
                match &tile.location {
                    Option::Some(l) => {
                        if l.species == target_species {
                            hit = true;
                        }
                    },
                    Option::None => {},
                }
                if hit {
                    proof {
                        assert(self.width <= self.width * self.height && self.height <= self.width
                            * self.height) by (nonlinear_arith)
                            requires
                                1 <= self.width,
                                1 <= self.height,
                        ;
                    }
                    let dxv: i64 = if start.x >= x {
                        (start.x - x) as i64
                    } else {
                        (x - start.x) as i64
                    };
                    let dyv: i64 = if start.y >= y {
                        (start.y - y) as i64
                    } else {
                        (y - start.y) as i64
                    };
                    let d: i64 = dxv + dyv;
                    let replace: bool = match &closest {
                        Option::Some(_) => d < best_d,
                        Option::None => true,
                    };
                    if replace {
                        closest = Option::Some(here);
                        best_d = d;
                    }
                }
                x = x + 1;
            }
            y = y + 1;
        }
        closest
    }
}


impl World {
    /// The destination of a one-step move from `from` by `(dx, dy)`:
    /// wrapped around the torus when wraparound is on, rejected at the edge
    /// otherwise, and rejected when the destination tile blocks movement.
    pub fn try_move(&self, from: &Position, dx: i32, dy: i32) -> (r: Option<Position>)
        requires
            self.wf(),
            from.x < self.width,
            from.y < self.height,
            -1 <= dx <= 1,
            -1 <= dy <= 1,
        ensures
            match r {
                Option::Some(p) => {
                    &&& p.x < self.width
                    &&& p.y < self.height
                    &&& !self.spec_tile(p.x as int, p.y as int).blocked
                    &&& if self.wraparound {
                        p.x as int == (from.x + dx) % (self.width as int) && p.y as int == (from.y
                            + dy) % (self.height as int)
                    } else {
                        p.x as int == from.x + dx && p.y as int == from.y + dy
                    }
                },
                Option::None => if self.wraparound {
                    self.spec_tile(
                        (from.x + dx) % (self.width as int),
                        (from.y + dy) % (self.height as int),
                    ).blocked
                } else {
                    from.x + dx < 0 || from.x + dx >= self.width || from.y + dy < 0 || from.y + dy
                        >= self.height || self.spec_tile(from.x + dx, from.y + dy).blocked
                },
            },
    {
        proof {
            assert(self.width <= self.width * self.height && self.height <= self.width
                * self.height) by (nonlinear_arith)
                requires
                    1 <= self.width,
                    1 <= self.height,
            ;
        }
        if self.wraparound {
            let bx: usize = from.x + self.width;
            let by: usize = from.y + self.height;
            let vx: usize = if dx >= 0 {
                bx + (dx as usize)
            } else {
                bx - 1
            };
            let vy: usize = if dy >= 0 {
                by + (dy as usize)
            } else {
                by - 1
            };
            let wx: usize = vx % self.width;
            let wy: usize = vy % self.height;
            proof {
                vstd::arithmetic::div_mod::lemma_mod_multiples_vanish(1, from.x + dx as int,
                    self.width as int);
                vstd::arithmetic::div_mod::lemma_mod_multiples_vanish(1, from.y + dy as int,
                    self.height as int);
                assert((self.width as int) * 1 == self.width as int) by (nonlinear_arith);
                assert((self.height as int) * 1 == self.height as int) by (nonlinear_arith);
            }
            let p = Position { x: wx, y: wy };
            if self.get_tile(&p).blocked {
                Option::None
            } else {
                Option::Some(p)
            }
        } else {
            let tx: i64 = from.x as i64 + dx as i64;
            let ty: i64 = from.y as i64 + dy as i64;
            if tx < 0 || tx >= self.width as i64 || ty < 0 || ty >= self.height as i64 {
                Option::None
            } else {
                let p = Position { x: tx as usize, y: ty as usize };
                if self.get_tile(&p).blocked {
                    Option::None
                } else {
                    Option::Some(p)
                }
            }
        }
    }
}

/// Coordinate normalization leaves an already-normalized position unchanged:
/// applying it twice is the same as applying it once, and the result always
/// lies within `[0, width) x [0, height)`.
pub proof fn lemma_wrapped_idempotent(w: World, p: Position)
    requires
        1 <= w.width,
        1 <= w.height,
    ensures
        w.spec_wrapped(p).x < w.width,
        w.spec_wrapped(p).y < w.height,
        w.spec_wrapped(w.spec_wrapped(p)) == w.spec_wrapped(p),
{
    let q = w.spec_wrapped(p);
    if w.wraparound {
        lemma_small_mod(q.x as nat, w.width as nat);
        lemma_small_mod(q.y as nat, w.height as nat);
    }
}

/// A deterministic per-cell seed derived from the world seed, distinct for
/// distinct cells of one world.
pub fn local_seed(global_seed: u64, world_x: usize, world_y: usize) -> (r: u64)
    ensures
        r == global_seed ^ (((world_x as u64) << 32u64) | (world_y as u64)),
{
    global_seed ^ (((world_x as u64) << 32u64) | (world_y as u64))
}

} // verus!
