use vstd::prelude::*;
use crate::position::Position;
use crate::world::lemma_grid_index;

verus! {

/// The tile types of a settlement interior.
#[derive(Debug, Clone, Copy, PartialEq, Eq, Structural)]
pub enum LocationTileType {
    Ground,
    Wall,
    Water,
    HumanRoad,
    ElfPath,
    OrcTrail,
    HumanHouse,
    ElfTreehouse,
    OrcHut,
    Trading,
    Shrine,
}

/// The kinds of notable feature a local tile can carry.
#[derive(Debug, Clone, Copy, PartialEq, Eq, Structural)]
pub enum FeatureType {
    Market,
    Temple,
    Tavern,
    Blacksmith,
    Garden,
    TrainingGround,
    Storage,
}

/// A named feature on a local tile.
#[derive(Debug, Clone, PartialEq)]
pub struct Feature {
    pub name: String,
    pub feature_type: FeatureType,
}

/// One cell of a settlement interior.
#[derive(Debug, Clone, PartialEq)]
pub struct LocationTile {
    pub blocked: bool,
    pub tile_type: LocationTileType,
    pub feature: Option<Feature>,
}

/// A feature together with its position, for lookup without scanning the
/// grid.
#[derive(Debug, Clone, PartialEq)]
pub struct PointOfInterest {
    pub position: Position,
    pub feature: Feature,
}

/// Whether a tile type can be walked on: walls and every species' building
/// type block movement, everything else does not. This single predicate is
/// shared by spawn search and movement validation.
pub open spec fn walkable_type(t: LocationTileType) -> bool {
    !(t == LocationTileType::Wall || t == LocationTileType::HumanHouse || t
        == LocationTileType::ElfTreehouse || t == LocationTileType::OrcHut)
}

/// A settlement interior: a flat row-major grid of local tiles and the list
/// of its points of interest.
#[derive(Debug, Clone, PartialEq)]
pub struct LocationMap {
    pub width: usize,
    pub height: usize,
    pub tiles: Vec<LocationTile>,
    pub points_of_interest: Vec<PointOfInterest>,
}

impl LocationMap {
    /// A map is well formed when its grid matches its stated dimensions and
    /// the dimensions stay within the supported bounds.
    pub open spec fn wf(&self) -> bool {
        &&& 1 <= self.width
        &&& 1 <= self.height
        &&& self.width * self.height <= 0x1000_0000
        &&& self.tiles@.len() == self.width * self.height
    }

    /// The tile at cell `(x, y)`.
    pub open spec fn spec_tile(&self, x: int, y: int) -> LocationTile {
        self.tiles@[y * self.width + x]
    }

    /// Whether the cell at `(x, y)` can be walked on.
    pub open spec fn spec_walkable(&self, x: int, y: int) -> bool {
        walkable_type(self.spec_tile(x, y).tile_type)
    }

    /// The recorded points of interest stay consistent with the grid: each
    /// lies on the map and its tile carries a feature.
    pub open spec fn pois_consistent(&self) -> bool {
        forall|i: int|
            0 <= i < self.points_of_interest@.len() ==> {
                let p = #[trigger] self.points_of_interest@[i];
                &&& p.position.x < self.width
                &&& p.position.y < self.height
                &&& self.spec_tile(p.position.x as int, p.position.y as int).feature is Some
            }
    }

    /// Whether any cell of the map can be walked on.
    pub open spec fn has_walkable(&self) -> bool {
        exists|x: int, y: int|
            0 <= x < self.width && 0 <= y < self.height && #[trigger] self.spec_walkable(x, y)
    }

    /// The column the ring scan probes for offset `dx`: the center column
    /// shifted and clamped to the map.
    pub open spec fn ring_probe_x(&self, dx: int) -> int {
        let v = self.width as int / 2 + dx;
        if v < 0 {
            0
        } else if v > self.width - 1 {
            self.width - 1
        } else {
            v
        }
    }

    /// The row the ring scan probes for offset `dy`.
    pub open spec fn ring_probe_y(&self, dy: int) -> int {
        let v = self.height as int / 2 + dy;
        if v < 0 {
            0
        } else if v > self.height - 1 {
            self.height - 1
        } else {
            v
        }
    }

    /// The first walkable probe of the expanding ring scan, starting at ring
    /// `radius` with offsets `(dx, dy)` and visiting offsets row by row, ring
    /// by ring up to radius four.
    pub open spec fn spec_ring_scan(&self, radius: int, dy: int, dx: int) -> Option<Position>
        decreases 5 - radius, radius + 1 - dy, radius + 1 - dx,
            when 0 <= radius <= 5 && -radius <= dy <= radius + 1 && -radius <= dx <= radius + 1
    {
        if radius >= 5 {
            Option::None
        } else if dy > radius {
            self.spec_ring_scan(radius + 1, -(radius + 1), -(radius + 1))
        } else if dx > radius {
            self.spec_ring_scan(radius, dy + 1, -radius)
        } else {
            let x = self.ring_probe_x(dx);
            let y = self.ring_probe_y(dy);
            if self.spec_walkable(x, y) {
                Option::Some(Position { x: x as usize, y: y as usize })
            } else {
                self.spec_ring_scan(radius, dy, dx + 1)
            }
        }
    }

    /// The first walkable cell of a row-major scan from `(x, y)` on, else
    /// the fixed fallback.
    pub open spec fn spec_raster_scan(&self, x: int, y: int) -> Position
        decreases self.height - y, self.width - x,
            when 0 <= x <= self.width && 0 <= y <= self.height
    {
        if y >= self.height {
            Position { x: 1, y: 1 }
        } else if x >= self.width {
            self.spec_raster_scan(0, y + 1)
        } else if self.spec_walkable(x, y) {
            Position { x: x as usize, y: y as usize }
        } else {
            self.spec_raster_scan(x + 1, y)
        }
    }

    /// The spawn position: the ring scan's hit when it finds one, else the
    /// raster scan's result.
    pub open spec fn spec_spawn(&self) -> Position {
        match self.spec_ring_scan(0, 0, 0) {
            Option::Some(p) => p,
            Option::None => self.spec_raster_scan(0, 0),
        }
    }

    /// Whether the tile at `(x, y)` can be walked on.
    pub fn is_walkable(&self, x: usize, y: usize) -> (r: bool)
        requires
            self.wf(),
            x < self.width,
            y < self.height,
        ensures
            r == self.spec_walkable(x as int, y as int),
    {
        proof {
            lemma_grid_index(x as int, y as int, self.width as int, self.height as int);
        }
        let tile = &self.tiles[y * self.width + x];
        !matches!(tile.tile_type,
            LocationTileType::Wall
            | LocationTileType::HumanHouse
            | LocationTileType::ElfTreehouse
            | LocationTileType::OrcHut)
    }

    /// The position a player spawns at: the first walkable tile in expanding
    /// square rings around the map center, else the first walkable tile of a
    /// full scan, else the fixed fallback — so spawning never fails, at the
    /// cost of a possibly unwalkable fallback on a map with no walkable tile.
    /// The exact probe order is pinned by `spec_spawn`.
    pub fn find_spawn_position(&self) -> (r: Position)
        requires
            self.wf(),
        ensures
            r == self.spec_spawn(),
            self.has_walkable() ==> r.x < self.width && r.y < self.height && self.spec_walkable(
                r.x as int,
                r.y as int,
            ),
            !self.has_walkable() ==> r == (Position { x: 1, y: 1 }),
    {
        proof {
            assert(self.width <= self.width * self.height && self.height <= self.width
                * self.height) by (nonlinear_arith)
                requires
                    1 <= self.width,
                    1 <= self.height,
            ;
        }
        let center_x: usize = self.width / 2;
        let center_y: usize = self.height / 2;
        let mut radius: i64 = 0;
        while radius < 5
            invariant
                self.wf(),
                self.width <= 0x1000_0000,
                self.height <= 0x1000_0000,
                center_x == self.width / 2,
                center_y == self.height / 2,
                0 <= radius <= 5,
                self.spec_ring_scan(radius as int, -(radius as int), -(radius as int))
                    == self.spec_ring_scan(0, 0, 0),
            decreases 5 - radius,
        {
            let mut dy: i64 = -radius;
            while dy <= radius
                invariant
                    self.wf(),
                    self.width <= 0x1000_0000,
                    self.height <= 0x1000_0000,
                    center_x == self.width / 2,
                    center_y == self.height / 2,
                    0 <= radius <= 5,
                    radius < 5,
                    -radius <= dy <= radius + 1,
                    self.spec_ring_scan(radius as int, dy as int, -(radius as int))
                        == self.spec_ring_scan(0, 0, 0),
                decreases radius + 1 - dy,
            {
                let mut dx: i64 = -radius;
                while dx <= radius
                    invariant
                        self.wf(),
                        self.width <= 0x1000_0000,
                        self.height <= 0x1000_0000,
                        center_x == self.width / 2,
                        center_y == self.height / 2,
                        0 <= radius <= 5,
                        radius < 5,
                        -radius <= dy <= radius,
                        -radius <= dx <= radius + 1,
                        self.spec_ring_scan(radius as int, dy as int, dx as int)
                            == self.spec_ring_scan(0, 0, 0),
                    decreases radius + 1 - dx,
                {
                    let xi: i64 = center_x as i64 + dx;
                    let yi: i64 = center_y as i64 + dy;
                    let x: usize = if xi < 0 {
                        0
                    } else if xi > self.width as i64 - 1 {
                        self.width - 1
                    } else {
                        xi as usize
                    };
                    let y: usize = if yi < 0 {
                        0
                    } else if yi > self.height as i64 - 1 {
                        self.height - 1
                    } else {
                        yi as usize
                    };
                    proof {
                        assert(x as int == self.ring_probe_x(dx as int));
                        assert(y as int == self.ring_probe_y(dy as int));
                    }
                    if self.is_walkable(x, y) {
                        proof {
                            assert(self.spec_ring_scan(radius as int, dy as int, dx as int)
                                == Option::Some(Position { x, y }));
                        }
                        return Position { x, y };
                    }
                    proof {
                        assert(self.spec_ring_scan(radius as int, dy as int, dx as int)
                            == self.spec_ring_scan(radius as int, dy as int, dx as int + 1));
                    }
                    dx = dx + 1;
                }
                proof {
                    assert(self.spec_ring_scan(radius as int, dy as int, dx as int)
                        == self.spec_ring_scan(radius as int, dy as int + 1, -(radius as int)));
                }
                dy = dy + 1;
            }
            proof {
                assert(self.spec_ring_scan(radius as int, dy as int, -(radius as int))
                    == self.spec_ring_scan(radius as int + 1, -(radius as int) - 1, -(
                radius as int) - 1));
            }
            radius = radius + 1;
        }
        proof {
            assert(self.spec_ring_scan(5, -5, -5) is None);
            assert(self.spec_ring_scan(0, 0, 0) is None);
        }
        let mut y: usize = 0;
        while y < self.height
            invariant
                self.wf(),
                0 <= y <= self.height,
                self.spec_ring_scan(0, 0, 0) is None,
                self.spec_raster_scan(0, y as int) == self.spec_raster_scan(0, 0),
                forall|xq: int, yq: int|
                    0 <= xq < self.width && 0 <= yq < y ==> !(#[trigger] self.spec_walkable(
                        xq,
                        yq,
                    )),
            decreases self.height - y,
        {
            let mut x: usize = 0;
            while x < self.width
                invariant
                    self.wf(),
                    0 <= y < self.height,
                    0 <= x <= self.width,
                    self.spec_ring_scan(0, 0, 0) is None,
                    self.spec_raster_scan(x as int, y as int) == self.spec_raster_scan(0, 0),
                    forall|xq: int, yq: int|
                        0 <= xq < self.width && 0 <= yq < self.height && (yq < y || (yq == y && xq
                            < x)) ==> !(#[trigger] self.spec_walkable(xq, yq)),
                decreases self.width - x,
            {
                if self.is_walkable(x, y) {
                    proof {
                        assert(self.spec_raster_scan(x as int, y as int) == (Position { x, y }));
                    }
                    return Position { x, y };
                }
                proof {
                    assert(self.spec_raster_scan(x as int, y as int) == self.spec_raster_scan(
                        x as int + 1,
                        y as int,
                    ));
                }
                x = x + 1;
            }
            proof {
                assert(self.spec_raster_scan(x as int, y as int) == self.spec_raster_scan(
                    0,
                    y as int + 1,
                ));
            }
            y = y + 1;
        }
        proof {
            assert(self.spec_raster_scan(0, y as int) == (Position { x: 1, y: 1 }));
            if self.has_walkable() {
                let (xq, yq) = choose|xq: int, yq: int|
                    0 <= xq < self.width && 0 <= yq < self.height && #[trigger] self.spec_walkable(
                        xq,
                        yq,
                    );
            }
        }
        Position { x: 1, y: 1 }
    }

    /// The destination of a one-step move inside the interior: rejected at
    /// the map edge and on unwalkable tiles, by the same walkability
    /// predicate that spawn search uses.
    pub fn try_move(&self, from: &Position, dx: i32, dy: i32) -> (r: Option<Position>)
        requires
            self.wf(),
            from.x < self.width,
            from.y < self.height,
            -1 <= dx <= 1,
            -1 <= dy <= 1,
        ensures
            match r {
                Option::Some(p) => {
                    &&& p.x as int == from.x + dx
                    &&& p.y as int == from.y + dy
                    &&& p.x < self.width
                    &&& p.y < self.height
                    &&& self.spec_walkable(p.x as int, p.y as int)
                },
                Option::None => from.x + dx < 0 || from.x + dx >= self.width || from.y + dy < 0
                    || from.y + dy >= self.height || !self.spec_walkable(
                    from.x + dx,
                    from.y + dy,
                ),
            },
    {
        proof {
            assert(self.width <= self.width * self.height && self.height <= self.width
                * self.height) by (nonlinear_arith)
                requires
                    1 <= self.width,
                    1 <= self.height,
            ;
        }
        let tx: i64 = from.x as i64 + dx as i64;
        let ty: i64 = from.y as i64 + dy as i64;
        if tx < 0 || tx >= self.width as i64 || ty < 0 || ty >= self.height as i64 {
            Option::None
        } else {
            let x: usize = tx as usize;
            let y: usize = ty as usize;
            if self.is_walkable(x, y) {
                Option::Some(Position { x, y })
            } else {
                Option::None
            }
        }
    }
}


} // verus!
