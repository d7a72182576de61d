use vstd::prelude::*;
use crate::location::{Location, Species};
use crate::location_map::{
    Feature, FeatureType, LocationMap, LocationTile, LocationTileType, PointOfInterest,
};
use crate::position::Position;
use crate::rng::{next_pos, stream_word, SeededRng};
use vstd::arithmetic::div_mod::{
    lemma_div_pos_is_pos, lemma_fundamental_div_mod, lemma_mod_bound, lemma_multiply_divide_lt,
};
use crate::world::{lemma_grid_index, TerrainType};
use vstd::string::StringExecFns;

verus! {

// The location generator expands one settlement into a walkable interior:
// a species-dispatched layout of roads, buildings and features over a small
// square grid, drawn from the generator's own seeded stream so that
// re-entering the same settlement rebuilds the same map.

/// The integer square root: the largest `r` with `r * r <= n`.
pub fn isqrt(n: u64) -> (r: u64)
    requires
        n <= 0xFFFF_FFFF,
    ensures
        r * r <= n,
        (r + 1) * (r + 1) > n,
        r == spec_isqrt(n as nat),
{
    let mut r: u64 = 0;
    let mut next: u64 = 1;
    while next <= n
        invariant
            n <= 0xFFFF_FFFF,
            r <= 0xFFFF,
            r * r <= n,
            next == (r + 1) * (r + 1),
        decreases n - r,
    {
        proof {
            assert((r + 1) <= (r + 1) * (r + 1)) by (nonlinear_arith);
        }
        r = r + 1;
        proof {
            assert(r <= 0xFFFF) by (nonlinear_arith)
                requires
                    r * r <= 0xFFFF_FFFF,
            ;
            assert((r + 1) * (r + 1) <= 0xFFFF_FFFF_FFFF) by (nonlinear_arith)
                requires
                    r <= 0xFFFF,
            ;
        }
        next = (r + 1) * (r + 1);
    }
    proof {
        lemma_isqrt_unique(n as nat, r as nat);
    }
    r
}

/// The integer square root, defined one step at a time.
pub open spec fn spec_isqrt(n: nat) -> nat
    decreases n,
{
    if n == 0 {
        0
    } else {
        let r = spec_isqrt((n - 1) as nat);
        if (r + 1) * (r + 1) <= n {
            (r + 1) as nat
        } else {
            r
        }
    }
}

/// The square root squared brackets its argument.
pub proof fn lemma_isqrt_bounds(n: nat)
    ensures
        spec_isqrt(n) * spec_isqrt(n) <= n,
        n < (spec_isqrt(n) + 1) * (spec_isqrt(n) + 1),
    decreases n,
{
    if n > 0 {
        lemma_isqrt_bounds((n - 1) as nat);
        let r = spec_isqrt((n - 1) as nat);
        assert(r * r <= n - 1);
        if (r + 1) * (r + 1) <= n {
            assert(spec_isqrt(n) == r + 1);
            assert(n <= (r + 1) * (r + 1));
            assert(spec_isqrt(n) * spec_isqrt(n) <= n) by (nonlinear_arith)
                requires
                    spec_isqrt(n) == r + 1,
                    (r + 1) * (r + 1) <= n,
            ;
            assert(n < (spec_isqrt(n) + 1) * (spec_isqrt(n) + 1)) by (nonlinear_arith)
                requires
                    spec_isqrt(n) == r + 1,
                    n <= (r + 1) * (r + 1),
            ;
        } else {
            assert(spec_isqrt(n) == r);
            assert(spec_isqrt(n) * spec_isqrt(n) <= n) by (nonlinear_arith)
                requires
                    spec_isqrt(n) == r,
                    r * r <= n,
            ;
            assert(n < (spec_isqrt(n) + 1) * (spec_isqrt(n) + 1)) by (nonlinear_arith)
                requires
                    spec_isqrt(n) == r,
                    n < (r + 1) * (r + 1),
            ;
        }
    } else {
        assert(spec_isqrt(n) == 0);
        assert(spec_isqrt(n) * spec_isqrt(n) <= n) by (nonlinear_arith)
            requires
                spec_isqrt(n) == 0,
                n == 0,
        ;
        assert(n < (spec_isqrt(n) + 1) * (spec_isqrt(n) + 1)) by (nonlinear_arith)
            requires
                spec_isqrt(n) == 0,
                n == 0,
        ;
    }
}

/// Two integer square roots of the same number agree.
pub proof fn lemma_isqrt_unique(n: nat, r: nat)
    requires
        r * r <= n,
        n < (r + 1) * (r + 1),
    ensures
        r == spec_isqrt(n),
{
    lemma_isqrt_bounds(n);
    let q = spec_isqrt(n);
    assert(r == q) by (nonlinear_arith)
        requires
            r * r <= n < (r + 1) * (r + 1),
            q * q <= n < (q + 1) * (q + 1),
    ;
}

/// The interior side length that the settlement size and one draw dictate:
/// twice the square root of the size shifted by the drawn variance, floored
/// at the minimum of five.
pub open spec fn spec_map_side(size: int, word: u32) -> int {
    let base = spec_isqrt(size as nat) + (word % 5);
    if base >= 7 {
        2 * (base - 2)
    } else {
        10
    }
}

/// Two maps with the same dimensions and grid size.
pub open spec fn same_frame(m0: LocationMap, m1: LocationMap) -> bool {
    &&& m1.width == m0.width
    &&& m1.height == m0.height
    &&& m1.tiles@.len() == m0.tiles@.len()
}

/// Every cell keeps its feature and blocked flag, and its type either stays
/// or becomes `t`: the shape of a pass that only paints one tile type.
pub open spec fn only_type_changed_to(m0: LocationMap, m1: LocationMap, t: LocationTileType) -> bool {
    forall|x: int, y: int|
        0 <= x < m0.width && 0 <= y < m0.height ==> {
            let t0 = m0.spec_tile(x, y);
            let t1 = #[trigger] m1.spec_tile(x, y);
            &&& t1.feature == t0.feature
            &&& t1.blocked == t0.blocked
            &&& (t1.tile_type == t0.tile_type || t1.tile_type == t)
        }
}

/// Set the type of one tile, leaving everything else as it was.
fn set_tile_type(map: &mut LocationMap, x: usize, y: usize, t: LocationTileType)
    requires
        old(map).wf(),
        x < old(map).width,
        y < old(map).height,
    ensures
        final(map).wf(),
        same_frame(*old(map), *final(map)),
        final(map).points_of_interest == old(map).points_of_interest,
        final(map).spec_tile(x as int, y as int).tile_type == t,
        final(map).spec_tile(x as int, y as int).feature == old(map).spec_tile(
            x as int,
            y as int,
        ).feature,
        final(map).spec_tile(x as int, y as int).blocked == old(map).spec_tile(
            x as int,
            y as int,
        ).blocked,
        forall|x0: int, y0: int|
            0 <= x0 < old(map).width && 0 <= y0 < old(map).height && !(x0 == x as int && y0
                == y as int) ==> #[trigger] final(map).spec_tile(x0, y0) == old(map).spec_tile(
                x0,
                y0,
            ),
        old(map).pois_consistent() ==> final(map).pois_consistent(),
        final(map).tiles@ == old(map).tiles@.update(
            y as int * old(map).width + x,
            LocationTile {
                blocked: old(map).spec_tile(x as int, y as int).blocked,
                tile_type: t,
                feature: old(map).spec_tile(x as int, y as int).feature,
            },
        ),
{
    proof {
        lemma_grid_index(x as int, y as int, map.width as int, map.height as int);
    }
    let idx: usize = y * map.width + x;
    map.tiles[idx].tile_type = t;
    proof {
        assert(map.tiles@ =~= old(map).tiles@.update(
            idx as int,
            LocationTile {
                blocked: old(map).spec_tile(x as int, y as int).blocked,
                tile_type: t,
                feature: old(map).spec_tile(x as int, y as int).feature,
            },
        ));
        assert forall|x0: int, y0: int|
            0 <= x0 < old(map).width && 0 <= y0 < old(map).height && !(x0 == x as int && y0
                == y as int) implies #[trigger] map.spec_tile(x0, y0) == old(map).spec_tile(
            x0,
            y0,
        ) by {
            lemma_grid_index(x0, y0, map.width as int, map.height as int);
            assert(y0 * map.width + x0 != idx) by (nonlinear_arith)
                requires
                    0 <= x0 < map.width,
                    0 <= y0,
                    0 <= x < map.width,
                    0 <= y,
                    idx == y * map.width + x,
                    !(x0 == x as int && y0 == y as int),
            ;
        }
        if old(map).pois_consistent() {
            assert forall|i: int| 0 <= i < map.points_of_interest@.len() implies {
                let p = #[trigger] map.points_of_interest@[i];
                &&& p.position.x < map.width
                &&& p.position.y < map.height
                &&& map.spec_tile(p.position.x as int, p.position.y as int).feature is Some
            } by {
                let p = old(map).points_of_interest@[i];
                assert(old(map).spec_tile(p.position.x as int, p.position.y as int).feature
                    is Some);
            }
        }
    }
}

/// The fixed name of each feature kind.
pub open spec fn spec_feature_name(t: FeatureType) -> Seq<char> {
    match t {
        FeatureType::Market => "Town Market"@,
        FeatureType::Temple => "Sacred Temple"@,
        FeatureType::Tavern => "The Wanderer's Rest"@,
        FeatureType::Garden => "Natural Garden"@,
        _ => "Feature"@,
    }
}

/// Whether `f` is the feature that `place_feature` builds for this kind.
pub open spec fn feature_built(f: Feature, t: FeatureType) -> bool {
    f.feature_type == t && f.name@ == spec_feature_name(t)
}

/// The type of one tile.
fn get_tile_type(map: &LocationMap, x: usize, y: usize) -> (t: LocationTileType)
    requires
        map.wf(),
        x < map.width,
        y < map.height,
    ensures
        t == map.spec_tile(x as int, y as int).tile_type,
{
    proof {
        lemma_grid_index(x as int, y as int, map.width as int, map.height as int);
    }
    map.tiles[y * map.width + x].tile_type
}

/// Every cell keeps its type and blocked flag; only features and the list of
/// points of interest may have grown.
pub open spec fn features_only(m0: LocationMap, m1: LocationMap) -> bool {
    &&& forall|x: int, y: int|
        0 <= x < m0.width && 0 <= y < m0.height ==> {
            let t0 = m0.spec_tile(x, y);
            let t1 = #[trigger] m1.spec_tile(x, y);
            t1.tile_type == t0.tile_type && t1.blocked == t0.blocked
        }
    &&& m0.points_of_interest@.len() <= m1.points_of_interest@.len()
    &&& forall|i: int|
        0 <= i < m0.points_of_interest@.len() ==> #[trigger] m1.points_of_interest@[i]
            == m0.points_of_interest@[i]
}

/// The display name of a feature kind.
fn feature_name(t: FeatureType) -> (r: &'static str)
    ensures
        r@ == spec_feature_name(t),
{
    match t {
        FeatureType::Market => "Town Market",
        FeatureType::Temple => "Sacred Temple",
        FeatureType::Tavern => "The Wanderer's Rest",
        FeatureType::Garden => "Natural Garden",
        _ => "Feature",
    }
}

/// Attach a feature of the given kind to the tile at `pos` (if it lies on
/// the map) and record it in the points of interest.
fn place_feature(map: &mut LocationMap, pos: Position, feature_type: FeatureType)
    requires
        old(map).wf(),
    ensures
        final(map).wf(),
        same_frame(*old(map), *final(map)),
        features_only(*old(map), *final(map)),
        forall|x0: int, y0: int|
            0 <= x0 < old(map).width && 0 <= y0 < old(map).height && !(x0 == pos.x as int && y0
                == pos.y as int) ==> #[trigger] final(map).spec_tile(x0, y0) == old(map).spec_tile(
                x0,
                y0,
            ),
        pos.x < old(map).width && pos.y < old(map).height ==> {
            &&& final(map).points_of_interest@.len() == old(map).points_of_interest@.len() + 1
            &&& final(map).points_of_interest@.last().position == pos
            &&& feature_built(final(map).points_of_interest@.last().feature, feature_type)
            &&& match final(map).spec_tile(pos.x as int, pos.y as int).feature {
                Option::Some(f) => feature_built(f, feature_type),
                Option::None => false,
            }
        },
        !(pos.x < old(map).width && pos.y < old(map).height) ==> *final(map) == *old(map),
        old(map).pois_consistent() ==> final(map).pois_consistent(),
{
    if pos.x < map.width && pos.y < map.height {
        proof {
            lemma_grid_index(pos.x as int, pos.y as int, map.width as int, map.height as int);
        }
        let name = feature_name(feature_type);
        let idx: usize = pos.y * map.width + pos.x;
        map.tiles[idx].feature = Option::Some(Feature { name: name.to_owned(), feature_type });
        map.points_of_interest.push(
            PointOfInterest {
                position: pos,
                feature: Feature { name: name.to_owned(), feature_type },
            },
        );
        proof {
            assert forall|x0: int, y0: int|
                0 <= x0 < old(map).width && 0 <= y0 < old(map).height && !(x0 == pos.x as int && y0
                    == pos.y as int) implies #[trigger] map.spec_tile(x0, y0) == old(map).spec_tile(x0, y0) by {
                lemma_grid_index(x0, y0, map.width as int, map.height as int);
                assert(y0 * map.width + x0 != idx) by (nonlinear_arith)
                    requires
                        0 <= x0 < map.width,
                        0 <= y0,
                        0 <= pos.x < map.width,
                        0 <= pos.y,
                        idx == pos.y * map.width + pos.x,
                        !(x0 == pos.x as int && y0 == pos.y as int),
                ;
            }
            if old(map).pois_consistent() {
                assert forall|i: int| 0 <= i < map.points_of_interest@.len() implies {
                    let p = #[trigger] map.points_of_interest@[i];
                    &&& p.position.x < map.width
                    &&& p.position.y < map.height
                    &&& map.spec_tile(p.position.x as int, p.position.y as int).feature is Some
                } by {
                    if i < old(map).points_of_interest@.len() {
                        let p = old(map).points_of_interest@[i];
                        assert(map.points_of_interest@[i] == p);
                        assert(old(map).spec_tile(p.position.x as int, p.position.y as int).feature
                            is Some);
                    } else {
                        assert(map.points_of_interest@[i] == map.points_of_interest@.last());
                    }
                }
            }
        }
    }
}

/// Expands a settlement into its interior layout, deterministically from the
/// seed it was built with.
pub struct LocationGenerator {
    pub rng: SeededRng,
    pub base_terrain: TerrainType,
    pub location: Location,
}

impl LocationGenerator {
    pub fn new(seed: u64, base_terrain: TerrainType, location: Location) -> (g: LocationGenerator)
        ensures
            g.rng.seed == seed,
            g.rng.pos == 0,
            g.base_terrain == base_terrain,
            g.location == location,
    {
        LocationGenerator { rng: SeededRng::new(seed), base_terrain, location }
    }

    /// The interior dimensions: a square map scaled from the square root of
    /// the settlement size, with a small drawn variance, floored at the
    /// minimum.
    fn determine_map_size(&mut self) -> (dims: (usize, usize))
        requires
            old(self).location.wf(),
        ensures
            final(self).location == old(self).location,
            final(self).base_terrain == old(self).base_terrain,
            final(self).rng.seed == old(self).rng.seed,
            final(self).rng.pos == next_pos(old(self).rng.pos),
            dims.0 == dims.1,
            dims.0 == spec_map_side(
                old(self).location.size as int,
                stream_word(old(self).rng.seed, old(self).rng.pos),
            ),
            10 <= dims.0 <= 22,
            dims.0 % 2 == 0,
    {
        let base: u64 = isqrt(self.location.size as u64);
        proof {
            assert(base <= 9) by (nonlinear_arith)
                requires
                    base * base <= 99,
            ;
        }
        let var: u32 = self.rng.below(5);
        let bv: u64 = base + (var as u64);
        let sz: u64 = if bv >= 7 {
            bv - 2
        } else {
            5
        };
        (((2 * sz) as usize), ((2 * sz) as usize))
    }

    /// An empty interior: every cell open ground, no features.
    fn create_empty_map(&self, width: usize, height: usize) -> (m: LocationMap)
        requires
            1 <= width,
            1 <= height,
            width * height <= 0x1000_0000,
        ensures
            m.wf(),
            m.width == width,
            m.height == height,
            m.points_of_interest@.len() == 0,
            m.pois_consistent(),
            forall|x: int, y: int|
                0 <= x < width && 0 <= y < height ==> #[trigger] m.spec_tile(x, y)
                    == (LocationTile {
                    blocked: false,
                    tile_type: LocationTileType::Ground,
                    feature: Option::None,
                }),
    {
        let total: usize = width * height;
        let mut tiles: Vec<LocationTile> = Vec::new();
        let mut i: usize = 0;
        while i < total
            invariant
                total == width * height,
                0 <= i <= total,
                tiles@.len() == i,
                forall|j: int|
                    0 <= j < i ==> #[trigger] tiles@[j] == (LocationTile {
                        blocked: false,
                        tile_type: LocationTileType::Ground,
                        feature: Option::None,
                    }),
            decreases total - i,
        {
            tiles.push(
                LocationTile {
                    blocked: false,
                    tile_type: LocationTileType::Ground,
                    feature: Option::None,
                },
            );
            i = i + 1;
        }
        let m = LocationMap { width, height, tiles, points_of_interest: Vec::new() };
        proof {
            assert forall|x: int, y: int| 0 <= x < width && 0 <= y < height implies #[trigger] m
                .spec_tile(x, y) == (LocationTile {
                blocked: false,
                tile_type: LocationTileType::Ground,
                feature: Option::None,
            }) by {
                lemma_grid_index(x, y, width as int, height as int);
            }
        }
        m
    }

    /// Lay the two full cardinal roads crossing at the map center, then walk
    /// a few branching roads in from random edge points. Only paints roads;
    /// afterward the full center row and column are road.
    fn generate_road_network(&mut self, map: &mut LocationMap)
        requires
            old(map).wf(),
        ensures
            final(self).location == old(self).location,
            final(self).base_terrain == old(self).base_terrain,
            final(map).wf(),
            old(map).pois_consistent() ==> final(map).pois_consistent(),
            same_frame(*old(map), *final(map)),
            final(map).points_of_interest == old(map).points_of_interest,
            only_type_changed_to(*old(map), *final(map), LocationTileType::HumanRoad),
            forall|x: int|
                0 <= x < old(map).width ==> #[trigger] final(map).spec_tile(
                    x,
                    old(map).height as int / 2,
                ).tile_type == LocationTileType::HumanRoad,
            forall|y: int|
                0 <= y < old(map).height ==> #[trigger] final(map).spec_tile(
                    old(map).width as int / 2,
                    y,
                ).tile_type == LocationTileType::HumanRoad,
            final(self).rng.seed == old(self).rng.seed,
            (final(map).tiles@, final(self).rng.pos) == branches_paint(
                center_roads(old(map).tiles@, old(map).width as int, old(map).height as int),
                old(map).width as int,
                old(map).height as int,
                old(self).rng.seed,
                next_pos(old(self).rng.pos),
                (2 + stream_word(old(self).rng.seed, old(self).rng.pos) % 3) as nat,
            ),
    {
        proof {
            assert(map.width <= map.width * map.height && map.height <= map.width * map.height)
                by (nonlinear_arith)
                requires
                    1 <= map.width,
                    1 <= map.height,
            ;
        }
        let ghost w = map.width as int;
        let ghost h = map.height as int;
        let ghost seed = self.rng.seed;
        let ghost p0 = self.rng.pos;
        let ghost ts0 = map.tiles@;
        let mid_y: usize = map.height / 2;
        let mid_x: usize = map.width / 2;
        let mut x: usize = 0;
        while x < map.width
            invariant
                map.wf(),
                old(map).pois_consistent() ==> map.pois_consistent(),
                same_frame(*old(map), *map),
                self.location == old(self).location,
                self.base_terrain == old(self).base_terrain,
                self.rng == old(self).rng,
                map.points_of_interest == old(map).points_of_interest,
                mid_y == old(map).height / 2,
                mid_x == old(map).width / 2,
                w == old(map).width as int,
                h == old(map).height as int,
                ts0 == old(map).tiles@,
                0 <= x <= map.width,
                only_type_changed_to(*old(map), *map, LocationTileType::HumanRoad),
                forall|i: int|
                    0 <= i < ts0.len() ==> #[trigger] map.tiles@[i] == (if i / w == h / 2 && i % w
                        < x {
                        LocationTile {
                            blocked: ts0[i].blocked,
                            tile_type: LocationTileType::HumanRoad,
                            feature: ts0[i].feature,
                        }
                    } else {
                        ts0[i]
                    }),
            decreases map.width - x,
        {
            proof {
                lemma_grid_index(x as int, mid_y as int, w, h);
            }
            set_tile_type(map, x, mid_y, LocationTileType::HumanRoad);
            proof {
                assert forall|i: int| 0 <= i < ts0.len() implies #[trigger] map.tiles@[i] == (if i
                    / w == h / 2 && i % w < x + 1 {
                    LocationTile {
                        blocked: ts0[i].blocked,
                        tile_type: LocationTileType::HumanRoad,
                        feature: ts0[i].feature,
                    }
                } else {
                    ts0[i]
                }) by {
                    let idx = (mid_y as int) * w + (x as int);
                    vstd::arithmetic::div_mod::lemma_fundamental_div_mod(i, w);
                    if i == idx {
                        assert(i / w == h / 2 && i % w == x as int) by (nonlinear_arith)
                            requires
                                i == (h / 2) * w + x,
                                0 <= x < w,
                                w >= 1,
                                mid_y == h / 2,
                        ;
                    } else {
                        if i / w == h / 2 && i % w == x as int {
                            assert(i == (h / 2) * w + x) by (nonlinear_arith)
                                requires
                                    i == w * (i / w) + i % w,
                                    i / w == h / 2,
                                    i % w == x,
                            ;
                            assert(i == idx);
                        }
                    }
                }
            }
            x = x + 1;
        }
        let mut y: usize = 0;
        while y < map.height
            invariant
                map.wf(),
                old(map).pois_consistent() ==> map.pois_consistent(),
                same_frame(*old(map), *map),
                self.location == old(self).location,
                self.base_terrain == old(self).base_terrain,
                self.rng == old(self).rng,
                map.points_of_interest == old(map).points_of_interest,
                mid_y == old(map).height / 2,
                mid_x == old(map).width / 2,
                w == old(map).width as int,
                h == old(map).height as int,
                ts0 == old(map).tiles@,
                0 <= y <= map.height,
                only_type_changed_to(*old(map), *map, LocationTileType::HumanRoad),
                forall|i: int|
                    0 <= i < ts0.len() ==> #[trigger] map.tiles@[i] == (if i / w == h / 2 || (i % w
                        == w / 2 && i / w < y) {
                        LocationTile {
                            blocked: ts0[i].blocked,
                            tile_type: LocationTileType::HumanRoad,
                            feature: ts0[i].feature,
                        }
                    } else {
                        ts0[i]
                    }),
            decreases map.height - y,
        {
            proof {
                lemma_grid_index(mid_x as int, y as int, w, h);
            }
            set_tile_type(map, mid_x, y, LocationTileType::HumanRoad);
            proof {
                assert forall|i: int| 0 <= i < ts0.len() implies #[trigger] map.tiles@[i] == (if i
                    / w == h / 2 || (i % w == w / 2 && i / w < y + 1) {
                    LocationTile {
                        blocked: ts0[i].blocked,
                        tile_type: LocationTileType::HumanRoad,
                        feature: ts0[i].feature,
                    }
                } else {
                    ts0[i]
                }) by {
                    let idx = (y as int) * w + (mid_x as int);
                    vstd::arithmetic::div_mod::lemma_fundamental_div_mod(i, w);
                    if i == idx {
                        assert(i / w == y as int && i % w == w / 2) by (nonlinear_arith)
                            requires
                                i == y * w + mid_x,
                                0 <= mid_x < w,
                                0 <= y,
                                w >= 1,
                                mid_x == w / 2,
                        ;
                    } else {
                        if i % w == w / 2 && i / w == y as int {
                            assert(i == (y as int) * w + w / 2) by (nonlinear_arith)
                                requires
                                    i == w * (i / w) + i % w,
                                    i / w == y,
                                    i % w == w / 2,
                            ;
                            assert(i == idx);
                        }
                    }
                }
            }
            y = y + 1;
        }
        proof {
            assert forall|i: int| 0 <= i < ts0.len() implies #[trigger] map.tiles@[i]
                == center_roads(ts0, w, h)[i] by {
                lemma_multiply_divide_lt(i, w, h);
                lemma_div_pos_is_pos(i, w);
            }
            assert(map.tiles@ =~= center_roads(ts0, w, h));
            assert forall|x0: int| 0 <= x0 < map.width implies #[trigger] map.spec_tile(
                x0,
                mid_y as int,
            ).tile_type == LocationTileType::HumanRoad by {
                lemma_grid_index(x0, mid_y as int, w, h);
                let i = (mid_y as int) * w + x0;
                assert(i / w == h / 2 && i % w == x0) by (nonlinear_arith)
                    requires
                        i == (h / 2) * w + x0,
                        0 <= x0 < w,
                        w >= 1,
                        mid_y == h / 2,
                ;
            }
            assert forall|y0: int| 0 <= y0 < map.height implies #[trigger] map.spec_tile(
                mid_x as int,
                y0,
            ).tile_type == LocationTileType::HumanRoad by {
                lemma_grid_index(mid_x as int, y0, w, h);
                let i = y0 * w + (mid_x as int);
                assert(i / w == y0 && i % w == w / 2) by (nonlinear_arith)
                    requires
                        i == y0 * w + w / 2,
                        0 <= w / 2 < w,
                        0 <= y0,
                        w >= 1,
                        mid_x == w / 2,
                ;
            }
        }
        let ghost ts_c = map.tiles@;
        let num_branches: u32 = 2 + self.rng.below(3);
        let ghost p1 = self.rng.pos;
        let mut b: u32 = 0;
        while b < num_branches
            invariant
                map.wf(),
                old(map).pois_consistent() ==> map.pois_consistent(),
                same_frame(*old(map), *map),
                self.location == old(self).location,
                self.base_terrain == old(self).base_terrain,
                self.rng.seed == seed,
                seed == old(self).rng.seed,
                p0 == old(self).rng.pos,
                map.points_of_interest == old(map).points_of_interest,
                mid_y == old(map).height / 2,
                mid_x == old(map).width / 2,
                w == old(map).width as int,
                h == old(map).height as int,
                ts_c == center_roads(old(map).tiles@, w, h),
                p1 == next_pos(p0),
                num_branches == 2 + stream_word(seed, p0) % 3,
                map.width <= 0x1000_0000,
                map.height <= 0x1000_0000,
                0 <= b <= num_branches,
                only_type_changed_to(*old(map), *map, LocationTileType::HumanRoad),
                forall|x0: int|
                    0 <= x0 < map.width ==> #[trigger] map.spec_tile(x0, mid_y as int).tile_type
                        == LocationTileType::HumanRoad,
                forall|y0: int|
                    0 <= y0 < map.height ==> #[trigger] map.spec_tile(mid_x as int, y0).tile_type
                        == LocationTileType::HumanRoad,
                (map.tiles@, self.rng.pos) == branches_paint(ts_c, w, h, seed, p1, b as nat),
            decreases num_branches - b,
        {
            let start_x: usize = if map.width > 1 {
                self.rng.range_usize(0, map.width)
            } else {
                0
            };
            let start_y: usize = if self.rng.chance(1, 2) {
                0
            } else {
                map.height - 1
            };
            let ghost pre = *map;
            self.create_branching_road(map, start_x, start_y);
            proof {
                assert forall|x0: int, y0: int|
                    0 <= x0 < old(map).width && 0 <= y0 < old(map).height implies {
                    let t0 = old(map).spec_tile(x0, y0);
                    let t1 = #[trigger] map.spec_tile(x0, y0);
                    &&& t1.feature == t0.feature
                    &&& t1.blocked == t0.blocked
                    &&& (t1.tile_type == t0.tile_type || t1.tile_type
                        == LocationTileType::HumanRoad)
                } by {
                    assert(pre.spec_tile(x0, y0).feature == old(map).spec_tile(x0, y0).feature);
                }
                assert((map.tiles@, self.rng.pos) == branches_paint(ts_c, w, h, seed, p1, (b
                    + 1) as nat));
            }
            b = b + 1;
        }
    }

    /// Walk one road from an edge point toward the map center: each step
    /// moves one cell toward the target, on the drawn axis when that axis is
    /// not yet aligned, else on the other.
    fn create_branching_road(&mut self, map: &mut LocationMap, start_x: usize, start_y: usize)
        requires
            old(map).wf(),
            start_x < old(map).width,
            start_y < old(map).height,
        ensures
            final(self).location == old(self).location,
            final(self).base_terrain == old(self).base_terrain,
            final(map).wf(),
            old(map).pois_consistent() ==> final(map).pois_consistent(),
            same_frame(*old(map), *final(map)),
            final(map).points_of_interest == old(map).points_of_interest,
            only_type_changed_to(*old(map), *final(map), LocationTileType::HumanRoad),
            forall|x0: int, y0: int|
                0 <= x0 < old(map).width && 0 <= y0 < old(map).height ==> (#[trigger] final(map).spec_tile(x0, y0)).tile_type == old(map).spec_tile(x0, y0).tile_type || final(map).spec_tile(x0, y0).tile_type == LocationTileType::HumanRoad,
            !(start_x == old(map).width / 2 && start_y == old(map).height / 2) ==> final(map).spec_tile(start_x as int, start_y as int).tile_type == LocationTileType::HumanRoad,
            final(self).rng.seed == old(self).rng.seed,
            (final(map).tiles@, final(self).rng.pos) == walk_paint(
                old(map).tiles@,
                old(map).width as int,
                old(map).height as int,
                old(self).rng.seed,
                old(self).rng.pos,
                start_x as int,
                start_y as int,
            ),
    {
        let ghost w = map.width as int;
        let ghost h = map.height as int;
        let ghost seed = self.rng.seed;
        let ghost p0 = self.rng.pos;
        let target_x: usize = map.width / 2;
        let target_y: usize = map.height / 2;
        let mut cx: usize = start_x;
        let mut cy: usize = start_y;
        while cx != target_x || cy != target_y
            invariant
                map.wf(),
                old(map).pois_consistent() ==> map.pois_consistent(),
                same_frame(*old(map), *map),
                self.location == old(self).location,
                self.base_terrain == old(self).base_terrain,
                map.points_of_interest == old(map).points_of_interest,
                target_x == old(map).width / 2,
                target_y == old(map).height / 2,
                cx < map.width,
                cy < map.height,
                start_x < map.width,
                start_y < map.height,
                w == old(map).width as int,
                h == old(map).height as int,
                seed == old(self).rng.seed,
                p0 == old(self).rng.pos,
                self.rng.seed == seed,
                only_type_changed_to(*old(map), *map, LocationTileType::HumanRoad),
                (cx == start_x && cy == start_y) || map.spec_tile(
                    start_x as int,
                    start_y as int,
                ).tile_type == LocationTileType::HumanRoad,
                walk_paint(map.tiles@, w, h, seed, self.rng.pos, cx as int, cy as int)
                    == walk_paint(old(map).tiles@, w, h, seed, p0, start_x as int, start_y as int),
            decreases crate::world::abs_int(cx as int - target_x as int) + crate::world::abs_int(
                cy as int - target_y as int,
            ),
        {
            let ghost ts_pre = map.tiles@;
            let ghost pos_pre = self.rng.pos;
            let ghost cx0 = cx as int;
            let ghost cy0 = cy as int;
            set_tile_type(map, cx, cy, LocationTileType::HumanRoad);
            proof {
                assert(map.spec_tile(start_x as int, start_y as int).tile_type
                    == LocationTileType::HumanRoad);
            }
            let toward_x: bool = self.rng.chance(7, 10);
            if toward_x && cx != target_x {
                if cx < target_x {
                    cx = cx + 1;
                } else {
                    cx = cx - 1;
                }
            } else if !toward_x && cy != target_y {
                if cy < target_y {
                    cy = cy + 1;
                } else {
                    cy = cy - 1;
                }
            } else if cx != target_x {
                if cx < target_x {
                    cx = cx + 1;
                } else {
                    cx = cx - 1;
                }
            } else {
                if cy < target_y {
                    cy = cy + 1;
                } else {
                    cy = cy - 1;
                }
            }
            proof {
                assert(walk_paint(ts_pre, w, h, seed, pos_pre, cx0, cy0) == walk_paint(
                    map.tiles@,
                    w,
                    h,
                    seed,
                    self.rng.pos,
                    cx as int,
                    cy as int,
                ));
            }
        }
        proof {
            assert(walk_paint(map.tiles@, w, h, seed, self.rng.pos, cx as int, cy as int) == (
            map.tiles@,
            self.rng.pos,
            ));
        }
    }

    /// Place the market at the exact center and a temple and tavern nearby,
    /// each with a bounded random offset. Tile types stay untouched; three
    /// points of interest are appended, the first of them the central market.
    fn place_central_features(&mut self, map: &mut LocationMap)
        requires
            old(map).wf(),
        ensures
            final(self).location == old(self).location,
            final(self).base_terrain == old(self).base_terrain,
            final(map).wf(),
            old(map).pois_consistent() ==> final(map).pois_consistent(),
            same_frame(*old(map), *final(map)),
            features_only(*old(map), *final(map)),
            final(map).points_of_interest@.len() == old(map).points_of_interest@.len() + 3,
            final(map).points_of_interest@[old(map).points_of_interest@.len() as int].position
                == (Position { x: old(map).width / 2, y: old(map).height / 2 }),
            feature_built(
                final(map).points_of_interest@[old(map).points_of_interest@.len() as int].feature,
                FeatureType::Market,
            ),
            feature_built(
                final(map).points_of_interest@[old(map).points_of_interest@.len() as int
                    + 1].feature,
                FeatureType::Temple,
            ),
            near_center(
                final(map).points_of_interest@[old(map).points_of_interest@.len() as int
                    + 1].position,
                *old(map),
                2,
            ),
            feature_built(
                final(map).points_of_interest@[old(map).points_of_interest@.len() as int
                    + 2].feature,
                FeatureType::Tavern,
            ),
            near_center(
                final(map).points_of_interest@[old(map).points_of_interest@.len() as int
                    + 2].position,
                *old(map),
                3,
            ),
            ({
                let base = old(map).points_of_interest@.len() as int;
                let market = final(map).points_of_interest@[base].position;
                let temple = final(map).points_of_interest@[base + 1].position;
                let tavern = final(map).points_of_interest@[base + 2].position;
                &&& (forall|x0: int, y0: int|
                    0 <= x0 < old(map).width && 0 <= y0 < old(map).height && !(x0
                        == market.x as int && y0 == market.y as int) && !(x0 == temple.x as int
                        && y0 == temple.y as int) && !(x0 == tavern.x as int && y0
                        == tavern.y as int) ==> #[trigger] final(map).spec_tile(x0, y0) == old(
                        map,
                    ).spec_tile(x0, y0))
                &&& match final(map).spec_tile(tavern.x as int, tavern.y as int).feature {
                    Option::Some(f) => feature_built(f, FeatureType::Tavern),
                    Option::None => false,
                }
                &&& (temple != tavern ==> match final(map).spec_tile(
                    temple.x as int,
                    temple.y as int,
                ).feature {
                    Option::Some(f) => feature_built(f, FeatureType::Temple),
                    Option::None => false,
                })
                &&& (market != temple && market != tavern ==> match final(map).spec_tile(
                    market.x as int,
                    market.y as int,
                ).feature {
                    Option::Some(f) => feature_built(f, FeatureType::Market),
                    Option::None => false,
                })
            }),
            final(self).rng.seed == old(self).rng.seed,
            final(self).rng.pos == nextn(old(self).rng.pos, 4),
            final(map).points_of_interest@[old(map).points_of_interest@.len() as int + 1].position
                == (Position {
                x: spec_offset_clamped(
                    old(map).width as int / 2,
                    2,
                    old(map).width as int,
                    stream_word(old(self).rng.seed, old(self).rng.pos),
                ) as usize,
                y: spec_offset_clamped(
                    old(map).height as int / 2,
                    2,
                    old(map).height as int,
                    stream_word(old(self).rng.seed, nextn(old(self).rng.pos, 1)),
                ) as usize,
            }),
            final(map).points_of_interest@[old(map).points_of_interest@.len() as int + 2].position
                == (Position {
                x: spec_offset_clamped(
                    old(map).width as int / 2,
                    3,
                    old(map).width as int,
                    stream_word(old(self).rng.seed, nextn(old(self).rng.pos, 2)),
                ) as usize,
                y: spec_offset_clamped(
                    old(map).height as int / 2,
                    3,
                    old(map).height as int,
                    stream_word(old(self).rng.seed, nextn(old(self).rng.pos, 3)),
                ) as usize,
            }),
    {
        proof {
            assert(map.width <= map.width * map.height && map.height <= map.width * map.height)
                by (nonlinear_arith)
                requires
                    1 <= map.width,
                    1 <= map.height,
            ;
            assert(nextn(old(self).rng.pos, 1) == next_pos(nextn(old(self).rng.pos, 0)));
            assert(nextn(old(self).rng.pos, 2) == next_pos(nextn(old(self).rng.pos, 1)));
            assert(nextn(old(self).rng.pos, 3) == next_pos(nextn(old(self).rng.pos, 2)));
            assert(nextn(old(self).rng.pos, 4) == next_pos(nextn(old(self).rng.pos, 3)));
        }
        let center_x: usize = map.width / 2;
        let center_y: usize = map.height / 2;
        place_feature(map, Position { x: center_x, y: center_y }, FeatureType::Market);
        let ghost m1 = *map;
        let temple_x: usize = offset_clamped(&mut self.rng, center_x, 2, map.width);
        let temple_y: usize = offset_clamped(&mut self.rng, center_y, 2, map.height);
        place_feature(map, Position { x: temple_x, y: temple_y }, FeatureType::Temple);
        let ghost m2 = *map;
        let tavern_x: usize = offset_clamped(&mut self.rng, center_x, 3, map.width);
        let tavern_y: usize = offset_clamped(&mut self.rng, center_y, 3, map.height);
        place_feature(map, Position { x: tavern_x, y: tavern_y }, FeatureType::Tavern);
        proof {
            assert(map.points_of_interest@[old(map).points_of_interest@.len() as int]
                == m1.points_of_interest@.last());
            assert(map.points_of_interest@[old(map).points_of_interest@.len() as int + 1]
                == m2.points_of_interest@.last());
        }
    }

    /// Place houses along the roads: every interior cell consumes three
    /// stream words in row-major order, so each cell's draws sit at fixed,
    /// computable positions; an open ground cell beside a road becomes a
    /// house when its first draw succeeds with chance three in ten, and a
    /// placed house gains a blacksmith or storage feature when its second
    /// draw succeeds with chance one in ten, the kind picked by the third.
    /// The contract pins every cell and every appended point of interest to
    /// those draws.
    fn place_houses(&mut self, map: &mut LocationMap)
        requires
            old(map).wf(),
        ensures
            final(self).location == old(self).location,
            final(self).base_terrain == old(self).base_terrain,
            final(self).rng.seed == old(self).rng.seed,
            final(map).wf(),
            old(map).pois_consistent() ==> final(map).pois_consistent(),
            same_frame(*old(map), *final(map)),
            houses_only(*old(map), *final(map)),
            (old(map).width < 3 || old(map).height < 3) ==> *final(map) == *old(map) && final(self).rng == old(self).rng,
            old(map).width >= 3 && old(map).height >= 3 ==> houses_pass_described(
                *old(map),
                *final(map),
                old(self).rng.seed,
                old(self).rng.pos,
                final(self).rng.pos,
            ),
    {
        proof {
            assert(map.width <= map.width * map.height && map.height <= map.width * map.height)
                by (nonlinear_arith)
                requires
                    1 <= map.width,
                    1 <= map.height,
            ;
        }
        if map.width < 3 || map.height < 3 {
            return ;
        }
        let w: usize = map.width;
        let h: usize = map.height;
        proof {
            assert((w - 2) * (h - 2) <= w * h) by (nonlinear_arith)
                requires
                    3 <= w,
                    3 <= h,
            ;
        }
        let cells: usize = (w - 2) * (h - 2);
        let ghost m0 = *map;
        let ghost seed = self.rng.seed;
        let ghost p0 = self.rng.pos;
        let ghost base_len = map.points_of_interest@.len() as int;
        let mut k: usize = 0;
        while k < cells
            invariant
                self.location == old(self).location,
                self.base_terrain == old(self).base_terrain,
                self.rng.seed == seed,
                seed == old(self).rng.seed,
                p0 == old(self).rng.pos,
                m0 == *old(map),
                map.wf(),
                old(map).pois_consistent() ==> map.pois_consistent(),
                same_frame(m0, *map),
                w == m0.width,
                h == m0.height,
                3 <= w <= 0x1000_0000,
                3 <= h <= 0x1000_0000,
                cells == (w - 2) * (h - 2),
                base_len == m0.points_of_interest@.len(),
                0 <= k <= cells,
                self.rng.pos == nextn(p0, (3 * k) as nat),
                houses_only(m0, *map),
                forall|a: int, b: int|
                    0 <= a < w && 0 <= b < h ==> #[trigger] road_at(*map, a, b) == road_at(
                        m0,
                        a,
                        b,
                    ),
                forall|j: int| 0 <= j < k ==> #[trigger] house_outcome(m0, *map, seed, p0, j),
                forall|j: int|
                    k <= j < cells ==> #[trigger] map.spec_tile(
                        interior_x(w as int, j),
                        interior_y(w as int, j),
                    ) == m0.spec_tile(interior_x(w as int, j), interior_y(w as int, j)),
                forall|x0: int, y0: int|
                    0 <= x0 < w && 0 <= y0 < h && !(1 <= x0 < w - 1 && 1 <= y0 < h - 1)
                        ==> #[trigger] map.spec_tile(x0, y0) == m0.spec_tile(x0, y0),
                map.points_of_interest@.len() == base_len + house_features_before(m0, seed, p0,
                    k as nat),
                forall|i: int|
                    0 <= i < base_len ==> #[trigger] map.points_of_interest@[i]
                        == m0.points_of_interest@[i],
                forall|j: int|
                    0 <= j < k && #[trigger] house_feature_placed(m0, seed, p0, j)
                        ==> house_poi_described(m0, *map, seed, p0, j),
            decreases cells - k,
        {
            proof {
                lemma_interior_cell(w as int, h as int, k as int);
            }
            let x: usize = 1 + k % (w - 2);
            let y: usize = 1 + k / (w - 2);
            let ghost pre = *map;
            let tile_t = get_tile_type(map, x, y);
            let mut candidate: bool = false;
            if matches!(tile_t, LocationTileType::Ground) {
                candidate = is_adjacent_to_road(map, x, y);
            }
            proof {
                assert(map.spec_tile(x as int, y as int) == m0.spec_tile(x as int, y as int));
                assert forall|a: int, b: int|
                    0 <= a < w && 0 <= b < h implies #[trigger] road_at(pre, a, b) == road_at(
                    m0,
                    a,
                    b,
                ) by {}
                lemma_adjacent_same_roads(pre, m0, x as int, y as int);
                assert(candidate == house_candidate(m0, k as int));
            }
            let roll: u32 = self.rng.below(10);
            let roll2: u32 = self.rng.below(10);
            let roll3: u32 = self.rng.below(2);
            proof {
                assert(nextn(p0, (3 * k + 1) as nat) == next_pos(nextn(p0, (3 * k) as nat)));
                assert(nextn(p0, (3 * k + 2) as nat) == next_pos(nextn(p0, (3 * k + 1) as nat)));
                assert(nextn(p0, (3 * k + 3) as nat) == next_pos(nextn(p0, (3 * k + 2) as nat)));
                assert(3 * (k + 1) == 3 * k + 3);
            }
            if candidate && roll < 3 {
                set_tile_type(map, x, y, LocationTileType::HumanHouse);
                if roll2 < 1 {
                    let kind: FeatureType = if roll3 < 1 {
                        FeatureType::Blacksmith
                    } else {
                        FeatureType::Storage
                    };
                    proof {
                        assert(kind == house_feature_kind(seed, p0, k as int));
                    }
                    place_feature(map, Position { x, y }, kind);
                }
            }
            proof {
                let ki = k as int;
                let wi = w as int;
                let hi = h as int;
                assert(house_features_before(m0, seed, p0, (k + 1) as nat)
                    == house_features_before(m0, seed, p0, k as nat) + if house_feature_placed(
                    m0,
                    seed,
                    p0,
                    ki,
                ) {
                    1int
                } else {
                    0int
                });
                assert forall|j: int| 0 <= j < k + 1 implies #[trigger] house_outcome(m0, *map,
                    seed, p0, j) by {
                    lemma_interior_cell(wi, hi, j);
                    if j != ki {
                        lemma_interior_distinct(wi, hi, j, ki);
                        assert(house_outcome(m0, pre, seed, p0, j));
                        assert(pre.spec_tile(interior_x(wi, j), interior_y(wi, j)) == map.spec_tile(
                            interior_x(wi, j),
                            interior_y(wi, j),
                        ));
                    } else {
                        assert(interior_x(wi, ki) == x as int);
                        assert(interior_y(wi, ki) == y as int);
                        if candidate && roll < 3 {
                            assert(house_placed(m0, seed, p0, ki));
                            assert(map.spec_tile(x as int, y as int).tile_type
                                == LocationTileType::HumanHouse);
                            if roll2 < 1 {
                                assert(house_feature_placed(m0, seed, p0, ki));
                                assert(match map.spec_tile(x as int, y as int).feature {
                                    Option::Some(f) => feature_built(f, house_feature_kind(seed,
                                        p0, ki)),
                                    Option::None => false,
                                });
                            } else {
                                assert(!house_feature_placed(m0, seed, p0, ki));
                                assert(map.spec_tile(x as int, y as int).feature == m0.spec_tile(
                                    x as int,
                                    y as int,
                                ).feature);
                            }
                        } else {
                            assert(!house_placed(m0, seed, p0, ki));
                            assert(map.spec_tile(x as int, y as int) == m0.spec_tile(
                                x as int,
                                y as int,
                            ));
                        }
                    }
                }
                assert forall|j: int|
                    k + 1 <= j < cells implies #[trigger] map.spec_tile(
                    interior_x(wi, j),
                    interior_y(wi, j),
                ) == m0.spec_tile(interior_x(wi, j), interior_y(wi, j)) by {
                    lemma_interior_cell(wi, hi, j);
                    lemma_interior_distinct(wi, hi, j, ki);
                }
                assert forall|j: int|
                    0 <= j < k + 1 && #[trigger] house_feature_placed(m0, seed, p0, j) implies
                    house_poi_described(m0, *map, seed, p0, j) by {
                    if j != ki {
                        assert(house_poi_described(m0, pre, seed, p0, j));
                    }
                }
            }
            k = k + 1;
        }
    }


    /// Ring the settlement with a wall at the fixed inset, punching gates
    /// wherever a road crosses the wall line.
    fn add_walls(&self, map: &mut LocationMap)
        requires
            old(map).wf(),
            old(map).width >= 8,
            old(map).height >= 8,
        ensures
            final(map).wf(),
            old(map).pois_consistent() ==> final(map).pois_consistent(),
            same_frame(*old(map), *final(map)),
            final(map).points_of_interest == old(map).points_of_interest,
            forall|x0: int, y0: int|
                0 <= x0 < old(map).width && 0 <= y0 < old(map).height && on_wall_ring(
                    old(map).width as int,
                    old(map).height as int,
                    x0,
                    y0,
                ) ==> wall_applied(
                    old(map).spec_tile(x0, y0),
                    #[trigger] final(map).spec_tile(x0, y0),
                ),
            forall|x0: int, y0: int|
                0 <= x0 < old(map).width && 0 <= y0 < old(map).height && !on_wall_ring(
                    old(map).width as int,
                    old(map).height as int,
                    x0,
                    y0,
                ) ==> #[trigger] final(map).spec_tile(x0, y0) == old(map).spec_tile(x0, y0),
    {
        let w: usize = map.width;
        let h: usize = map.height;
        let ghost wi = w as int;
        let ghost hi = h as int;
        let mut x: usize = 3;
        while x < w - 3
            invariant
                map.wf(),
                old(map).pois_consistent() ==> map.pois_consistent(),
                same_frame(*old(map), *map),
                map.points_of_interest == old(map).points_of_interest,
                w == old(map).width,
                h == old(map).height,
                wi == w as int,
                hi == h as int,
                w >= 8,
                h >= 8,
                3 <= x <= w - 3,
                forall|x0: int, y0: int|
                    0 <= x0 < w && 0 <= y0 < h && (y0 == 3 || y0 == hi - 4) && 3 <= x0 < x
                        ==> wall_applied(
                        old(map).spec_tile(x0, y0),
                        #[trigger] map.spec_tile(x0, y0),
                    ),
                forall|x0: int, y0: int|
                    0 <= x0 < w && 0 <= y0 < h && !((y0 == 3 || y0 == hi - 4) && 3 <= x0 < x)
                        ==> #[trigger] map.spec_tile(x0, y0) == old(map).spec_tile(x0, y0),
            decreases w - x,
        {
            wall_cell(map, x, 3);
            wall_cell(map, x, h - 4);
            x = x + 1;
        }
        let mut y: usize = 3;
        while y < h - 3
            invariant
                map.wf(),
                old(map).pois_consistent() ==> map.pois_consistent(),
                same_frame(*old(map), *map),
                map.points_of_interest == old(map).points_of_interest,
                w == old(map).width,
                h == old(map).height,
                wi == w as int,
                hi == h as int,
                w >= 8,
                h >= 8,
                3 <= y <= h - 3,
                forall|x0: int, y0: int|
                    0 <= x0 < w && 0 <= y0 < h && (((y0 == 3 || y0 == hi - 4) && 3 <= x0 <= wi - 4)
                        || ((x0 == 3 || x0 == wi - 4) && 3 <= y0 < y)) ==> wall_applied(
                        old(map).spec_tile(x0, y0),
                        #[trigger] map.spec_tile(x0, y0),
                    ),
                forall|x0: int, y0: int|
                    0 <= x0 < w && 0 <= y0 < h && !(((y0 == 3 || y0 == hi - 4) && 3 <= x0 <= wi
                        - 4) || ((x0 == 3 || x0 == wi - 4) && 3 <= y0 < y)) ==> #[trigger] map
                        .spec_tile(x0, y0) == old(map).spec_tile(x0, y0),
            decreases h - y,
        {
            let ghost pre = *map;
            wall_cell(map, 3, y);
            let ghost mid = *map;
            wall_cell(map, w - 4, y);
            proof {
                assert forall|x0: int, y0: int| 0 <= x0 < w && 0 <= y0 < h implies ((
                #[trigger] map.spec_tile(x0, y0)) == map.spec_tile(x0, y0)) by {
                    assert(pre.spec_tile(x0, y0) == pre.spec_tile(x0, y0));
                    assert(mid.spec_tile(x0, y0) == mid.spec_tile(x0, y0));
                }
            }
            y = y + 1;
        }
    }

    /// The full human layout: cardinal and branching roads, central market,
    /// temple and tavern, houses along the roads, and a gated wall ring once
    /// the settlement is large enough.
    fn generate_human_settlement(&mut self, map: &mut LocationMap)
        requires
            old(map).wf(),
            old(map).width >= 10,
            old(map).height >= 10,
        ensures
            final(map).wf(),
            old(map).pois_consistent() ==> final(map).pois_consistent(),
            same_frame(*old(map), *final(map)),
            forall|x: int|
                0 <= x < old(map).width ==> (#[trigger] final(map).spec_tile(
                    x,
                    old(map).height as int / 2,
                ).tile_type) == LocationTileType::HumanRoad,
            forall|y: int|
                0 <= y < old(map).height ==> (#[trigger] final(map).spec_tile(
                    old(map).width as int / 2,
                    y,
                ).tile_type) == LocationTileType::HumanRoad,
            old(self).location.size > 50 ==> forall|x0: int, y0: int|
                0 <= x0 < old(map).width && 0 <= y0 < old(map).height && on_wall_ring(
                    old(map).width as int,
                    old(map).height as int,
                    x0,
                    y0,
                ) ==> ((#[trigger] final(map).spec_tile(x0, y0).tile_type)
                    == LocationTileType::Wall || final(map).spec_tile(x0, y0).tile_type
                    == LocationTileType::HumanRoad),
            forall|x0: int, y0: int|
                0 <= x0 < old(map).width && 0 <= y0 < old(map).height ==> {
                    let t0 = old(map).spec_tile(x0, y0).tile_type;
                    let t1 = (#[trigger] final(map).spec_tile(x0, y0)).tile_type;
                    t1 == t0 || t1 == LocationTileType::HumanRoad || t1
                        == LocationTileType::HumanHouse || (old(self).location.size > 50
                        && on_wall_ring(old(map).width as int, old(map).height as int, x0, y0)
                        && t1 == LocationTileType::Wall)
                },
            final(map).points_of_interest@.len() >= old(map).points_of_interest@.len() + 3,
            forall|i: int|
                0 <= i < old(map).points_of_interest@.len() ==> #[trigger] final(map).points_of_interest@[i] == old(map).points_of_interest@[i],
            final(map).points_of_interest@[old(map).points_of_interest@.len() as int].position
                == (Position { x: old(map).width / 2, y: old(map).height / 2 }),
            feature_built(
                final(map).points_of_interest@[old(map).points_of_interest@.len() as int].feature,
                FeatureType::Market,
            ),
            feature_built(
                final(map).points_of_interest@[old(map).points_of_interest@.len() as int
                    + 1].feature,
                FeatureType::Temple,
            ),
            near_center(
                final(map).points_of_interest@[old(map).points_of_interest@.len() as int
                    + 1].position,
                *old(map),
                2,
            ),
            feature_built(
                final(map).points_of_interest@[old(map).points_of_interest@.len() as int
                    + 2].feature,
                FeatureType::Tavern,
            ),
            near_center(
                final(map).points_of_interest@[old(map).points_of_interest@.len() as int
                    + 2].position,
                *old(map),
                3,
            ),
            final(self).location == old(self).location,
            final(self).base_terrain == old(self).base_terrain,
    {
        self.generate_road_network(map);
        let ghost m1 = *map;
        self.place_central_features(map);
        let ghost m2 = *map;
        self.place_houses(map);
        let ghost m3 = *map;
        let size_check: bool = self.location.size > 50;
        if size_check {
            self.add_walls(map);
        }
        proof {
            let wi = old(map).width as int;
            let hi = old(map).height as int;
            assert forall|x: int|
                0 <= x < wi implies (#[trigger] map.spec_tile(x, hi / 2).tile_type)
                == LocationTileType::HumanRoad by {
                assert(m1.spec_tile(x, hi / 2).tile_type == LocationTileType::HumanRoad);
                assert(m2.spec_tile(x, hi / 2).tile_type == LocationTileType::HumanRoad);
                assert(m3.spec_tile(x, hi / 2).tile_type == LocationTileType::HumanRoad);
            }
            assert forall|y: int|
                0 <= y < hi implies (#[trigger] map.spec_tile(wi / 2, y).tile_type)
                == LocationTileType::HumanRoad by {
                assert(m1.spec_tile(wi / 2, y).tile_type == LocationTileType::HumanRoad);
                assert(m2.spec_tile(wi / 2, y).tile_type == LocationTileType::HumanRoad);
                assert(m3.spec_tile(wi / 2, y).tile_type == LocationTileType::HumanRoad);
            }
            assert forall|x0: int, y0: int| 0 <= x0 < wi && 0 <= y0 < hi implies {
                let t0 = old(map).spec_tile(x0, y0).tile_type;
                let t1 = (#[trigger] map.spec_tile(x0, y0)).tile_type;
                t1 == t0 || t1 == LocationTileType::HumanRoad || t1
                    == LocationTileType::HumanHouse || (old(self).location.size > 50
                    && on_wall_ring(wi, hi, x0, y0) && t1 == LocationTileType::Wall)
            } by {
                assert(m1.spec_tile(x0, y0).blocked == old(map).spec_tile(x0, y0).blocked);
                assert(m2.spec_tile(x0, y0).blocked == old(map).spec_tile(x0, y0).blocked);
                assert(m3.spec_tile(x0, y0).blocked == old(map).spec_tile(x0, y0).blocked);
            }
            let base = old(map).points_of_interest@.len() as int;
            assert(map.points_of_interest@[base] == m2.points_of_interest@[base]);
            assert(map.points_of_interest@[base + 1] == m2.points_of_interest@[base + 1]);
            assert(map.points_of_interest@[base + 2] == m2.points_of_interest@[base + 2]);
            assert forall|i: int| 0 <= i < base implies #[trigger] map.points_of_interest@[i]
                == old(map).points_of_interest@[i] by {
                assert(m2.points_of_interest@[i] == m1.points_of_interest@[i]);
                assert(map.points_of_interest@[i] == m2.points_of_interest@[i]);
            }
        }
    }

    /// The minimal layout for species without a dedicated generator: the
    /// road network and the central features only.
    fn generate_basic_settlement(&mut self, map: &mut LocationMap)
        requires
            old(map).wf(),
        ensures
            final(map).wf(),
            old(map).pois_consistent() ==> final(map).pois_consistent(),
            same_frame(*old(map), *final(map)),
            forall|x: int|
                0 <= x < old(map).width ==> (#[trigger] final(map).spec_tile(
                    x,
                    old(map).height as int / 2,
                ).tile_type) == LocationTileType::HumanRoad,
            forall|y: int|
                0 <= y < old(map).height ==> (#[trigger] final(map).spec_tile(
                    old(map).width as int / 2,
                    y,
                ).tile_type) == LocationTileType::HumanRoad,
            forall|x0: int, y0: int|
                0 <= x0 < old(map).width && 0 <= y0 < old(map).height ==> {
                    let t0 = old(map).spec_tile(x0, y0).tile_type;
                    let t1 = (#[trigger] final(map).spec_tile(x0, y0)).tile_type;
                    t1 == t0 || t1 == LocationTileType::HumanRoad
                },
            ({
                let w = old(map).width as int;
                let h = old(map).height as int;
                let seed = old(self).rng.seed;
                let p0 = old(self).rng.pos;
                let base = old(map).points_of_interest@.len() as int;
                let roads = branches_paint(
                    center_roads(old(map).tiles@, w, h),
                    w,
                    h,
                    seed,
                    next_pos(p0),
                    (2 + stream_word(seed, p0) % 3) as nat,
                );
                let market = final(map).points_of_interest@[base].position;
                let temple = final(map).points_of_interest@[base + 1].position;
                let tavern = final(map).points_of_interest@[base + 2].position;
                &&& final(self).rng.seed == seed
                &&& final(self).rng.pos == nextn(roads.1, 4)
                &&& final(map).points_of_interest@.len() == base + 3
                &&& temple == (Position {
                    x: spec_offset_clamped(w / 2, 2, w, stream_word(seed, roads.1)) as usize,
                    y: spec_offset_clamped(h / 2, 2, h, stream_word(seed, nextn(roads.1, 1)))
                        as usize,
                })
                &&& tavern == (Position {
                    x: spec_offset_clamped(w / 2, 3, w, stream_word(seed, nextn(roads.1, 2)))
                        as usize,
                    y: spec_offset_clamped(h / 2, 3, h, stream_word(seed, nextn(roads.1, 3)))
                        as usize,
                })
                &&& forall|x0: int, y0: int|
                    0 <= x0 < w && 0 <= y0 < h && !(x0 == market.x as int && y0
                        == market.y as int) && !(x0 == temple.x as int && y0 == temple.y as int)
                        && !(x0 == tavern.x as int && y0 == tavern.y as int) ==> #[trigger] final(map).spec_tile(x0, y0) == roads.0[y0 * w + x0]
                &&& match final(map).spec_tile(tavern.x as int, tavern.y as int).feature {
                    Option::Some(f) => feature_built(f, FeatureType::Tavern),
                    Option::None => false,
                }
                &&& (temple != tavern ==> match final(map).spec_tile(
                    temple.x as int,
                    temple.y as int,
                ).feature {
                    Option::Some(f) => feature_built(f, FeatureType::Temple),
                    Option::None => false,
                })
                &&& (market != temple && market != tavern ==> match final(map).spec_tile(
                    market.x as int,
                    market.y as int,
                ).feature {
                    Option::Some(f) => feature_built(f, FeatureType::Market),
                    Option::None => false,
                })
                &&& forall|x0: int, y0: int|
                    0 <= x0 < w && 0 <= y0 < h ==> {
                        let t1 = #[trigger] final(map).spec_tile(x0, y0);
                        t1.tile_type == roads.0[y0 * w + x0].tile_type && t1.blocked == roads.0[y0
                            * w + x0].blocked
                    }
            }),
            final(map).points_of_interest@.len() >= old(map).points_of_interest@.len() + 3,
            forall|i: int|
                0 <= i < old(map).points_of_interest@.len() ==> #[trigger] final(map).points_of_interest@[i] == old(map).points_of_interest@[i],
            final(map).points_of_interest@[old(map).points_of_interest@.len() as int].position
                == (Position { x: old(map).width / 2, y: old(map).height / 2 }),
            feature_built(
                final(map).points_of_interest@[old(map).points_of_interest@.len() as int].feature,
                FeatureType::Market,
            ),
            feature_built(
                final(map).points_of_interest@[old(map).points_of_interest@.len() as int
                    + 1].feature,
                FeatureType::Temple,
            ),
            near_center(
                final(map).points_of_interest@[old(map).points_of_interest@.len() as int
                    + 1].position,
                *old(map),
                2,
            ),
            feature_built(
                final(map).points_of_interest@[old(map).points_of_interest@.len() as int
                    + 2].feature,
                FeatureType::Tavern,
            ),
            near_center(
                final(map).points_of_interest@[old(map).points_of_interest@.len() as int
                    + 2].position,
                *old(map),
                3,
            ),
            final(self).location == old(self).location,
            final(self).base_terrain == old(self).base_terrain,
    {
        self.generate_road_network(map);
        let ghost m1 = *map;
        self.place_central_features(map);
        proof {
            let wi = old(map).width as int;
            let hi = old(map).height as int;
            assert forall|x: int|
                0 <= x < wi implies (#[trigger] map.spec_tile(x, hi / 2).tile_type)
                == LocationTileType::HumanRoad by {
                assert(m1.spec_tile(x, hi / 2).tile_type == LocationTileType::HumanRoad);
            }
            assert forall|y: int|
                0 <= y < hi implies (#[trigger] map.spec_tile(wi / 2, y).tile_type)
                == LocationTileType::HumanRoad by {
                assert(m1.spec_tile(wi / 2, y).tile_type == LocationTileType::HumanRoad);
            }
            assert forall|x0: int, y0: int| 0 <= x0 < wi && 0 <= y0 < hi implies {
                let t0 = old(map).spec_tile(x0, y0).tile_type;
                let t1 = (#[trigger] map.spec_tile(x0, y0)).tile_type;
                t1 == t0 || t1 == LocationTileType::HumanRoad
            } by {
                assert(m1.spec_tile(x0, y0).blocked == old(map).spec_tile(x0, y0).blocked);
            }
            let base = old(map).points_of_interest@.len() as int;
            let market = map.points_of_interest@[base].position;
            let temple = map.points_of_interest@[base + 1].position;
            let tavern = map.points_of_interest@[base + 2].position;
            assert forall|x0: int, y0: int|
                0 <= x0 < wi && 0 <= y0 < hi && !(x0 == market.x as int && y0 == market.y as int)
                    && !(x0 == temple.x as int && y0 == temple.y as int) && !(x0
                    == tavern.x as int && y0 == tavern.y as int) implies #[trigger] map.spec_tile(
                x0,
                y0,
            ) == m1.tiles@[y0 * wi + x0] by {
                assert(map.spec_tile(x0, y0) == m1.spec_tile(x0, y0));
            }
            assert forall|x0: int, y0: int| 0 <= x0 < wi && 0 <= y0 < hi implies {
                let t1 = #[trigger] map.spec_tile(x0, y0);
                t1.tile_type == m1.tiles@[y0 * wi + x0].tile_type && t1.blocked == m1.tiles@[y0
                    * wi + x0].blocked
            } by {
                assert(m1.spec_tile(x0, y0).blocked == map.spec_tile(x0, y0).blocked);
            }
        }
    }

    /// Mark organic winding paths exactly where the noise field seeded by
    /// one fresh draw runs high.
    fn generate_natural_paths(&mut self, map: &mut LocationMap)
        requires
            old(map).wf(),
        ensures
            final(self).location == old(self).location,
            final(self).base_terrain == old(self).base_terrain,
            final(self).rng.seed == old(self).rng.seed,
            final(self).rng.pos == next_pos(old(self).rng.pos),
            final(map).wf(),
            old(map).pois_consistent() ==> final(map).pois_consistent(),
            same_frame(*old(map), *final(map)),
            final(map).points_of_interest == old(map).points_of_interest,
            only_type_changed_to(*old(map), *final(map), LocationTileType::ElfPath),
            forall|x0: int, y0: int|
                0 <= x0 < old(map).width && 0 <= y0 < old(map).height ==> {
                    let t0 = old(map).spec_tile(x0, y0);
                    let t1 = #[trigger] final(map).spec_tile(x0, y0);
                    t1.tile_type == if path_marked(
                        stream_word(old(self).rng.seed, old(self).rng.pos),
                        x0,
                        y0,
                    ) {
                        LocationTileType::ElfPath
                    } else {
                        t0.tile_type
                    }
                },
    {
        proof {
            assert(map.width <= map.width * map.height && map.height <= map.width * map.height)
                by (nonlinear_arith)
                requires
                    1 <= map.width,
                    1 <= map.height,
            ;
        }
        let pseed: u32 = self.rng.next_word();
        let mut y: usize = 0;
        while y < map.height
            invariant
                map.wf(),
                old(map).pois_consistent() ==> map.pois_consistent(),
                same_frame(*old(map), *map),
                self.location == old(self).location,
                self.base_terrain == old(self).base_terrain,
                self.rng.seed == old(self).rng.seed,
                self.rng.pos == next_pos(old(self).rng.pos),
                pseed == stream_word(old(self).rng.seed, old(self).rng.pos),
                map.points_of_interest == old(map).points_of_interest,
                map.width <= 0x1000_0000,
                map.height <= 0x1000_0000,
                0 <= y <= map.height,
                only_type_changed_to(*old(map), *map, LocationTileType::ElfPath),
                forall|x0: int, y0: int|
                    0 <= x0 < old(map).width && 0 <= y0 < old(map).height && y0 < y ==> {
                        let t0 = old(map).spec_tile(x0, y0);
                        let t1 = #[trigger] map.spec_tile(x0, y0);
                        t1.tile_type == if path_marked(pseed, x0, y0) {
                            LocationTileType::ElfPath
                        } else {
                            t0.tile_type
                        }
                    },
                forall|x0: int, y0: int|
                    0 <= x0 < old(map).width && 0 <= y0 < old(map).height && y0 >= y
                        ==> #[trigger] map.spec_tile(x0, y0) == old(map).spec_tile(x0, y0),
            decreases map.height - y,
        {
            let mut x: usize = 0;
            while x < map.width
                invariant
                    map.wf(),
                    old(map).pois_consistent() ==> map.pois_consistent(),
                    same_frame(*old(map), *map),
                    self.location == old(self).location,
                    self.base_terrain == old(self).base_terrain,
                    self.rng.seed == old(self).rng.seed,
                    self.rng.pos == next_pos(old(self).rng.pos),
                    pseed == stream_word(old(self).rng.seed, old(self).rng.pos),
                    map.points_of_interest == old(map).points_of_interest,
                    map.width <= 0x1000_0000,
                    map.height <= 0x1000_0000,
                    0 <= y < map.height,
                    0 <= x <= map.width,
                    only_type_changed_to(*old(map), *map, LocationTileType::ElfPath),
                    forall|x0: int, y0: int|
                        0 <= x0 < old(map).width && 0 <= y0 < old(map).height && (y0 < y || (y0
                            == y && x0 < x)) ==> {
                            let t0 = old(map).spec_tile(x0, y0);
                            let t1 = #[trigger] map.spec_tile(x0, y0);
                            t1.tile_type == if path_marked(pseed, x0, y0) {
                                LocationTileType::ElfPath
                            } else {
                                t0.tile_type
                            }
                        },
                    forall|x0: int, y0: int|
                        0 <= x0 < old(map).width && 0 <= y0 < old(map).height && (y0 > y || (y0
                            == y && x0 >= x)) ==> #[trigger] map.spec_tile(x0, y0) == old(
                            map,
                        ).spec_tile(x0, y0),
                decreases map.width - x,
            {
                let v: i64 = crate::noise_field::sample_milli(
                    pseed as u64,
                    (x as u64) * 100,
                    (y as u64) * 100,
                );
                if v > 700 {
                    set_tile_type(map, x, y, LocationTileType::ElfPath);
                }
                x = x + 1;
            }
            y = y + 1;
        }
    }

    /// Scatter a few treehouse clusters, each a handful of treehouses within
    /// a small radius of a random center.
    fn place_treehouses(&mut self, map: &mut LocationMap)
        requires
            old(map).wf(),
        ensures
            final(self).location == old(self).location,
            final(self).base_terrain == old(self).base_terrain,
            final(self).rng.seed == old(self).rng.seed,
            final(map).wf(),
            old(map).pois_consistent() ==> final(map).pois_consistent(),
            same_frame(*old(map), *final(map)),
            final(map).points_of_interest == old(map).points_of_interest,
            only_type_changed_to(*old(map), *final(map), LocationTileType::ElfTreehouse),
            exists|x0: int, y0: int|
                0 <= x0 < old(map).width && 0 <= y0 < old(map).height && (#[trigger] final(map).spec_tile(x0, y0)).tile_type == LocationTileType::ElfTreehouse,
    {
        proof {
            assert(map.width <= map.width * map.height && map.height <= map.width * map.height)
                by (nonlinear_arith)
                requires
                    1 <= map.width,
                    1 <= map.height,
            ;
        }
        let clusters: u32 = 3 + self.rng.below(3);
        let mut c: u32 = 0;
        while c < clusters
            invariant
                map.wf(),
                old(map).pois_consistent() ==> map.pois_consistent(),
                same_frame(*old(map), *map),
                self.location == old(self).location,
                self.base_terrain == old(self).base_terrain,
                self.rng.seed == old(self).rng.seed,
                map.points_of_interest == old(map).points_of_interest,
                map.width <= 0x1000_0000,
                map.height <= 0x1000_0000,
                only_type_changed_to(*old(map), *map, LocationTileType::ElfTreehouse),
                c > 0 ==> exists|x0: int, y0: int|
                    0 <= x0 < old(map).width && 0 <= y0 < old(map).height && (#[trigger] map
                        .spec_tile(x0, y0)).tile_type == LocationTileType::ElfTreehouse,
            decreases clusters - c,
        {
            let center_x: usize = if map.width > 10 {
                self.rng.range_usize(5, map.width - 5)
            } else {
                map.width / 2
            };
            let center_y: usize = if map.height > 10 {
                self.rng.range_usize(5, map.height - 5)
            } else {
                map.height / 2
            };
            let houses: u32 = 3 + self.rng.below(4);
            let mut k: u32 = 0;
            while k < houses
                invariant
                    map.wf(),
                    old(map).pois_consistent() ==> map.pois_consistent(),
                    same_frame(*old(map), *map),
                    self.location == old(self).location,
                    self.base_terrain == old(self).base_terrain,
                    self.rng.seed == old(self).rng.seed,
                    map.points_of_interest == old(map).points_of_interest,
                    map.width <= 0x1000_0000,
                    map.height <= 0x1000_0000,
                    center_x < map.width,
                    center_y < map.height,
                    only_type_changed_to(*old(map), *map, LocationTileType::ElfTreehouse),
                    c > 0 || k > 0 ==> exists|x0: int, y0: int|
                        0 <= x0 < old(map).width && 0 <= y0 < old(map).height && (#[trigger] map
                            .spec_tile(x0, y0)).tile_type == LocationTileType::ElfTreehouse,
                decreases houses - k,
            {
                let px: usize = offset_clamped(&mut self.rng, center_x, 2, map.width);
                let py: usize = offset_clamped(&mut self.rng, center_y, 2, map.height);
                set_tile_type(map, px, py, LocationTileType::ElfTreehouse);
                proof {
                    assert(map.spec_tile(px as int, py as int).tile_type
                        == LocationTileType::ElfTreehouse);
                }
                k = k + 1;
            }
            proof {
                assert(k > 0);
            }
            c = c + 1;
        }
    }

    /// Scatter gardens at random, then shrines only where no point of
    /// interest already lies within a fixed Chebyshev distance.
    fn place_nature_features(&mut self, map: &mut LocationMap)
        requires
            old(map).wf(),
        ensures
            final(self).location == old(self).location,
            final(self).base_terrain == old(self).base_terrain,
            final(self).rng.seed == old(self).rng.seed,
            final(map).wf(),
            old(map).pois_consistent() ==> final(map).pois_consistent(),
            same_frame(*old(map), *final(map)),
            features_only(*old(map), *final(map)),
            final(map).points_of_interest@.len() >= old(map).points_of_interest@.len() + 3,
            forall|i: int|
                0 <= i < 3 ==> feature_built(
                    (#[trigger] final(map).points_of_interest@[old(
                        map,
                    ).points_of_interest@.len() + i]).feature,
                    FeatureType::Garden,
                ),
    {
        proof {
            assert(map.width <= map.width * map.height && map.height <= map.width * map.height)
                by (nonlinear_arith)
                requires
                    1 <= map.width,
                    1 <= map.height,
            ;
        }
        let ghost base = map.points_of_interest@.len() as int;
        let gardens: u32 = 3 + self.rng.below(4);
        let mut g: u32 = 0;
        while g < gardens
            invariant
                map.wf(),
                old(map).pois_consistent() ==> map.pois_consistent(),
                same_frame(*old(map), *map),
                self.location == old(self).location,
                self.base_terrain == old(self).base_terrain,
                self.rng.seed == old(self).rng.seed,
                map.width <= 0x1000_0000,
                map.height <= 0x1000_0000,
                features_only(*old(map), *map),
                base == old(map).points_of_interest@.len(),
                map.points_of_interest@.len() == base + g,
                forall|i: int|
                    0 <= i < g ==> feature_built(
                        (#[trigger] map.points_of_interest@[base + i]).feature,
                        FeatureType::Garden,
                    ),
            decreases gardens - g,
        {
            let x: usize = if map.width > 1 {
                self.rng.range_usize(0, map.width)
            } else {
                0
            };
            let y: usize = if map.height > 1 {
                self.rng.range_usize(0, map.height)
            } else {
                0
            };
            let ghost pre = *map;
            place_feature(map, Position { x, y }, FeatureType::Garden);
            proof {
                assert forall|i: int| 0 <= i < g + 1 implies feature_built(
                    (#[trigger] map.points_of_interest@[base + i]).feature,
                    FeatureType::Garden,
                ) by {
                    if i < g {
                        assert(map.points_of_interest@[base + i] == pre.points_of_interest@[base
                            + i]);
                    } else {
                        assert(map.points_of_interest@[base + i]
                            == map.points_of_interest@.last());
                    }
                }
            }
            g = g + 1;
        }
        let shrines: u32 = 2 + self.rng.below(3);
        let mut k: u32 = 0;
        while k < shrines
            invariant
                map.wf(),
                old(map).pois_consistent() ==> map.pois_consistent(),
                same_frame(*old(map), *map),
                self.location == old(self).location,
                self.base_terrain == old(self).base_terrain,
                self.rng.seed == old(self).rng.seed,
                map.width <= 0x1000_0000,
                map.height <= 0x1000_0000,
                features_only(*old(map), *map),
                base == old(map).points_of_interest@.len(),
                map.points_of_interest@.len() >= base + 3,
                forall|i: int|
                    0 <= i < 3 ==> feature_built(
                        (#[trigger] map.points_of_interest@[base + i]).feature,
                        FeatureType::Garden,
                    ),
            decreases shrines - k,
        {
            let x: usize = if map.width > 1 {
                self.rng.range_usize(0, map.width)
            } else {
                0
            };
            let y: usize = if map.height > 1 {
                self.rng.range_usize(0, map.height)
            } else {
                0
            };
            if !is_near_feature(map, Position { x, y }, 5) {
                place_feature(map, Position { x, y }, FeatureType::Temple);
            }
            k = k + 1;
        }
    }

    /// The elf layout: organic paths, treehouse clusters, gardens and
    /// shrines. Afterward every tile is open ground, a path or a treehouse;
    /// where the drawn path field runs high the tile is a path unless a
    /// treehouse took it, and elsewhere only treehouses change the ground.
    fn generate_elf_settlement(&mut self, map: &mut LocationMap)
        requires
            old(map).wf(),
        ensures
            final(map).wf(),
            old(map).pois_consistent() ==> final(map).pois_consistent(),
            same_frame(*old(map), *final(map)),
            forall|x0: int, y0: int|
                0 <= x0 < old(map).width && 0 <= y0 < old(map).height ==> {
                    let t0 = old(map).spec_tile(x0, y0).tile_type;
                    let t1 = (#[trigger] final(map).spec_tile(x0, y0)).tile_type;
                    &&& (t1 == t0 || t1 == LocationTileType::ElfPath || t1
                        == LocationTileType::ElfTreehouse)
                    &&& (path_marked(stream_word(old(self).rng.seed, old(self).rng.pos), x0, y0)
                        ==> (t1 == LocationTileType::ElfPath || t1
                        == LocationTileType::ElfTreehouse))
                    &&& (!path_marked(stream_word(old(self).rng.seed, old(self).rng.pos), x0, y0)
                        ==> (t1 == t0 || t1 == LocationTileType::ElfTreehouse))
                },
            exists|x0: int, y0: int|
                0 <= x0 < old(map).width && 0 <= y0 < old(map).height && (#[trigger] final(map).spec_tile(x0, y0)).tile_type == LocationTileType::ElfTreehouse,
            final(map).points_of_interest@.len() >= old(map).points_of_interest@.len() + 3,
            forall|i: int|
                0 <= i < 3 ==> feature_built(
                    (#[trigger] final(map).points_of_interest@[old(
                        map,
                    ).points_of_interest@.len() + i]).feature,
                    FeatureType::Garden,
                ),
            final(self).location == old(self).location,
            final(self).base_terrain == old(self).base_terrain,
            final(self).rng.seed == old(self).rng.seed,
    {
        self.generate_natural_paths(map);
        let ghost m1 = *map;
        self.place_treehouses(map);
        let ghost m2 = *map;
        self.place_nature_features(map);
        proof {
            let pseed = stream_word(old(self).rng.seed, old(self).rng.pos);
            assert forall|x0: int, y0: int|
                0 <= x0 < old(map).width && 0 <= y0 < old(map).height implies {
                let t0 = old(map).spec_tile(x0, y0).tile_type;
                let t1 = (#[trigger] map.spec_tile(x0, y0)).tile_type;
                &&& (t1 == t0 || t1 == LocationTileType::ElfPath || t1
                    == LocationTileType::ElfTreehouse)
                &&& (path_marked(pseed, x0, y0) ==> (t1 == LocationTileType::ElfPath || t1
                    == LocationTileType::ElfTreehouse))
                &&& (!path_marked(pseed, x0, y0) ==> (t1 == t0 || t1
                    == LocationTileType::ElfTreehouse))
            } by {
                assert(m1.spec_tile(x0, y0).blocked == old(map).spec_tile(x0, y0).blocked);
                assert(m2.spec_tile(x0, y0).blocked == old(map).spec_tile(x0, y0).blocked);
            }
            let (tx, ty) = choose|tx: int, ty: int|
                0 <= tx < old(map).width && 0 <= ty < old(map).height && (#[trigger] m2.spec_tile(
                    tx,
                    ty,
                )).tile_type == LocationTileType::ElfTreehouse;
            assert(map.spec_tile(tx, ty).tile_type == LocationTileType::ElfTreehouse);
        }
    }

    /// Expand the settlement into its interior map, dispatched on species.
    pub fn generate(&mut self) -> (m: LocationMap)
        requires
            old(self).location.wf(),
        ensures
            m.wf(),
            m.width == m.height,
            10 <= m.width <= 22,
            m.width % 2 == 0,
            final(self).location == old(self).location,
            !(old(self).location.species == Species::Elf) ==> (forall|x: int|
                0 <= x < m.width ==> (#[trigger] m.spec_tile(x, m.height as int / 2).tile_type)
                    == LocationTileType::HumanRoad) && (forall|y: int|
                0 <= y < m.height ==> (#[trigger] m.spec_tile(m.width as int / 2, y).tile_type)
                    == LocationTileType::HumanRoad),
            old(self).location.species == Species::Human && old(self).location.size > 50
                ==> forall|x0: int, y0: int|
                0 <= x0 < m.width && 0 <= y0 < m.height && on_wall_ring(
                    m.width as int,
                    m.height as int,
                    x0,
                    y0,
                ) ==> ((#[trigger] m.spec_tile(x0, y0).tile_type) == LocationTileType::Wall
                    || m.spec_tile(x0, y0).tile_type == LocationTileType::HumanRoad),
            old(self).location.species == Species::Elf ==> forall|x0: int, y0: int|
                0 <= x0 < m.width && 0 <= y0 < m.height ==> ((#[trigger] m.spec_tile(
                    x0,
                    y0,
                ).tile_type) == LocationTileType::Ground || m.spec_tile(x0, y0).tile_type
                    == LocationTileType::ElfPath || m.spec_tile(x0, y0).tile_type
                    == LocationTileType::ElfTreehouse),
            m.width == spec_map_side(
                old(self).location.size as int,
                stream_word(old(self).rng.seed, old(self).rng.pos),
            ),
            m.pois_consistent(),
            !(old(self).location.species == Species::Elf) ==> {
                &&& m.points_of_interest@.len() >= 3
                &&& m.points_of_interest@[0].position == (Position {
                    x: m.width / 2,
                    y: m.height / 2,
                })
                &&& feature_built(m.points_of_interest@[0].feature, FeatureType::Market)
                &&& feature_built(m.points_of_interest@[1].feature, FeatureType::Temple)
                &&& near_center(m.points_of_interest@[1].position, m, 2)
                &&& feature_built(m.points_of_interest@[2].feature, FeatureType::Tavern)
                &&& near_center(m.points_of_interest@[2].position, m, 3)
            },
            !(old(self).location.species == Species::Human && old(self).location.size > 50)
                ==> forall|x0: int, y0: int|
                0 <= x0 < m.width && 0 <= y0 < m.height ==> (#[trigger] m.spec_tile(
                    x0,
                    y0,
                ).tile_type) != LocationTileType::Wall,
            old(self).location.species == Species::Human && old(self).location.size > 50
                ==> forall|x0: int, y0: int|
                0 <= x0 < m.width && 0 <= y0 < m.height && !on_wall_ring(
                    m.width as int,
                    m.height as int,
                    x0,
                    y0,
                ) ==> (#[trigger] m.spec_tile(x0, y0).tile_type) != LocationTileType::Wall,
            !(old(self).location.species == Species::Human || old(self).location.species
                == Species::Elf) ==> forall|x0: int, y0: int|
                0 <= x0 < m.width && 0 <= y0 < m.height ==> ((#[trigger] m.spec_tile(
                    x0,
                    y0,
                ).tile_type) == LocationTileType::Ground || m.spec_tile(x0, y0).tile_type
                    == LocationTileType::HumanRoad),
            !(old(self).location.species == Species::Human || old(self).location.species
                == Species::Elf) ==> basic_interior_matches(
                m,
                old(self).rng.seed,
                old(self).rng.pos,
                old(self).location.size as int,
            ),
            old(self).location.species == Species::Elf ==> exists|x0: int, y0: int|
                0 <= x0 < m.width && 0 <= y0 < m.height && (#[trigger] m.spec_tile(
                    x0,
                    y0,
                ).tile_type) == LocationTileType::ElfTreehouse,
            old(self).location.species == Species::Elf ==> m.points_of_interest@.len() >= 3
                && (forall|i: int|
                0 <= i < 3 ==> feature_built(
                    (#[trigger] m.points_of_interest@[i]).feature,
                    FeatureType::Garden,
                )),
            old(self).location.species == Species::Elf ==> forall|x0: int, y0: int|
                0 <= x0 < m.width && 0 <= y0 < m.height ==> {
                    let marked = path_marked(
                        stream_word(old(self).rng.seed, next_pos(old(self).rng.pos)),
                        x0,
                        y0,
                    );
                    let t1 = (#[trigger] m.spec_tile(x0, y0)).tile_type;
                    &&& (marked ==> (t1 == LocationTileType::ElfPath || t1
                        == LocationTileType::ElfTreehouse))
                    &&& (!marked ==> (t1 == LocationTileType::Ground || t1
                        == LocationTileType::ElfTreehouse))
                },
    {
        let dims = self.determine_map_size();
        let width: usize = dims.0;
        let height: usize = dims.1;
        proof {
            assert(width * height <= 0x1000_0000) by (nonlinear_arith)
                requires
                    width <= 22,
                    height <= 22,
            ;
        }
        let mut map = self.create_empty_map(width, height);
        let ghost m0 = map;
        match self.location.species {
            Species::Human => {
                self.generate_human_settlement(&mut map);
                proof {
                    assert forall|x0: int, y0: int| 0 <= x0 < map.width && 0 <= y0 < map.height
                        implies (#[trigger] map.spec_tile(x0, y0)).tile_type
                        != LocationTileType::Ground ==> (map.spec_tile(x0, y0).tile_type
                        == LocationTileType::HumanRoad || map.spec_tile(x0, y0).tile_type
                        == LocationTileType::HumanHouse || map.spec_tile(x0, y0).tile_type
                        == LocationTileType::Wall) by {
                        assert(m0.spec_tile(x0, y0).tile_type == LocationTileType::Ground);
                    }
                    assert forall|x0: int, y0: int| 0 <= x0 < map.width && 0 <= y0 < map.height
                        && (#[trigger] map.spec_tile(x0, y0)).tile_type == LocationTileType::Wall
                        implies old(self).location.size > 50 && on_wall_ring(
                        map.width as int,
                        map.height as int,
                        x0,
                        y0,
                    ) by {
                        assert(m0.spec_tile(x0, y0).tile_type == LocationTileType::Ground);
                    }
                }
            },
            Species::Elf => {
                self.generate_elf_settlement(&mut map);
                proof {
                    assert forall|x0: int, y0: int| 0 <= x0 < map.width && 0 <= y0 < map.height
                        implies ((#[trigger] map.spec_tile(x0, y0)).tile_type
                        == LocationTileType::Ground || map.spec_tile(x0, y0).tile_type
                        == LocationTileType::ElfPath || map.spec_tile(x0, y0).tile_type
                        == LocationTileType::ElfTreehouse) by {
                        assert(m0.spec_tile(x0, y0).tile_type == LocationTileType::Ground);
                    }
                    assert forall|i: int| 0 <= i < 3 implies feature_built(
                        (#[trigger] map.points_of_interest@[i]).feature,
                        FeatureType::Garden,
                    ) by {
                        assert(feature_built(
                            map.points_of_interest@[m0.points_of_interest@.len() + i].feature,
                            FeatureType::Garden,
                        ));
                    }
                }
            },
            _ => {
                proof {
                    let side = width as int;
                    assert forall|i: int| 0 <= i < m0.tiles@.len() implies #[trigger] m0.tiles@[i]
                        == ground_grid(side * side)[i] by {
                        lemma_mod_bound(i, side);
                        lemma_div_pos_is_pos(i, side);
                        lemma_multiply_divide_lt(i, side, side);
                        vstd::arithmetic::div_mod::lemma_fundamental_div_mod(i, side);
                        assert(m0.spec_tile(i % side, i / side) == m0.tiles@[(i / side) * side + i
                            % side]);
                        assert((i / side) * side + i % side == i) by (nonlinear_arith)
                            requires
                                i == side * (i / side) + i % side,
                        ;
                    }
                    assert(m0.tiles@ =~= ground_grid(side * side));
                }
                self.generate_basic_settlement(&mut map);
                proof {
                    assert forall|x0: int, y0: int| 0 <= x0 < map.width && 0 <= y0 < map.height
                        implies ((#[trigger] map.spec_tile(x0, y0)).tile_type
                        == LocationTileType::Ground || map.spec_tile(x0, y0).tile_type
                        == LocationTileType::HumanRoad) by {
                        assert(m0.spec_tile(x0, y0).tile_type == LocationTileType::Ground);
                    }
                    assert(basic_interior_matches(
                        map,
                        old(self).rng.seed,
                        old(self).rng.pos,
                        old(self).location.size as int,
                    ));
                }
            },
        }
        map
    }
}


/// Every cell keeps its blocked flag; a tile type either stays or turns from
/// ground into a house, and a feature changes only where a house stands; the
/// recorded points of interest are preserved and possibly extended.
pub open spec fn houses_only(m0: LocationMap, m1: LocationMap) -> bool {
    &&& forall|x: int, y: int|
        0 <= x < m0.width && 0 <= y < m0.height ==> {
            let t0 = m0.spec_tile(x, y);
            let t1 = #[trigger] m1.spec_tile(x, y);
            &&& t1.blocked == t0.blocked
            &&& (t1.tile_type == t0.tile_type || (t0.tile_type == LocationTileType::Ground
                && t1.tile_type == LocationTileType::HumanHouse))
            &&& (t1.feature == t0.feature || t1.tile_type == LocationTileType::HumanHouse)
        }
    &&& m0.points_of_interest@.len() <= m1.points_of_interest@.len()
    &&& forall|i: int|
        0 <= i < m0.points_of_interest@.len() ==> #[trigger] m1.points_of_interest@[i]
            == m0.points_of_interest@[i]
}

/// `pos` advanced `n` draws.
pub open spec fn nextn(pos: u64, n: nat) -> u64
    decreases n,
{
    if n == 0 {
        pos
    } else {
        next_pos(nextn(pos, (n - 1) as nat))
    }
}

/// The column of the `k`-th interior cell of a row-major sweep over a grid
/// of width `w`.
pub open spec fn interior_x(w: int, k: int) -> int {
    1 + k % (w - 2)
}

/// The row of the `k`-th interior cell.
pub open spec fn interior_y(w: int, k: int) -> int {
    1 + k / (w - 2)
}

/// Whether the `k`-th interior cell is a house candidate: open ground beside
/// a road.
pub open spec fn house_candidate(m0: LocationMap, k: int) -> bool {
    let x = interior_x(m0.width as int, k);
    let y = interior_y(m0.width as int, k);
    m0.spec_tile(x, y).tile_type == LocationTileType::Ground && spec_adjacent_road(m0, x, y)
}

/// Whether the `k`-th interior cell receives a house: a candidate whose
/// first draw succeeds with chance three in ten.
pub open spec fn house_placed(m0: LocationMap, seed: u64, p0: u64, k: int) -> bool {
    house_candidate(m0, k) && stream_word(seed, nextn(p0, (3 * k) as nat)) % 10 < 3
}

/// Whether the house on the `k`-th interior cell also gains a feature: the
/// second draw succeeds with chance one in ten.
pub open spec fn house_feature_placed(m0: LocationMap, seed: u64, p0: u64, k: int) -> bool {
    house_placed(m0, seed, p0, k) && stream_word(seed, nextn(p0, (3 * k + 1) as nat)) % 10 < 1
}

/// The feature kind the third draw picks: a blacksmith or a storage.
pub open spec fn house_feature_kind(seed: u64, p0: u64, k: int) -> FeatureType {
    if stream_word(seed, nextn(p0, (3 * k + 2) as nat)) % 2 < 1 {
        FeatureType::Blacksmith
    } else {
        FeatureType::Storage
    }
}

/// How many of the first `k` interior cells gained a feature.
pub open spec fn house_features_before(m0: LocationMap, seed: u64, p0: u64, k: nat) -> int
    decreases k,
{
    if k == 0 {
        0
    } else {
        house_features_before(m0, seed, p0, (k - 1) as nat) + if house_feature_placed(
            m0,
            seed,
            p0,
            k - 1,
        ) {
            1int
        } else {
            0int
        }
    }
}

/// The outcome the sweep dictates for the `k`-th interior cell of `m0`,
/// realized in `m1`.
pub open spec fn house_outcome(m0: LocationMap, m1: LocationMap, seed: u64, p0: u64, k: int) -> bool {
    let w = m0.width as int;
    let x = interior_x(w, k);
    let y = interior_y(w, k);
    let t0 = m0.spec_tile(x, y);
    let t1 = m1.spec_tile(x, y);
    &&& t1.tile_type == if house_placed(m0, seed, p0, k) {
        LocationTileType::HumanHouse
    } else {
        t0.tile_type
    }
    &&& t1.blocked == t0.blocked
    &&& if house_feature_placed(m0, seed, p0, k) {
        match t1.feature {
            Option::Some(f) => feature_built(f, house_feature_kind(seed, p0, k)),
            Option::None => false,
        }
    } else {
        t1.feature == t0.feature
    }
}

/// The point of interest that the feature on the `k`-th interior cell
/// appends, at its computable index.
pub open spec fn house_poi_described(
    m0: LocationMap,
    m1: LocationMap,
    seed: u64,
    p0: u64,
    k: int,
) -> bool {
    let w = m0.width as int;
    let i = m0.points_of_interest@.len() + house_features_before(m0, seed, p0, k as nat);
    &&& 0 <= i < m1.points_of_interest@.len()
    &&& m1.points_of_interest@[i].position.x as int == interior_x(w, k)
    &&& m1.points_of_interest@[i].position.y as int == interior_y(w, k)
    &&& feature_built(m1.points_of_interest@[i].feature, house_feature_kind(seed, p0, k))
}

/// What the house pass does to a map with an interior: each interior cell's
/// three-word block decides its outcome, every other cell is unchanged, the
/// appended points of interest sit at computable indices, and the stream
/// advances by exactly three words per interior cell.
pub open spec fn houses_pass_described(
    m0: LocationMap,
    m1: LocationMap,
    seed: u64,
    p0: u64,
    p1: u64,
) -> bool {
    let w = m0.width as int;
    let h = m0.height as int;
    let cells = (w - 2) * (h - 2);
    &&& p1 == nextn(p0, (3 * cells) as nat)
    &&& forall|k: int| 0 <= k < cells ==> #[trigger] house_outcome(m0, m1, seed, p0, k)
    &&& forall|x0: int, y0: int|
        0 <= x0 < w && 0 <= y0 < h && !(1 <= x0 < w - 1 && 1 <= y0 < h - 1)
            ==> #[trigger] m1.spec_tile(x0, y0) == m0.spec_tile(x0, y0)
    &&& m1.points_of_interest@.len() == m0.points_of_interest@.len() + house_features_before(
        m0,
        seed,
        p0,
        cells as nat,
    )
    &&& forall|i: int|
        0 <= i < m0.points_of_interest@.len() ==> #[trigger] m1.points_of_interest@[i]
            == m0.points_of_interest@[i]
    &&& forall|k: int|
        0 <= k < cells && #[trigger] house_feature_placed(m0, seed, p0, k)
            ==> house_poi_described(m0, m1, seed, p0, k)
}

/// The `k`-th interior cell lies strictly inside the grid.
pub proof fn lemma_interior_cell(w: int, h: int, k: int)
    requires
        3 <= w,
        3 <= h,
        0 <= k < (w - 2) * (h - 2),
    ensures
        1 <= interior_x(w, k) < w - 1,
        1 <= interior_y(w, k) < h - 1,
{
    lemma_mod_bound(k, w - 2);
    lemma_div_pos_is_pos(k, w - 2);
    lemma_multiply_divide_lt(k, w - 2, h - 2);
}

/// Distinct sweep indices name distinct interior cells.
pub proof fn lemma_interior_distinct(w: int, h: int, j: int, k: int)
    requires
        3 <= w,
        0 <= j,
        0 <= k,
        j != k,
    ensures
        interior_x(w, j) != interior_x(w, k) || interior_y(w, j) != interior_y(w, k),
{
    lemma_fundamental_div_mod(j, w - 2);
    lemma_fundamental_div_mod(k, w - 2);
}

/// Adjacency to a road depends only on the road layout, which the two maps
/// share.
pub proof fn lemma_adjacent_same_roads(m1: LocationMap, m0: LocationMap, x: int, y: int)
    requires
        m1.width == m0.width,
        m1.height == m0.height,
        forall|a: int, b: int|
            0 <= a < m0.width && 0 <= b < m0.height ==> #[trigger] road_at(m1, a, b) == road_at(
                m0,
                a,
                b,
            ),
    ensures
        spec_adjacent_road(m1, x, y) == spec_adjacent_road(m0, x, y),
{
    if spec_adjacent_road(m1, x, y) {
        let (xi, yi) = choose|xi: int, yi: int|
            0 <= xi < m1.width && 0 <= yi < m1.height && !(xi == x && yi == y) && x - 1 <= xi <= x
                + 1 && y - 1 <= yi <= y + 1 && #[trigger] road_at(m1, xi, yi);
        assert(road_at(m0, xi, yi));
        assert(spec_adjacent_road(m0, x, y));
    }
    if spec_adjacent_road(m0, x, y) {
        let (xi, yi) = choose|xi: int, yi: int|
            0 <= xi < m0.width && 0 <= yi < m0.height && !(xi == x && yi == y) && x - 1 <= xi <= x
                + 1 && y - 1 <= yi <= y + 1 && #[trigger] road_at(m0, xi, yi);
        assert(road_at(m1, xi, yi));
        assert(spec_adjacent_road(m1, x, y));
    }
}

/// Whether the organic-path field drawn from `pseed` runs high at a cell:
/// where it does, the path pass paints an elf path.
pub open spec fn path_marked(pseed: u32, x: int, y: int) -> bool {
    crate::noise_field::spec_sample(pseed as u64, (x * 100) as u64, (y * 100) as u64) > 700
}

/// Whether `m` is exactly the interior that the basic layout derives from
/// `(seed, p0, size)`: the sizing draw fixes the side, the road pass paints
/// `branches_paint` over fresh ground, and the three recorded features sit
/// at positions the following draws dictate. The full functional description
/// of the basic branch.
pub open spec fn basic_interior_matches(m: LocationMap, seed: u64, p0: u64, size: int) -> bool {
    let side = spec_map_side(size, stream_word(seed, p0));
    let p1 = next_pos(p0);
    let roads = branches_paint(
        center_roads(ground_grid(side * side), side, side),
        side,
        side,
        seed,
        next_pos(p1),
        (2 + stream_word(seed, p1) % 3) as nat,
    );
    let pr = roads.1;
    let market = Position { x: (side / 2) as usize, y: (side / 2) as usize };
    let temple = Position {
        x: spec_offset_clamped(side / 2, 2, side, stream_word(seed, pr)) as usize,
        y: spec_offset_clamped(side / 2, 2, side, stream_word(seed, nextn(pr, 1))) as usize,
    };
    let tavern = Position {
        x: spec_offset_clamped(side / 2, 3, side, stream_word(seed, nextn(pr, 2))) as usize,
        y: spec_offset_clamped(side / 2, 3, side, stream_word(seed, nextn(pr, 3))) as usize,
    };
    &&& m.wf()
    &&& m.width == side
    &&& m.height == side
    &&& m.points_of_interest@.len() == 3
    &&& m.points_of_interest@[0].position == market
    &&& feature_built(m.points_of_interest@[0].feature, FeatureType::Market)
    &&& m.points_of_interest@[1].position == temple
    &&& feature_built(m.points_of_interest@[1].feature, FeatureType::Temple)
    &&& m.points_of_interest@[2].position == tavern
    &&& feature_built(m.points_of_interest@[2].feature, FeatureType::Tavern)
    &&& forall|x0: int, y0: int|
        0 <= x0 < side && 0 <= y0 < side && !(x0 == market.x as int && y0 == market.y as int)
            && !(x0 == temple.x as int && y0 == temple.y as int) && !(x0 == tavern.x as int && y0
            == tavern.y as int) ==> #[trigger] m.spec_tile(x0, y0) == roads.0[y0 * side + x0]
    &&& match m.spec_tile(tavern.x as int, tavern.y as int).feature {
        Option::Some(f) => feature_built(f, FeatureType::Tavern),
        Option::None => false,
    }
    &&& (temple != tavern ==> match m.spec_tile(temple.x as int, temple.y as int).feature {
        Option::Some(f) => feature_built(f, FeatureType::Temple),
        Option::None => false,
    })
    &&& (market != temple && market != tavern ==> match m.spec_tile(
        market.x as int,
        market.y as int,
    ).feature {
        Option::Some(f) => feature_built(f, FeatureType::Market),
        Option::None => false,
    })
    &&& forall|x0: int, y0: int|
        0 <= x0 < side && 0 <= y0 < side ==> {
            let t1 = #[trigger] m.spec_tile(x0, y0);
            t1.tile_type == roads.0[y0 * side + x0].tile_type && t1.blocked == roads.0[y0 * side
                + x0].blocked
        }
}

/// The agreement on interior tiles that determinism promises: type and
/// blocked flag equal, features of the same kind with names compared by
/// content.
pub open spec fn interior_tile_equivalent(t1: LocationTile, t2: LocationTile) -> bool {
    &&& t1.tile_type == t2.tile_type
    &&& t1.blocked == t2.blocked
    &&& match (t1.feature, t2.feature) {
        (Option::Some(f1), Option::Some(f2)) => f1.feature_type == f2.feature_type && f1.name@
            == f2.name@,
        (Option::None, Option::None) => true,
        _ => false,
    }
}

/// Re-entering a basic-species settlement regenerates the same interior:
/// two maps derived from the same seed, stream position and settlement size
/// agree on dimensions, on every cell, and on their recorded features.
pub proof fn lemma_basic_interior_deterministic(
    m1: LocationMap,
    m2: LocationMap,
    seed: u64,
    p0: u64,
    size: int,
)
    requires
        basic_interior_matches(m1, seed, p0, size),
        basic_interior_matches(m2, seed, p0, size),
    ensures
        m1.width == m2.width,
        m1.height == m2.height,
        m1.points_of_interest@.len() == m2.points_of_interest@.len(),
        forall|i: int|
            0 <= i < m1.points_of_interest@.len() ==> {
                let q1 = #[trigger] m1.points_of_interest@[i];
                let q2 = m2.points_of_interest@[i];
                q1.position == q2.position && q1.feature.feature_type == q2.feature.feature_type
                    && q1.feature.name@ == q2.feature.name@
            },
        forall|x0: int, y0: int|
            0 <= x0 < m1.width && 0 <= y0 < m1.height ==> interior_tile_equivalent(
                #[trigger] m1.spec_tile(x0, y0),
                m2.spec_tile(x0, y0),
            ),
{
    let side = spec_map_side(size, stream_word(seed, p0));
    assert forall|x0: int, y0: int| 0 <= x0 < m1.width && 0 <= y0 < m1.height implies
        interior_tile_equivalent(#[trigger] m1.spec_tile(x0, y0), m2.spec_tile(x0, y0)) by {
        assert(m1.spec_tile(x0, y0).tile_type == m2.spec_tile(x0, y0).tile_type);
    }
}

/// The freshly created interior grid: open ground everywhere.
pub open spec fn ground_grid(cells: int) -> Seq<LocationTile> {
    Seq::new(
        cells as nat,
        |i: int|
            LocationTile {
                blocked: false,
                tile_type: LocationTileType::Ground,
                feature: Option::None,
            },
    )
}

/// The grid with the two full cardinal roads painted through the center
/// row and column.
pub open spec fn center_roads(ts: Seq<LocationTile>, w: int, h: int) -> Seq<LocationTile> {
    Seq::new(
        ts.len(),
        |i: int|
            if i / w == h / 2 || i % w == w / 2 {
                LocationTile {
                    blocked: ts[i].blocked,
                    tile_type: LocationTileType::HumanRoad,
                    feature: ts[i].feature,
                }
            } else {
                ts[i]
            },
    )
}

/// The grid and stream position after the first `b` branching roads: each
/// branch draws its edge start point, then walks to the center.
pub open spec fn branches_paint(
    ts: Seq<LocationTile>,
    w: int,
    h: int,
    seed: u64,
    pos: u64,
    b: nat,
) -> (Seq<LocationTile>, u64)
    decreases b,
{
    if b == 0 {
        (ts, pos)
    } else {
        let prev = branches_paint(ts, w, h, seed, pos, (b - 1) as nat);
        let sx = if w > 1 {
            stream_word(seed, prev.1) % (w as u32)
        } else {
            0
        };
        let p1 = if w > 1 {
            next_pos(prev.1)
        } else {
            prev.1
        };
        let sy = if stream_word(seed, p1) % 2 < 1 {
            0
        } else {
            h - 1
        };
        let p2 = next_pos(p1);
        walk_paint(prev.0, w, h, seed, p2, sx as int, sy)
    }
}

/// The grid a road walk paints and the stream position it leaves behind:
/// from `(cx, cy)` the walk paints its cell, draws one word, steps one cell
/// toward the map center — on the drawn axis when that axis is not yet
/// aligned, else on the other — and repeats until it stands on the center.
pub open spec fn walk_paint(
    ts: Seq<LocationTile>,
    w: int,
    h: int,
    seed: u64,
    pos: u64,
    cx: int,
    cy: int,
) -> (Seq<LocationTile>, u64)
    decreases crate::world::abs_int(cx - w / 2) + crate::world::abs_int(cy - h / 2),
        when 1 <= w && 1 <= h && 0 <= cx < w && 0 <= cy < h
{
    let tx = w / 2;
    let ty = h / 2;
    if cx == tx && cy == ty {
        (ts, pos)
    } else {
        let idx = cy * w + cx;
        let ts1 = ts.update(
            idx,
            LocationTile {
                blocked: ts[idx].blocked,
                tile_type: LocationTileType::HumanRoad,
                feature: ts[idx].feature,
            },
        );
        let toward_x = stream_word(seed, pos) % 10 < 7;
        if toward_x && cx != tx {
            walk_paint(ts1, w, h, seed, next_pos(pos), if cx < tx {
                cx + 1
            } else {
                cx - 1
            }, cy)
        } else if !toward_x && cy != ty {
            walk_paint(ts1, w, h, seed, next_pos(pos), cx, if cy < ty {
                cy + 1
            } else {
                cy - 1
            })
        } else if cx != tx {
            walk_paint(ts1, w, h, seed, next_pos(pos), if cx < tx {
                cx + 1
            } else {
                cx - 1
            }, cy)
        } else {
            walk_paint(ts1, w, h, seed, next_pos(pos), cx, if cy < ty {
                cy + 1
            } else {
                cy - 1
            })
        }
    }
}

/// The cells of the defensive ring: the rows and columns at the fixed inset
/// from the map edge.
pub open spec fn on_wall_ring(w: int, h: int, x: int, y: int) -> bool {
    ((y == 3 || y == h - 4) && 3 <= x <= w - 4) || ((x == 3 || x == w - 4) && 3 <= y <= h - 4)
}

/// What walling one cell does: a road stays as a gate, everything else
/// becomes wall; features and the blocked flag stay.
pub open spec fn wall_applied(t0: LocationTile, t1: LocationTile) -> bool {
    &&& t1.feature == t0.feature
    &&& t1.blocked == t0.blocked
    &&& t1.tile_type == (if t0.tile_type == LocationTileType::HumanRoad {
        LocationTileType::HumanRoad
    } else {
        LocationTileType::Wall
    })
}

/// Whether the tile at `(x, y)` carries a road.
pub open spec fn road_at(m: LocationMap, x: int, y: int) -> bool {
    m.spec_tile(x, y).tile_type == LocationTileType::HumanRoad
}

/// Whether one of the eight neighbours of `(x, y)` carries a road.
pub open spec fn spec_adjacent_road(m: LocationMap, x: int, y: int) -> bool {
    exists|xi: int, yi: int|
        0 <= xi < m.width && 0 <= yi < m.height && !(xi == x && yi == y) && x - 1 <= xi <= x + 1
            && y - 1 <= yi <= y + 1 && #[trigger] road_at(m, xi, yi)
}

/// Whether `pos` lies within `spread` of the map center on each axis, up to
/// clamping at the map edge.
pub open spec fn near_center(pos: Position, m: LocationMap, spread: int) -> bool {
    &&& pos.x < m.width
    &&& pos.y < m.height
    &&& pos.x <= m.width as int / 2 + spread
    &&& pos.y <= m.height as int / 2 + spread
    &&& (m.width as int / 2 >= spread ==> m.width as int / 2 - spread <= pos.x)
    &&& (m.height as int / 2 >= spread ==> m.height as int / 2 - spread <= pos.y)
}

/// Whether some recorded point of interest lies within Chebyshev distance
/// `d` of `pos`.
pub open spec fn spec_near_feature(m: LocationMap, pos: Position, d: int) -> bool {
    exists|i: int|
        0 <= i < m.points_of_interest@.len() && {
            let p = (#[trigger] m.points_of_interest@[i]).position;
            crate::world::abs_int(pos.x - p.x) <= d && crate::world::abs_int(pos.y - p.y) <= d
        }
}

/// Wall one cell: roads are kept as gates.
fn wall_cell(map: &mut LocationMap, x: usize, y: usize)
    requires
        old(map).wf(),
        x < old(map).width,
        y < old(map).height,
    ensures
        final(map).wf(),
        old(map).pois_consistent() ==> final(map).pois_consistent(),
        same_frame(*old(map), *final(map)),
        final(map).points_of_interest == old(map).points_of_interest,
        wall_applied(
            old(map).spec_tile(x as int, y as int),
            final(map).spec_tile(x as int, y as int),
        ),
        forall|x0: int, y0: int|
            0 <= x0 < old(map).width && 0 <= y0 < old(map).height && !(x0 == x as int && y0
                == y as int) ==> #[trigger] final(map).spec_tile(x0, y0) == old(map).spec_tile(
                x0,
                y0,
            ),
{
    let t = get_tile_type(map, x, y);
    if !matches!(t, LocationTileType::HumanRoad) {
        set_tile_type(map, x, y, LocationTileType::Wall);
    }
}

/// Whether any of the eight neighbours of `(x, y)` carries a road.
fn is_adjacent_to_road(map: &LocationMap, x: usize, y: usize) -> (r: bool)
    requires
        map.wf(),
        1 <= x,
        x + 1 < map.width,
        1 <= y,
        y + 1 < map.height,
    ensures
        r == spec_adjacent_road(*map, x as int, y as int),
{
    if matches!(get_tile_type(map, x - 1, y), LocationTileType::HumanRoad) {
        proof {
            assert(road_at(*map, x as int - 1, y as int));
        }
        return true;
    }
    if matches!(get_tile_type(map, x + 1, y), LocationTileType::HumanRoad) {
        proof {
            assert(road_at(*map, x as int + 1, y as int));
        }
        return true;
    }
    if matches!(get_tile_type(map, x, y - 1), LocationTileType::HumanRoad) {
        proof {
            assert(road_at(*map, x as int, y as int - 1));
        }
        return true;
    }
    if matches!(get_tile_type(map, x, y + 1), LocationTileType::HumanRoad) {
        proof {
            assert(road_at(*map, x as int, y as int + 1));
        }
        return true;
    }
    if matches!(get_tile_type(map, x - 1, y - 1), LocationTileType::HumanRoad) {
        proof {
            assert(road_at(*map, x as int - 1, y as int - 1));
        }
        return true;
    }
    if matches!(get_tile_type(map, x + 1, y - 1), LocationTileType::HumanRoad) {
        proof {
            assert(road_at(*map, x as int + 1, y as int - 1));
        }
        return true;
    }
    if matches!(get_tile_type(map, x - 1, y + 1), LocationTileType::HumanRoad) {
        proof {
            assert(road_at(*map, x as int - 1, y as int + 1));
        }
        return true;
    }
    if matches!(get_tile_type(map, x + 1, y + 1), LocationTileType::HumanRoad) {
        proof {
            assert(road_at(*map, x as int + 1, y as int + 1));
        }
        return true;
    }
    proof {
        if spec_adjacent_road(*map, x as int, y as int) {
            let (xi, yi) = choose|xi: int, yi: int|
                0 <= xi < map.width && 0 <= yi < map.height && !(xi == x as int && yi == y as int)
                    && x - 1 <= xi <= x + 1 && y - 1 <= yi <= y + 1 && #[trigger] road_at(
                    *map,
                    xi,
                    yi,
                );
            assert(false);
        }
    }
    false
}

/// Whether some recorded point of interest lies within Chebyshev distance
/// `d` of `pos`.
fn is_near_feature(map: &LocationMap, pos: Position, d: usize) -> (r: bool)
    ensures
        r == spec_near_feature(*map, pos, d as int),
{
    let mut i: usize = 0;
    while i < map.points_of_interest.len()
        invariant
            0 <= i <= map.points_of_interest@.len(),
            forall|j: int|
                0 <= j < i ==> !{
                    let p = (#[trigger] map.points_of_interest@[j]).position;
                    crate::world::abs_int(pos.x - p.x) <= d && crate::world::abs_int(pos.y - p.y)
                        <= d
                },
        decreases map.points_of_interest@.len() - i,
    {
        let p = map.points_of_interest[i].position;
        let dx: usize = if pos.x >= p.x {
            pos.x - p.x
        } else {
            p.x - pos.x
        };
        let dy: usize = if pos.y >= p.y {
            pos.y - p.y
        } else {
            p.y - pos.y
        };
        if dx <= d && dy <= d {
            return true;
        }
        i = i + 1;
    }
    false
}

/// The value of a center coordinate displaced by the offset one draw picks
/// in `[-spread, spread]`, clamped to `[0, limit)`.
pub open spec fn spec_offset_clamped(center: int, spread: int, limit: int, word: u32) -> int {
    let v = center + word % ((2 * spread + 1) as u32) - spread;
    if v < 0 {
        0
    } else if v > limit - 1 {
        limit - 1
    } else {
        v
    }
}

/// A center coordinate displaced by a drawn offset in `[-spread, spread]`,
/// clamped to `[0, limit)`.
fn offset_clamped(rng: &mut SeededRng, center: usize, spread: u32, limit: usize) -> (r: usize)
    requires
        1 <= limit,
        center < limit,
        spread <= 3,
        limit <= 0x1000_0000,
    ensures
        final(rng).seed == old(rng).seed,
        final(rng).pos == next_pos(old(rng).pos),
        r < limit,
        r <= center + spread,
        center >= spread ==> center - spread <= r,
        r == spec_offset_clamped(
            center as int,
            spread as int,
            limit as int,
            stream_word(old(rng).seed, old(rng).pos),
        ),
{
    let d: u32 = rng.below(2 * spread + 1);
    let v: i64 = center as i64 + (d as i64) - (spread as i64);
    if v < 0 {
        0
    } else if v > limit as i64 - 1 {
        limit - 1
    } else {
        v as usize
    }
}

} // verus!
