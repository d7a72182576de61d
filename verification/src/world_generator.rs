use vstd::prelude::*;
use vstd::arithmetic::div_mod::{
    lemma_div_is_ordered, lemma_div_multiples_vanish, lemma_div_pos_is_pos,
};
use crate::location::{Governance, Industry, Location, LocationState, Species, size_in_band};
use crate::noise_field::{
    layered_milli, layered_value, ridged_milli, ridged_value, sample_milli, spec_sample,
};
use crate::rng::{chacha_word, draw_below, stream_word, SeededRng};
use crate::world::{abs_int, lemma_grid_index, terrain_blocks, TerrainType, Tile, World};

verus! {

// The world generator derives every cell of the overworld from the input
// seed alone: elevation, temperature and moisture fields feed an ordered
// threshold classification, a ridged field carves rivers, and per-cell draws
// from the seeded stream place settlements. Each cell owns a fixed block of
// stream positions, so its draws are independent of every other cell's and
// the whole world is a pure function of (seed, width, height).

/// How many stream positions each cell owns for its settlement draws.
pub const CELL_STREAM_SPAN: u64 = 8;

/// The elevation field of the world seed: six octaves at a low base
/// frequency with persistence 7/10.
pub open spec fn spec_elevation(seed: u32, x: int, y: int) -> int {
    layered_value(seed as u64, x, y, 10, 7, 10, 6)
}

/// The moisture field: an independent layered field at a higher frequency
/// and fewer octaves, from the seed offset by 3.
pub open spec fn spec_moisture(seed: u32, x: int, y: int) -> int {
    layered_value((seed as u64 + 3) as u64, x, y, 30, 3, 4, 3)
}

/// The temperature field: a blend of four parts latitude (highest at the
/// equator row, falling toward both poles) and one part noise from the seed
/// offset by 2, in thousandths.
pub open spec fn spec_temperature(seed: u32, x: int, y: int, h: int) -> int {
    let lat = 1000 - abs_int(2000 * y / h - 1000);
    let n = spec_sample((seed as u64 + 2) as u64, (x * 100) as u64, (y * 100) as u64);
    (800 * lat + 100 * (n + 1000)) / 1000
}

/// Whether the ridged river field, from the seed offset by 4, exceeds the
/// carving threshold at this cell.
pub open spec fn spec_river(seed: u32, x: int, y: int) -> bool {
    ridged_value((seed as u64 + 4) as u64, x, y, 20, 6) > 600
}

/// The ordered threshold classification: height decides water and mountains
/// first, then cold takes precedence, then heat with dryness or wetness, and
/// finally moisture bands split the temperate zone.
pub open spec fn spec_biome(h: int, t: int, m: int) -> TerrainType {
    if h < 500 {
        TerrainType::Water
    } else if h > 780 {
        TerrainType::Mountains
    } else if t < 250 {
        TerrainType::Snow
    } else if t > 500 && m < 400 {
        TerrainType::Desert
    } else if t > 500 && m > 600 {
        TerrainType::Jungle
    } else if m < 400 {
        TerrainType::Plains
    } else if m < 600 {
        TerrainType::Forest
    } else {
        TerrainType::Swamp
    }
}

/// The terrain of a cell: a carved river forces water, otherwise the biome
/// classification of the three fields.
pub open spec fn spec_terrain(seed: u32, h: int, x: int, y: int) -> TerrainType {
    if spec_river(seed, x, y) {
        TerrainType::Water
    } else {
        spec_biome(
            spec_elevation(seed, x, y),
            spec_temperature(seed, x, y, h),
            spec_moisture(seed, x, y),
        )
    }
}

/// The first stream position of the block that cell `(x, y)` owns.
pub open spec fn cell_stream_base(w: int, x: int, y: int) -> u64 {
    (CELL_STREAM_SPAN * (y * w + x)) as u64
}

/// Whether the cell's settlement roll succeeds: an unblocked cell hosts a
/// settlement with a fixed chance of five in a hundred.
pub open spec fn spec_has_settlement(seed: u32, w: int, h: int, x: int, y: int) -> bool {
    &&& !terrain_blocks(spec_terrain(seed, h, x, y))
    &&& stream_word(seed as u64, cell_stream_base(w, x, y)) % 100 < 5
}

/// The species table, conditioned on terrain, decided by one coin.
pub open spec fn spec_species_for(terrain: TerrainType, coin: u32) -> Species {
    match terrain {
        TerrainType::Plains | TerrainType::Forest => if coin == 0 {
            Species::Human
        } else {
            Species::Elf
        },
        TerrainType::Mountains => if coin == 0 {
            Species::Bear
        } else {
            Species::Spirit
        },
        TerrainType::Desert => if coin == 0 {
            Species::Cat
        } else {
            Species::Rat
        },
        TerrainType::Jungle => Species::Bee,
        TerrainType::Snow => Species::Spirit,
        TerrainType::Swamp => Species::Rat,
        TerrainType::Water => Species::Human,
    }
}

/// The lifecycle state, from fixed cumulative percentage bands over
/// `[0, 100)`.
pub open spec fn spec_state_for(roll: u32) -> LocationState {
    if roll <= 10 {
        LocationState::Ruins
    } else if roll <= 20 {
        LocationState::Abandoned
    } else if roll <= 30 {
        LocationState::Cursed
    } else if roll <= 40 {
        LocationState::Hidden
    } else if roll <= 60 {
        LocationState::Struggling
    } else if roll <= 80 {
        LocationState::Sacred
    } else {
        LocationState::Thriving
    }
}

/// The size draw, from the band that the lifecycle state dictates.
pub open spec fn spec_size_for(state: LocationState, word: u32) -> int {
    match state {
        LocationState::Ruins | LocationState::Abandoned => 10 + word % 20,
        LocationState::Cursed | LocationState::Hidden => 5 + word % 10,
        LocationState::Struggling => 30 + word % 20,
        LocationState::Sacred => 20 + word % 20,
        LocationState::Thriving => 50 + word % 50,
    }
}

/// The governance draw: uniform over the six forms.
pub open spec fn spec_governance_for(roll: u32) -> Governance {
    if roll == 0 {
        Governance::Monarchy
    } else if roll == 1 {
        Governance::Democracy
    } else if roll == 2 {
        Governance::Theocracy
    } else if roll == 3 {
        Governance::Anarchy
    } else if roll == 4 {
        Governance::Hivemind
    } else {
        Governance::Council
    }
}

/// The industry table, conditioned on terrain, weighted by a roll out of ten.
pub open spec fn spec_industry_for(terrain: TerrainType, roll: u32) -> Industry {
    match terrain {
        TerrainType::Plains => if roll < 7 {
            Industry::Farming
        } else {
            Industry::Trading
        },
        TerrainType::Forest => if roll < 6 {
            Industry::Lumber
        } else {
            Industry::Hunting
        },
        TerrainType::Mountains => if roll < 8 {
            Industry::Mining
        } else {
            Industry::Crafting
        },
        TerrainType::Desert => if roll < 7 {
            Industry::Trading
        } else {
            Industry::Mining
        },
        TerrainType::Jungle => if roll < 6 {
            Industry::Hunting
        } else {
            Industry::Foraging
        },
        TerrainType::Snow => if roll < 7 {
            Industry::Hunting
        } else {
            Industry::Crafting
        },
        TerrainType::Swamp => if roll < 6 {
            Industry::Foraging
        } else {
            Industry::Fishing
        },
        TerrainType::Water => Industry::Trading,
    }
}

/// Whether `l` is exactly the settlement that the stream block starting at
/// `base` and the cell's terrain dictate.
pub open spec fn settlement_from(l: Location, seed: u32, base: int, terrain: TerrainType) -> bool {
    &&& l.name@ == "Settlement"@
    &&& l.species == spec_species_for(terrain, stream_word(seed as u64, (base + 1) as u64) % 2)
    &&& l.state == spec_state_for(stream_word(seed as u64, (base + 2) as u64) % 100)
    &&& l.size == spec_size_for(l.state, stream_word(seed as u64, (base + 3) as u64))
    &&& l.governance == spec_governance_for(stream_word(seed as u64, (base + 4) as u64) % 6)
    &&& l.industry == spec_industry_for(terrain, stream_word(seed as u64, (base + 5) as u64) % 10)
}

/// Whether tile `t` is exactly what the generator derives for cell `(x, y)`
/// of a `w` by `h` world of the given seed.
pub open spec fn tile_matches(t: Tile, seed: u32, w: int, h: int, x: int, y: int) -> bool {
    let terrain = spec_terrain(seed, h, x, y);
    &&& t.height == spec_elevation(seed, x, y)
    &&& t.terrain == terrain
    &&& t.blocked == terrain_blocks(terrain)
    &&& t.seen == false
    &&& match t.location {
        Option::Some(l) => spec_has_settlement(seed, w, h, x, y) && settlement_from(
            l,
            seed,
            cell_stream_base(w, x, y) as int,
            terrain,
        ),
        Option::None => !spec_has_settlement(seed, w, h, x, y),
    }
}

/// The world's displayed seed, drawn from the two stream positions after the
/// last cell block: deliberately not the input seed, so that the next stage
/// (the location generator) consumes a derived value while the terrain
/// depends on the constructor seed alone.
pub open spec fn spec_world_seed(seed: u32, w: int, h: int) -> u64 {
    let hi = stream_word(seed as u64, (CELL_STREAM_SPAN * (w * h)) as u64) as u64;
    let lo = stream_word(seed as u64, (CELL_STREAM_SPAN * (w * h) + 1) as u64) as u64;
    (hi << 32u64) ^ lo
}

/// Whether `wld` is exactly the world that the generator derives from
/// `(seed, width, height)`: the full functional description of generation.
pub open spec fn world_matches(wld: World, seed: u32, width: int, height: int) -> bool {
    &&& wld.wf()
    &&& wld.width == width
    &&& wld.height == height
    &&& wld.wraparound == true
    &&& wld.seed == spec_world_seed(seed, width, height)
    &&& forall|x: int, y: int|
        0 <= x < width && 0 <= y < height ==> #[trigger] tile_matches(
            wld.spec_tile(x, y),
            seed,
            width,
            height,
            x,
            y,
        )
}

/// The tile at cell `(x, y)` of a flat row-major buffer of width `w`.
pub open spec fn grid_tile(ts: Seq<Tile>, w: int, x: int, y: int) -> Tile {
    ts[y * w + x]
}

/// Whether the list of river mouths holds cell `(x, y)`.
pub open spec fn mouth_listed(ms: Seq<(usize, usize)>, x: int, y: int) -> bool {
    exists|i: int|
        0 <= i < ms.len() && (#[trigger] ms[i]).0 as int == x && ms[i].1 as int == y
}

/// The temperature field at a cell, in thousandths.
pub fn temperature_milli(seed: u32, x: usize, y: usize, h: usize) -> (r: u32)
    requires
        x <= 0x1000_0000,
        y < h,
        h <= 0x1000_0000,
    ensures
        r == spec_temperature(seed, x as int, y as int, h as int),
        r <= 1000,
{
    let lat_raw: u64 = (2000 * (y as u64)) / (h as u64);
    proof {
        lemma_div_pos_is_pos(2000 * (y as int), h as int);
        lemma_div_is_ordered(2000 * (y as int), 2000 * (h as int), h as int);
        lemma_div_multiples_vanish(2000, h as int);
        assert((h as int) * 2000 == 2000 * (h as int)) by (nonlinear_arith);
    }
    let diff: i64 = lat_raw as i64 - 1000;
    let adiff: i64 = if diff >= 0 {
        diff
    } else {
        -diff
    };
    let lat: i64 = 1000 - adiff;
    let n: i64 = sample_milli(seed as u64 + 2, (x as u64) * 100, (y as u64) * 100);
    let num: u64 = (800 * lat + 100 * (n + 1000)) as u64;
    let r64: u64 = num / 1000;
    proof {
        lemma_div_pos_is_pos(num as int, 1000);
        lemma_div_is_ordered(num as int, 1_000_000, 1000);
        lemma_div_multiples_vanish(1000, 1000);
    }
    r64 as u32
}

/// The ordered threshold classification, on field values in thousandths.
pub fn determine_biome(h: u32, t: u32, m: u32) -> (r: TerrainType)
    ensures
        r == spec_biome(h as int, t as int, m as int),
{
    if h < 500 {
        TerrainType::Water
    } else if h > 780 {
        TerrainType::Mountains
    } else if t < 250 {
        TerrainType::Snow
    } else if t > 500 && m < 400 {
        TerrainType::Desert
    } else if t > 500 && m > 600 {
        TerrainType::Jungle
    } else if m < 400 {
        TerrainType::Plains
    } else if m < 600 {
        TerrainType::Forest
    } else {
        TerrainType::Swamp
    }
}

/// The settlement that the stream block starting at `base` generates for a
/// cell of the given terrain.
fn generate_location_at(seed: u32, base: u64, terrain: TerrainType) -> (l: Location)
    requires
        base <= 0x8000_0000,
    ensures
        settlement_from(l, seed, base as int, terrain),
        l.wf(),
{
    let seed64: u64 = seed as u64;
    let coin: u32 = draw_below(seed64, base + 1, 2);
    let species: Species = match terrain {
        TerrainType::Plains | TerrainType::Forest => if coin == 0 {
            Species::Human
        } else {
            Species::Elf
        },
        TerrainType::Mountains => if coin == 0 {
            Species::Bear
        } else {
            Species::Spirit
        },
        TerrainType::Desert => if coin == 0 {
            Species::Cat
        } else {
            Species::Rat
        },
        TerrainType::Jungle => Species::Bee,
        TerrainType::Snow => Species::Spirit,
        TerrainType::Swamp => Species::Rat,
        TerrainType::Water => Species::Human,
    };
    let sroll: u32 = draw_below(seed64, base + 2, 100);
    let state: LocationState = if sroll <= 10 {
        LocationState::Ruins
    } else if sroll <= 20 {
        LocationState::Abandoned
    } else if sroll <= 30 {
        LocationState::Cursed
    } else if sroll <= 40 {
        LocationState::Hidden
    } else if sroll <= 60 {
        LocationState::Struggling
    } else if sroll <= 80 {
        LocationState::Sacred
    } else {
        LocationState::Thriving
    };
    let sword: u32 = chacha_word(seed64, base + 3);
    let size: usize = match state {
        LocationState::Ruins | LocationState::Abandoned => (10 + sword % 20) as usize,
        LocationState::Cursed | LocationState::Hidden => (5 + sword % 10) as usize,
        LocationState::Struggling => (30 + sword % 20) as usize,
        LocationState::Sacred => (20 + sword % 20) as usize,
        LocationState::Thriving => (50 + sword % 50) as usize,
    };
    let groll: u32 = draw_below(seed64, base + 4, 6);
    let governance: Governance = if groll == 0 {
        Governance::Monarchy
    } else if groll == 1 {
        Governance::Democracy
    } else if groll == 2 {
        Governance::Theocracy
    } else if groll == 3 {
        Governance::Anarchy
    } else if groll == 4 {
        Governance::Hivemind
    } else {
        Governance::Council
    };
    let iroll: u32 = draw_below(seed64, base + 5, 10);
    let industry: Industry = match terrain {
        TerrainType::Plains => if iroll < 7 {
            Industry::Farming
        } else {
            Industry::Trading
        },
        TerrainType::Forest => if iroll < 6 {
            Industry::Lumber
        } else {
            Industry::Hunting
        },
        TerrainType::Mountains => if iroll < 8 {
            Industry::Mining
        } else {
            Industry::Crafting
        },
        TerrainType::Desert => if iroll < 7 {
            Industry::Trading
        } else {
            Industry::Mining
        },
        TerrainType::Jungle => if iroll < 6 {
            Industry::Hunting
        } else {
            Industry::Foraging
        },
        TerrainType::Snow => if iroll < 7 {
            Industry::Hunting
        } else {
            Industry::Crafting
        },
        TerrainType::Swamp => if iroll < 6 {
            Industry::Foraging
        } else {
            Industry::Fishing
        },
        TerrainType::Water => Industry::Trading,
    };
    Location { name: "Settlement".to_owned(), species, governance, state, size, industry }
}

/// Derives a fully populated world from `(seed, width, height)`: terrain,
/// hydrology and settlement metadata, all pure functions of the seed.
pub struct WorldGenerator {
    pub seed: u32,
    pub width: usize,
    pub height: usize,
    pub river_mouths: Vec<(usize, usize)>,
}

impl WorldGenerator {
    /// The dimension bounds that generation supports.
    pub open spec fn dims_ok(&self) -> bool {
        &&& 1 <= self.width
        &&& 1 <= self.height
        &&& self.width * self.height <= 0x1000_0000
    }

    pub fn new(seed: u32, width: usize, height: usize) -> (g: WorldGenerator)
        requires
            1 <= width,
            1 <= height,
            width * height <= 0x1000_0000,
        ensures
            g.seed == seed,
            g.width == width,
            g.height == height,
            g.river_mouths@.len() == 0,
            g.dims_ok(),
    {
        WorldGenerator { seed, width, height, river_mouths: Vec::new() }
    }

    /// Produce the world of this generator's seed and dimensions, recording
    /// every river cell in `river_mouths`.
    pub fn generate(&mut self) -> (wld: World)
        requires
            old(self).dims_ok(),
        ensures
            final(self).seed == old(self).seed,
            final(self).width == old(self).width,
            final(self).height == old(self).height,
            world_matches(wld, old(self).seed, old(self).width as int, old(self).height as int),
            forall|i: int|
                0 <= i < final(self).river_mouths@.len() ==> {
                    let m = #[trigger] final(self).river_mouths@[i];
                    &&& m.0 < old(self).width
                    &&& m.1 < old(self).height
                    &&& spec_river(old(self).seed, m.0 as int, m.1 as int)
                },
            forall|x: int, y: int|
                0 <= x < old(self).width && 0 <= y < old(self).height && #[trigger] spec_river(
                    old(self).seed,
                    x,
                    y,
                ) ==> mouth_listed(final(self).river_mouths@, x, y),
    {
        let seed: u32 = self.seed;
        let width: usize = self.width;
        let height: usize = self.height;
        self.river_mouths = Vec::new();
        let mut tiles: Vec<Tile> = Vec::new();
        let mut y: usize = 0;
        proof {
            assert(width <= width * height && height <= width * height) by (nonlinear_arith)
                requires
                    1 <= width,
                    1 <= height,
            ;
        }
        while y < height
            invariant
                self.seed == seed,
                self.width == width,
                self.height == height,
                1 <= width,
                1 <= height,
                width * height <= 0x1000_0000,
                width <= 0x1000_0000,
                height <= 0x1000_0000,
                0 <= y <= height,
                tiles@.len() == y * width,
                forall|x0: int, y0: int|
                    0 <= x0 < width && 0 <= y0 < y ==> #[trigger] tile_matches(
                        grid_tile(tiles@, width as int, x0, y0),
                        seed,
                        width as int,
                        height as int,
                        x0,
                        y0,
                    ),
                forall|i: int|
                    0 <= i < self.river_mouths@.len() ==> {
                        let m = #[trigger] self.river_mouths@[i];
                        &&& m.0 < width
                        &&& m.1 < height
                        &&& spec_river(seed, m.0 as int, m.1 as int)
                    },
                forall|x0: int, y0: int|
                    0 <= x0 < width && 0 <= y0 < y && #[trigger] spec_river(seed, x0, y0)
                        ==> mouth_listed(self.river_mouths@, x0, y0),
            decreases height - y,
        {
            let mut x: usize = 0;
            proof {
                lemma_grid_index(0, y as int, width as int, height as int);
            }
            while x < width
                invariant
                    self.seed == seed,
                    self.width == width,
                    self.height == height,
                    1 <= width,
                    1 <= height,
                    width * height <= 0x1000_0000,
                    width <= 0x1000_0000,
                    height <= 0x1000_0000,
                    0 <= y < height,
                    0 <= x <= width,
                    tiles@.len() == y * width + x,
                    forall|x0: int, y0: int|
                        0 <= x0 < width && 0 <= y0 < height && (y0 < y || (y0 == y && x0 < x))
                            ==> #[trigger] tile_matches(
                            grid_tile(tiles@, width as int, x0, y0),
                            seed,
                            width as int,
                            height as int,
                            x0,
                            y0,
                        ),
                    forall|i: int|
                        0 <= i < self.river_mouths@.len() ==> {
                            let m = #[trigger] self.river_mouths@[i];
                            &&& m.0 < width
                            &&& m.1 < height
                            &&& spec_river(seed, m.0 as int, m.1 as int)
                        },
                    forall|x0: int, y0: int|
                        0 <= x0 < width && 0 <= y0 < height && (y0 < y || (y0 == y && x0 < x))
                            && #[trigger] spec_river(seed, x0, y0) ==> mouth_listed(
                            self.river_mouths@,
                            x0,
                            y0,
                        ),
                decreases width - x,
            {
                proof {
                    lemma_grid_index(x as int, y as int, width as int, height as int);
                }
                let elev: u32 = layered_milli(seed as u64, x, y, 10, 7, 10, 6);
                let temp: u32 = temperature_milli(seed, x, y, height);
                let moist: u32 = layered_milli((seed as u64) + 3, x, y, 30, 3, 4, 3);
                let ridge: u32 = ridged_milli((seed as u64) + 4, x, y, 20, 6);
                let is_river: bool = ridge > 600;
                let terrain: TerrainType = if is_river {
                    TerrainType::Water
                } else {
                    determine_biome(elev, temp, moist)
                };
                if is_river {
                    let ghost ms0 = self.river_mouths@;
                    self.river_mouths.push((x, y));
                    proof {
                        assert forall|x0: int, y0: int|
                            0 <= x0 < width && 0 <= y0 < height && (y0 < y || (y0 == y && x0 < x))
                                && #[trigger] spec_river(seed, x0, y0) implies mouth_listed(
                            self.river_mouths@,
                            x0,
                            y0,
                        ) by {
                            let i = choose|i: int|
                                0 <= i < ms0.len() && (#[trigger] ms0[i]).0 as int == x0
                                    && ms0[i].1 as int == y0;
                            assert(self.river_mouths@[i].0 as int == x0);
                        }
                        assert((self.river_mouths@[self.river_mouths@.len() - 1]).0 as int
                            == x as int);
                    }
                }
                let blocked: bool = match terrain {
                    TerrainType::Water | TerrainType::Mountains => true,
                    _ => false,
                };
                let idx: usize = y * width + x;
                let base: u64 = CELL_STREAM_SPAN * (idx as u64);
                let mut location: Option<Location> = Option::None;
                if !blocked {
                    let roll: u32 = draw_below(seed as u64, base, 100);
                    if roll < 5 {
                        location = Option::Some(generate_location_at(seed, base, terrain));
                    }
                }
                let ghost tiles0 = tiles@;
                tiles.push(Tile { height: elev, terrain, location, blocked, seen: false });
                proof {
                    let wi = width as int;
                    let hi = height as int;
                    let xi = x as int;
                    let yi = y as int;
                    assert(grid_tile(tiles@, wi, xi, yi) == tiles@[idx as int]);
                    assert(base == cell_stream_base(wi, xi, yi));
                    assert(tile_matches(tiles@[idx as int], seed, wi, hi, xi, yi));
                    assert forall|x0: int, y0: int|
                        0 <= x0 < width && 0 <= y0 < height && (y0 < y || (y0 == y && x0 < x + 1))
                            implies #[trigger] tile_matches(
                        grid_tile(tiles@, width as int, x0, y0),
                        seed,
                        width as int,
                        height as int,
                        x0,
                        y0,
                    ) by {
                        lemma_grid_index(x0, y0, width as int, height as int);
                        if !(y0 == y as int && x0 == x as int) {
                            assert(y0 * width + x0 < y as int * width + x as int) by (
                            nonlinear_arith)
                                requires
                                    0 <= x0 < width,
                                    0 <= y0,
                                    0 <= x < width,
                                    0 <= y,
                                    y0 < y || (y0 == y && x0 < x),
                            ;
                            assert(tile_matches(grid_tile(tiles0, width as int, x0, y0), seed,
                                width as int, height as int, x0, y0));
                            assert(grid_tile(tiles@, width as int, x0, y0) == grid_tile(tiles0,
                                width as int, x0, y0));
                        }
                    }
                }
                x = x + 1;
            }
            y = y + 1;
            proof {
                assert(y as int * width as int == (y as int - 1) * width as int + width as int) by (
                nonlinear_arith);
            }
        }
        let span: u64 = CELL_STREAM_SPAN * ((width as u64) * (height as u64));
        let hi: u32 = chacha_word(seed as u64, span);
        let lo: u32 = chacha_word(seed as u64, span + 1);
        let wseed: u64 = ((hi as u64) << 32u64) ^ (lo as u64);
        let wld = World { seed: wseed, width, height, wraparound: true, tiles };
        proof {
            assert(wld.tiles@.len() == width * height) by (nonlinear_arith)
                requires
                    wld.tiles@.len() == (height as int) * (width as int),
            ;
            assert forall|x: int, y: int| 0 <= x < width && 0 <= y < height implies
                #[trigger] tile_matches(wld.spec_tile(x, y), seed, width as int, height as int, x,
                y) by {
                assert(wld.spec_tile(x, y) == grid_tile(wld.tiles@, width as int, x, y));
                assert(tile_matches(grid_tile(wld.tiles@, width as int, x, y), seed, width as int,
                    height as int, x, y));
            }
        }
        wld
    }
}

/// The Chebyshev distance between two cells.
pub open spec fn chebyshev(a: (usize, usize), b: (usize, usize)) -> int {
    let dx = abs_int(a.0 - b.0);
    let dy = abs_int(a.1 - b.1);
    if dx >= dy {
        dx
    } else {
        dy
    }
}

/// The Chebyshev distance between two cells.
fn chebyshev_dist(a: (usize, usize), b: (usize, usize)) -> (d: usize)
    ensures
        d == chebyshev(a, b),
{
    let dx: usize = if a.0 >= b.0 {
        a.0 - b.0
    } else {
        b.0 - a.0
    };
    let dy: usize = if a.1 >= b.1 {
        a.1 - b.1
    } else {
        b.1 - a.1
    };
    if dx >= dy {
        dx
    } else {
        dy
    }
}

/// From a list of candidate source cells, keep a subset in which no two kept
/// cells lie within `min_dist` of each other (Chebyshev): every kept cell
/// comes from the input, and every input cell is either kept or lies within
/// `min_dist` of a kept one. The pool is shuffled first, so which subset
/// survives depends on the draw.
pub fn filter_sources_by_distance(
    rng: &mut SeededRng,
    all_sources: &Vec<(usize, usize)>,
    min_dist: usize,
) -> (chosen: Vec<(usize, usize)>)
    requires
        all_sources@.len() <= 0x1000_0000,
    ensures
        forall|i: int| 0 <= i < chosen@.len() ==> all_sources@.contains(#[trigger] chosen@[i]),
        forall|i: int, j: int|
            0 <= i < chosen@.len() && 0 <= j < chosen@.len() && i != j ==> chebyshev(
                #[trigger] chosen@[i],
                #[trigger] chosen@[j],
            ) >= min_dist,
        forall|i: int|
            0 <= i < all_sources@.len() ==> chosen@.contains(#[trigger] all_sources@[i]) || exists|
                j: int,
            |
                0 <= j < chosen@.len() && chebyshev(all_sources@[i], #[trigger] chosen@[j])
                    < min_dist,
{
    let n: usize = all_sources.len();
    let mut pool: Vec<(usize, usize)> = Vec::new();
    let mut i: usize = 0;
    while i < n
        invariant
            n == all_sources@.len(),
            0 <= i <= n,
            pool@.len() == i,
            forall|k: int| 0 <= k < i ==> #[trigger] pool@[k] == all_sources@[k],
        decreases n - i,
    {
        pool.push(all_sources[i]);
        i = i + 1;
    }
    proof {
        assert forall|m: int| 0 <= m < n implies all_sources@.contains(#[trigger] pool@[m]) by {
            assert(all_sources@[m] == pool@[m]);
        }
        assert forall|m: int| 0 <= m < n implies pool@.contains(#[trigger] all_sources@[m]) by {
            assert(pool@[m] == all_sources@[m]);
        }
    }
    let mut k: usize = n;
    while k > 1
        invariant
            n == all_sources@.len(),
            n <= 0x1000_0000,
            pool@.len() == n,
            0 <= k <= n,
            forall|m: int| 0 <= m < n ==> all_sources@.contains(#[trigger] pool@[m]),
            forall|m: int| 0 <= m < n ==> pool@.contains(#[trigger] all_sources@[m]),
        decreases k,
    {
        k = k - 1;
        let j: usize = rng.below((k + 1) as u32) as usize;
        let ghost pool0 = pool@;
        let a: (usize, usize) = pool[k];
        let b: (usize, usize) = pool[j];
        pool[k] = b;
        pool[j] = a;
        proof {
            assert forall|m: int| 0 <= m < n implies pool@.contains(
                #[trigger] all_sources@[m],
            ) by {
                let w = choose|w: int| 0 <= w < pool0.len() && pool0[w] == all_sources@[m];
                if w == k as int {
                    assert(pool@[j as int] == all_sources@[m]);
                } else if w == j as int {
                    assert(pool@[k as int] == all_sources@[m]);
                } else {
                    assert(pool@[w] == all_sources@[m]);
                }
            }
        }
    }
    let mut chosen: Vec<(usize, usize)> = Vec::new();
    let mut p: usize = 0;
    while p < n
        invariant
            n == all_sources@.len(),
            pool@.len() == n,
            0 <= p <= n,
            forall|m: int| 0 <= m < n ==> all_sources@.contains(#[trigger] pool@[m]),
            forall|m: int| 0 <= m < n ==> pool@.contains(#[trigger] all_sources@[m]),
            forall|i0: int|
                0 <= i0 < chosen@.len() ==> all_sources@.contains(#[trigger] chosen@[i0]),
            forall|i0: int, j0: int|
                0 <= i0 < chosen@.len() && 0 <= j0 < chosen@.len() && i0 != j0 ==> chebyshev(
                    #[trigger] chosen@[i0],
                    #[trigger] chosen@[j0],
                ) >= min_dist,
            forall|m: int|
                0 <= m < p ==> chosen@.contains(#[trigger] pool@[m]) || exists|j0: int|
                    0 <= j0 < chosen@.len() && chebyshev(pool@[m], #[trigger] chosen@[j0])
                        < min_dist,
        decreases n - p,
    {
        let cand: (usize, usize) = pool[p];
        let mut near: bool = false;
        let mut c: usize = 0;
        while c < chosen.len()
            invariant
                0 <= c <= chosen@.len(),
                near ==> exists|j0: int|
                    0 <= j0 < chosen@.len() && chebyshev(cand, #[trigger] chosen@[j0]) < min_dist,
                !near ==> forall|j0: int|
                    0 <= j0 < c ==> chebyshev(cand, #[trigger] chosen@[j0]) >= min_dist,
            decreases chosen@.len() - c,
        {
            let d: usize = chebyshev_dist(cand, chosen[c]);
            if d < min_dist {
                near = true;
            }
            c = c + 1;
        }
        if !near {
            let ghost chosen0 = chosen@;
            chosen.push(cand);
            proof {
                assert forall|i0: int, j0: int|
                    0 <= i0 < chosen@.len() && 0 <= j0 < chosen@.len() && i0 != j0 implies
                    chebyshev(#[trigger] chosen@[i0], #[trigger] chosen@[j0]) >= min_dist by {
                    if i0 == chosen0.len() {
                        assert(chebyshev(cand, chosen0[j0]) >= min_dist);
                        assert(chebyshev(chosen@[i0], chosen@[j0]) == chebyshev(
                            cand,
                            chosen0[j0],
                        ));
                    } else if j0 == chosen0.len() {
                        assert(chebyshev(cand, chosen0[i0]) >= min_dist);
                        assert(chebyshev(chosen@[i0], chosen@[j0]) == chebyshev(
                            chosen0[i0],
                            cand,
                        ));
                    }
                }
                assert(chosen@.contains(pool@[p as int])) by {
                    assert(chosen@[chosen0.len() as int] == pool@[p as int]);
                }
                assert forall|m: int| 0 <= m < p implies chosen@.contains(#[trigger] pool@[m])
                    || exists|j0: int|
                    0 <= j0 < chosen@.len() && chebyshev(pool@[m], #[trigger] chosen@[j0])
                        < min_dist by {
                    if chosen0.contains(pool@[m]) {
                        let w = choose|w: int| 0 <= w < chosen0.len() && chosen0[w] == pool@[m];
                        assert(chosen@[w] == pool@[m]);
                        assert(chosen@.contains(pool@[m]));
                    } else if exists|j0: int|
                        0 <= j0 < chosen0.len() && chebyshev(pool@[m], #[trigger] chosen0[j0])
                            < min_dist {
                        let j0 = choose|j0: int|
                            0 <= j0 < chosen0.len() && chebyshev(pool@[m], #[trigger] chosen0[j0])
                                < min_dist;
                        assert(chebyshev(pool@[m], chosen@[j0]) < min_dist);
                    }
                }
            }
        }
        p = p + 1;
    }
    proof {
        assert forall|i0: int| 0 <= i0 < all_sources@.len() implies chosen@.contains(
            #[trigger] all_sources@[i0],
        ) || exists|j0: int|
            0 <= j0 < chosen@.len() && chebyshev(all_sources@[i0], #[trigger] chosen@[j0])
                < min_dist by {
            let m = choose|m: int| 0 <= m < pool@.len() && pool@[m] == all_sources@[i0];
            assert(chosen@.contains(pool@[m]) || exists|j0: int|
                0 <= j0 < chosen@.len() && chebyshev(pool@[m], #[trigger] chosen@[j0]) < min_dist);
            assert(pool@[m] == all_sources@[i0]);
        }
    }
    chosen
}

/// The agreement on tiles that determinism promises: every generated field
/// equal, with settlement names compared by content.
pub open spec fn tile_equivalent(t1: Tile, t2: Tile) -> bool {
    &&& t1.height == t2.height
    &&& t1.terrain == t2.terrain
    &&& t1.blocked == t2.blocked
    &&& t1.seen == t2.seen
    &&& match (t1.location, t2.location) {
        (Option::Some(l1), Option::Some(l2)) => {
            &&& l1.name@ == l2.name@
            &&& l1.species == l2.species
            &&& l1.governance == l2.governance
            &&& l1.state == l2.state
            &&& l1.size == l2.size
            &&& l1.industry == l2.industry
        },
        (Option::None, Option::None) => true,
        _ => false,
    }
}

/// Generation is deterministic: two worlds built from the same seed and
/// dimensions agree on the derived seed, the dimensions, and — cell by cell —
/// on terrain, elevation, river carving, blocking and settlement metadata.
pub proof fn lemma_generation_deterministic(
    w1: World,
    w2: World,
    seed: u32,
    width: int,
    height: int,
)
    requires
        world_matches(w1, seed, width, height),
        world_matches(w2, seed, width, height),
    ensures
        w1.seed == w2.seed,
        w1.width == w2.width,
        w1.height == w2.height,
        forall|x: int, y: int|
            0 <= x < width && 0 <= y < height ==> tile_equivalent(
                #[trigger] w1.spec_tile(x, y),
                w2.spec_tile(x, y),
            ),
{
    assert forall|x: int, y: int| 0 <= x < width && 0 <= y < height implies tile_equivalent(
        #[trigger] w1.spec_tile(x, y),
        w2.spec_tile(x, y),
    ) by {
        assert(tile_matches(w1.spec_tile(x, y), seed, width, height, x, y));
        assert(tile_matches(w2.spec_tile(x, y), seed, width, height, x, y));
    }
}

/// The blocked flag is derived, never independently set: a generated tile is
/// blocked exactly when its terrain is water or mountains.
pub proof fn lemma_blocked_iff_water_or_mountains(
    wld: World,
    seed: u32,
    width: int,
    height: int,
    x: int,
    y: int,
)
    requires
        world_matches(wld, seed, width, height),
        0 <= x < width,
        0 <= y < height,
    ensures
        wld.spec_tile(x, y).blocked <==> (wld.spec_tile(x, y).terrain == TerrainType::Water
            || wld.spec_tile(x, y).terrain == TerrainType::Mountains),
{
    assert(tile_matches(wld.spec_tile(x, y), seed, width, height, x, y));
}

/// A generated settlement's size always falls within the band its lifecycle
/// state dictates.
pub proof fn lemma_settlement_size_in_band(
    wld: World,
    seed: u32,
    width: int,
    height: int,
    x: int,
    y: int,
)
    requires
        world_matches(wld, seed, width, height),
        0 <= x < width,
        0 <= y < height,
        wld.spec_tile(x, y).location is Some,
    ensures
        size_in_band(
            wld.spec_tile(x, y).location.unwrap().state,
            wld.spec_tile(x, y).location.unwrap().size as int,
        ),
{
    assert(tile_matches(wld.spec_tile(x, y), seed, width, height, x, y));
}

impl World {
    /// Build the world of `(seed, width, height)`: the generator run once,
    /// with its full functional description as the contract.
    pub fn new(seed: u32, width: usize, height: usize) -> (wld: World)
        requires
            1 <= width,
            1 <= height,
            width * height <= 0x1000_0000,
        ensures
            world_matches(wld, seed, width as int, height as int),
    {
        let mut generator = WorldGenerator::new(seed, width, height);
        generator.generate()
    }
}

} // verus!
