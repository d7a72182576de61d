use wildlands::location::{Governance, Industry, Location, LocationState, Species};
use wildlands::location_generator::{isqrt, LocationGenerator};
use wildlands::rng::draw_below;
use wildlands::location_map::{
    FeatureType, LocationMap, LocationTile, LocationTileType,
};
use wildlands::position::Position;
use wildlands::world::TerrainType;

fn settlement(species: Species, state: LocationState, size: usize) -> Location {
    Location {
        name: "Settlement".to_string(),
        species,
        governance: Governance::Monarchy,
        state,
        size,
        industry: Industry::Farming,
    }
}

fn generate(seed: u64, terrain: TerrainType, loc: Location) -> LocationMap {
    let mut g = LocationGenerator::new(seed, terrain, loc);
    g.generate()
}

#[test]
fn thriving_human_settlement_has_walls_and_central_roads() {
    let map = generate(
        4242,
        TerrainType::Plains,
        settlement(Species::Human, LocationState::Thriving, 80),
    );
    let w = map.width;
    let h = map.height;
    assert_eq!(w, h);
    assert!(w >= 10 && w <= 22);
    for x in 0..w {
        assert_eq!(map.tiles[(h / 2) * w + x].tile_type, LocationTileType::HumanRoad);
    }
    for y in 0..h {
        assert_eq!(map.tiles[y * w + w / 2].tile_type, LocationTileType::HumanRoad);
    }
    let mut wall_count = 0usize;
    let mut ring_cells = Vec::new();
    for x in 3..=w - 4 {
        ring_cells.push((x, 3));
        ring_cells.push((x, h - 4));
    }
    for y in 3..=h - 4 {
        ring_cells.push((3, y));
        ring_cells.push((w - 4, y));
    }
    for (x, y) in ring_cells {
        let t = map.tiles[y * w + x].tile_type;
        assert!(
            t == LocationTileType::Wall || t == LocationTileType::HumanRoad,
            "ring cell ({}, {}) is neither wall nor gate",
            x,
            y
        );
        if t == LocationTileType::Wall {
            wall_count += 1;
        }
    }
    assert!(wall_count > 0, "no wall tiles on the ring");
}

#[test]
fn houses_stand_next_to_roads() {
    let map = generate(
        4242,
        TerrainType::Plains,
        settlement(Species::Human, LocationState::Thriving, 80),
    );
    let w = map.width as i64;
    let h = map.height as i64;
    let mut houses = 0usize;
    for y in 0..h {
        for x in 0..w {
            if map.tiles[(y * w + x) as usize].tile_type == LocationTileType::HumanHouse {
                houses += 1;
                let mut near = false;
                for dy in -1..=1i64 {
                    for dx in -1..=1i64 {
                        if dx == 0 && dy == 0 {
                            continue;
                        }
                        let nx = x + dx;
                        let ny = y + dy;
                        if nx >= 0 && nx < w && ny >= 0 && ny < h {
                            if map.tiles[(ny * w + nx) as usize].tile_type
                                == LocationTileType::HumanRoad
                            {
                                near = true;
                            }
                        }
                    }
                }
                assert!(near, "house at ({}, {}) is not beside a road", x, y);
            }
        }
    }
    assert!(houses > 0, "a thriving human settlement placed no houses");
}

#[test]
fn small_human_settlement_has_no_walls() {
    let map = generate(
        7,
        TerrainType::Plains,
        settlement(Species::Human, LocationState::Struggling, 40),
    );
    for tile in &map.tiles {
        assert_ne!(tile.tile_type, LocationTileType::Wall);
    }
}

#[test]
fn human_settlement_regenerates_identically() {
    let a = generate(99, TerrainType::Plains, settlement(Species::Human, LocationState::Thriving, 80));
    let b = generate(99, TerrainType::Plains, settlement(Species::Human, LocationState::Thriving, 80));
    assert_eq!(a, b);
}

#[test]
fn basic_settlement_regenerates_identically() {
    let a = generate(55, TerrainType::Desert, settlement(Species::Rat, LocationState::Cursed, 9));
    let b = generate(55, TerrainType::Desert, settlement(Species::Rat, LocationState::Cursed, 9));
    assert_eq!(a, b);
    assert_eq!(a.points_of_interest.len(), 3);
}

#[test]
fn central_market_is_recorded_first() {
    let map = generate(
        11,
        TerrainType::Plains,
        settlement(Species::Human, LocationState::Struggling, 35),
    );
    assert!(map.points_of_interest.len() >= 3);
    let market = &map.points_of_interest[0];
    assert_eq!(market.feature.feature_type, FeatureType::Market);
    assert_eq!(market.feature.name, "Town Market");
    assert_eq!(market.position, Position { x: map.width / 2, y: map.height / 2 });
    assert_eq!(map.points_of_interest[1].feature.feature_type, FeatureType::Temple);
    assert_eq!(map.points_of_interest[1].feature.name, "Sacred Temple");
    assert_eq!(map.points_of_interest[2].feature.feature_type, FeatureType::Tavern);
    assert_eq!(map.points_of_interest[2].feature.name, "The Wanderer's Rest");
}

#[test]
fn elf_settlement_uses_only_elf_tiles() {
    let map = generate(
        5,
        TerrainType::Forest,
        settlement(Species::Elf, LocationState::Sacred, 30),
    );
    for tile in &map.tiles {
        assert!(
            tile.tile_type == LocationTileType::Ground
                || tile.tile_type == LocationTileType::ElfPath
                || tile.tile_type == LocationTileType::ElfTreehouse
        );
    }
    for poi in &map.points_of_interest {
        assert!(
            poi.feature.feature_type == FeatureType::Garden
                || poi.feature.feature_type == FeatureType::Temple
        );
    }
    assert!(map
        .tiles
        .iter()
        .any(|t| t.tile_type == LocationTileType::ElfTreehouse));
    assert!(map.points_of_interest.len() >= 3);
    for i in 0..3 {
        assert_eq!(map.points_of_interest[i].feature.feature_type, FeatureType::Garden);
        assert_eq!(map.points_of_interest[i].feature.name, "Natural Garden");
    }
}

#[test]
fn other_species_get_the_basic_layout() {
    let map = generate(
        13,
        TerrainType::Desert,
        settlement(Species::Rat, LocationState::Cursed, 9),
    );
    let w = map.width;
    let h = map.height;
    for x in 0..w {
        assert_eq!(map.tiles[(h / 2) * w + x].tile_type, LocationTileType::HumanRoad);
    }
    for y in 0..h {
        assert_eq!(map.tiles[y * w + w / 2].tile_type, LocationTileType::HumanRoad);
    }
    for tile in &map.tiles {
        assert_ne!(tile.tile_type, LocationTileType::HumanHouse);
    }
}

#[test]
fn spawn_position_is_walkable() {
    for seed in [1u64, 2, 3, 50, 51] {
        let map = generate(
            seed,
            TerrainType::Plains,
            settlement(Species::Human, LocationState::Thriving, 90),
        );
        let spawn = map.find_spawn_position();
        assert!(map.is_walkable(spawn.x, spawn.y));
    }
}

#[test]
fn spawn_position_falls_back_on_an_unwalkable_map() {
    let mut tiles = Vec::new();
    for _ in 0..16 {
        tiles.push(LocationTile {
            blocked: true,
            tile_type: LocationTileType::Wall,
            feature: None,
        });
    }
    let map = LocationMap { width: 4, height: 4, tiles, points_of_interest: Vec::new() };
    assert_eq!(map.find_spawn_position(), Position { x: 1, y: 1 });
}

#[test]
fn walkability_blocks_walls_and_buildings_only() {
    let mut tiles = Vec::new();
    let kinds = [
        (LocationTileType::Ground, true),
        (LocationTileType::Wall, false),
        (LocationTileType::Water, true),
        (LocationTileType::HumanRoad, true),
        (LocationTileType::ElfPath, true),
        (LocationTileType::OrcTrail, true),
        (LocationTileType::HumanHouse, false),
        (LocationTileType::ElfTreehouse, false),
        (LocationTileType::OrcHut, false),
        (LocationTileType::Trading, true),
        (LocationTileType::Shrine, true),
        (LocationTileType::Ground, true),
    ];
    for (t, _) in kinds.iter() {
        tiles.push(LocationTile { blocked: false, tile_type: *t, feature: None });
    }
    let map = LocationMap { width: 4, height: 3, tiles, points_of_interest: Vec::new() };
    for (i, (_, walkable)) in kinds.iter().enumerate() {
        assert_eq!(map.is_walkable(i % 4, i / 4), *walkable);
    }
}

#[test]
fn local_movement_respects_walkability_and_edges() {
    let mut tiles = Vec::new();
    for i in 0..9 {
        tiles.push(LocationTile {
            blocked: false,
            tile_type: if i == 5 { LocationTileType::Wall } else { LocationTileType::Ground },
            feature: None,
        });
    }
    let map = LocationMap { width: 3, height: 3, tiles, points_of_interest: Vec::new() };
    let center = Position { x: 1, y: 1 };
    assert_eq!(map.try_move(&center, 0, -1), Some(Position { x: 1, y: 0 }));
    assert_eq!(map.try_move(&center, 1, 0), None);
    assert_eq!(map.try_move(&Position { x: 0, y: 0 }, -1, 0), None);
}

#[test]
fn map_size_scales_with_settlement_size() {
    for (state, size) in [
        (LocationState::Cursed, 5usize),
        (LocationState::Ruins, 20),
        (LocationState::Thriving, 99),
    ] {
        let map = generate(8, TerrainType::Plains, settlement(Species::Human, state, size));
        assert_eq!(map.width, map.height);
        assert!(map.width >= 10 && map.width <= 22);
        assert_eq!(map.width % 2, 0);
    }
}

#[test]
fn map_side_follows_size_and_first_draw() {
    for (seed, size, state) in [
        (3u64, 80usize, LocationState::Thriving),
        (9, 35, LocationState::Struggling),
        (21, 12, LocationState::Ruins),
    ] {
        let map = generate(seed, TerrainType::Plains, settlement(Species::Human, state, size));
        let var = draw_below(seed, 0, 5) as u64;
        let base = isqrt(size as u64) + var;
        let expected = if base >= 7 { 2 * (base - 2) } else { 10 } as usize;
        assert_eq!(map.width, expected);
        assert_eq!(map.height, expected);
    }
}

#[test]
fn central_features_sit_near_the_center() {
    let map = generate(
        17,
        TerrainType::Plains,
        settlement(Species::Human, LocationState::Sacred, 30),
    );
    let cx = map.width / 2;
    let cy = map.height / 2;
    let temple = &map.points_of_interest[1];
    assert!(temple.position.x.abs_diff(cx) <= 2 && temple.position.y.abs_diff(cy) <= 2);
    let tavern = &map.points_of_interest[2];
    assert!(tavern.position.x.abs_diff(cx) <= 3 && tavern.position.y.abs_diff(cy) <= 3);
    for poi in &map.points_of_interest {
        assert!(poi.position.x < map.width && poi.position.y < map.height);
        assert!(map.tiles[poi.position.y * map.width + poi.position.x].feature.is_some());
    }
}

#[test]
fn spawn_search_probes_rings_before_rastering() {
    let mut tiles = Vec::new();
    for _ in 0..49 {
        tiles.push(LocationTile {
            blocked: false,
            tile_type: LocationTileType::Wall,
            feature: None,
        });
    }
    let mut map = LocationMap { width: 7, height: 7, tiles, points_of_interest: Vec::new() };
    map.tiles[3 * 7 + 3].tile_type = LocationTileType::Ground;
    map.tiles[0].tile_type = LocationTileType::Ground;
    assert_eq!(map.find_spawn_position(), Position { x: 3, y: 3 });
    map.tiles[3 * 7 + 3].tile_type = LocationTileType::Wall;
    map.tiles[2 * 7 + 2].tile_type = LocationTileType::Ground;
    assert_eq!(map.find_spawn_position(), Position { x: 2, y: 2 });
    map.tiles[2 * 7 + 2].tile_type = LocationTileType::Wall;
    assert_eq!(map.find_spawn_position(), Position { x: 0, y: 0 });
}

#[test]
fn isqrt_matches_exact_squares_and_gaps() {
    assert_eq!(isqrt(0), 0);
    assert_eq!(isqrt(1), 1);
    assert_eq!(isqrt(3), 1);
    assert_eq!(isqrt(4), 2);
    assert_eq!(isqrt(80), 8);
    assert_eq!(isqrt(81), 9);
    assert_eq!(isqrt(99), 9);
    assert_eq!(isqrt(0xFFFF_FFFF), 65535);
}

#[test]
fn descriptions_name_every_part() {
    let loc = Location {
        name: "Settlement".to_string(),
        species: Species::Bear,
        governance: Governance::Hivemind,
        state: LocationState::Ruins,
        size: 12,
        industry: Industry::Mining,
    };
    assert_eq!(
        loc.generate_description(),
        "A ruined tiny settlement of Bears under Hivemind rule, where the sound of pickaxes echoes from deep mines."
    );
    assert_eq!(Industry::Fishing.get_description(), "fishing boats dot the nearby waters");
    assert_eq!(loc.size_description(), "tiny");
    let big = Location { size: 300, ..loc };
    assert_eq!(big.size_description(), "medium");
}
