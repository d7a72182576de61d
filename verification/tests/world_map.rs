use wildlands::location::{
    Governance, Industry, Location, LocationState, Species,
};
use wildlands::position::Position;
use wildlands::world::{local_seed, TerrainType, Tile, World};

fn flat_world(width: usize, height: usize, wraparound: bool) -> World {
    let mut tiles = Vec::new();
    for _ in 0..width * height {
        tiles.push(Tile {
            height: 500,
            terrain: TerrainType::Plains,
            location: None,
            blocked: false,
            seen: false,
        });
    }
    World { seed: 1, width, height, wraparound, tiles }
}

fn sample_location(species: Species, state: LocationState, size: usize) -> Location {
    Location {
        name: "Settlement".to_string(),
        species,
        governance: Governance::Council,
        state,
        size,
        industry: Industry::Farming,
    }
}

#[test]
fn wrapped_coordinates_stay_in_range_and_are_idempotent() {
    let w = flat_world(10, 8, true);
    for (x, y) in [(0usize, 0usize), (9, 7), (10, 8), (25, 17), (1234, 999), (usize::MAX, 3)] {
        let p = w.get_wrapped_coordinates(&Position { x, y });
        assert!(p.x < 10 && p.y < 8);
        let q = w.get_wrapped_coordinates(&p);
        assert_eq!(p, q);
    }
    assert_eq!(w.get_wrapped_coordinates(&Position { x: 25, y: 17 }), Position { x: 5, y: 1 });
}

#[test]
fn clamped_coordinates_without_wraparound() {
    let w = flat_world(10, 8, false);
    assert_eq!(w.get_wrapped_coordinates(&Position { x: 25, y: 3 }), Position { x: 9, y: 3 });
    assert_eq!(w.get_wrapped_coordinates(&Position { x: 2, y: 99 }), Position { x: 2, y: 7 });
}

#[test]
fn fog_update_marks_the_circular_mask() {
    let mut w = flat_world(32, 32, true);
    w.update(&Position { x: 10, y: 10 });
    for y in 0..32i64 {
        for x in 0..32i64 {
            let dx = x - 10;
            let dy = y - 10;
            let d2 = dx * dx + dy * dy;
            let seen = w.tiles[(y as usize) * 32 + (x as usize)].seen;
            if d2 <= 16 {
                assert!(seen, "tile at squared distance {} not seen", d2);
            } else {
                assert!(!seen, "tile at squared distance {} wrongly seen", d2);
            }
        }
    }
}

#[test]
fn fog_update_wraps_around_the_torus() {
    let mut w = flat_world(16, 16, true);
    w.update(&Position { x: 0, y: 0 });
    assert!(w.tiles[0].seen);
    assert!(w.tiles[15].seen);
    assert!(w.tiles[15 * 16].seen);
    assert!(w.tiles[8 * 16 + 8].seen == false);
}

#[test]
fn fog_updates_accumulate() {
    let mut w = flat_world(32, 32, true);
    w.update(&Position { x: 5, y: 5 });
    w.update(&Position { x: 20, y: 20 });
    assert!(w.tiles[5 * 32 + 5].seen);
    assert!(w.tiles[20 * 32 + 20].seen);
}

#[test]
fn nearest_species_by_manhattan_distance() {
    let mut w = flat_world(20, 20, true);
    w.tiles[2 * 20 + 2].location = Some(sample_location(Species::Elf, LocationState::Thriving, 60));
    w.tiles[9 * 20 + 9].location = Some(sample_location(Species::Elf, LocationState::Thriving, 60));
    w.tiles[4 * 20 + 4].location = Some(sample_location(Species::Cat, LocationState::Sacred, 25));
    let near = w.find_nearest_species(&Position { x: 8, y: 8 }, Species::Elf);
    assert_eq!(near, Some(Position { x: 9, y: 9 }));
    let cat = w.find_nearest_species(&Position { x: 8, y: 8 }, Species::Cat);
    assert_eq!(cat, Some(Position { x: 4, y: 4 }));
    assert_eq!(w.find_nearest_species(&Position { x: 8, y: 8 }, Species::Bee), None);
}

#[test]
fn world_movement_respects_blocking_and_wrapping() {
    let mut w = flat_world(10, 10, true);
    w.tiles[5 * 10 + 6].blocked = true;
    let from = Position { x: 5, y: 5 };
    assert_eq!(w.try_move(&from, -1, 0), Some(Position { x: 4, y: 5 }));
    assert_eq!(w.try_move(&from, 1, 0), None);
    assert_eq!(w.try_move(&Position { x: 0, y: 0 }, -1, 0), Some(Position { x: 9, y: 0 }));
    let mut nw = flat_world(10, 10, false);
    nw.tiles[0].blocked = false;
    assert_eq!(nw.try_move(&Position { x: 0, y: 0 }, -1, 0), None);
}

#[test]
fn tile_appearance_shows_settlements_and_terrain() {
    let mut t = Tile {
        height: 500,
        terrain: TerrainType::Swamp,
        location: None,
        blocked: false,
        seen: false,
    };
    assert_eq!(t.appearance(), 's');
    t.terrain = TerrainType::Mountains;
    assert_eq!(t.appearance(), '^');
    t.location = Some(sample_location(Species::Human, LocationState::Thriving, 70));
    assert_eq!(t.appearance(), 'H');
    t.location = Some(sample_location(Species::Spirit, LocationState::Hidden, 7));
    assert_eq!(t.appearance(), 'G');
    t.location = Some(sample_location(Species::Bear, LocationState::Sacred, 25));
    assert_eq!(t.appearance(), '\u{01B1}');
}

#[test]
fn local_seed_mixes_coordinates_into_the_seed() {
    assert_eq!(local_seed(0, 0, 0), 0);
    assert_eq!(local_seed(0, 1, 2), (1u64 << 32) | 2);
    assert_eq!(local_seed(7, 1, 2), 7 ^ ((1u64 << 32) | 2));
    assert_ne!(local_seed(42, 3, 4), local_seed(42, 4, 3));
}

#[test]
fn interaction_prompt_describes_the_settlement() {
    let w = flat_world(4, 4, true);
    let mut tile = Tile {
        height: 500,
        terrain: TerrainType::Plains,
        location: None,
        blocked: false,
        seen: false,
    };
    assert_eq!(w.get_interaction_prompt(&tile), None);
    tile.location = Some(Location {
        name: "Settlement".to_string(),
        species: Species::Elf,
        governance: Governance::Theocracy,
        state: LocationState::Sacred,
        size: 25,
        industry: Industry::Research,
    });
    let prompt = w.get_interaction_prompt(&tile).unwrap();
    assert_eq!(
        prompt,
        "A sacred tiny settlement of Elfs under Theocratic rule, where scholars debate in marble halls."
    );
}
