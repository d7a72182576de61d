use wildlands::character::Character;
use wildlands::game::{Game, GamePhase};
use wildlands::location::{Governance, Industry, Location, LocationState, Species};
use wildlands::noise_field::{layered_milli, ridged_milli, sample_milli};
use wildlands::player::Player;
use wildlands::position::Position;
use wildlands::world::{TerrainType, Tile, World};

fn flat_world(width: usize, height: usize) -> World {
    let mut tiles = Vec::new();
    for _ in 0..width * height {
        tiles.push(Tile {
            height: 500,
            terrain: TerrainType::Plains,
            location: None,
            blocked: false,
            seen: false,
        });
    }
    World { seed: 31, width, height, wraparound: true, tiles }
}

fn human_town() -> Location {
    Location {
        name: "Settlement".to_string(),
        species: Species::Human,
        governance: Governance::Democracy,
        state: LocationState::Thriving,
        size: 80,
        industry: Industry::Trading,
    }
}

fn game_on(world: World, x: usize, y: usize) -> Game {
    Game {
        player: Player::new(Character::create_human("Riva".to_string()), x, y),
        world,
        view_radius: 10,
        phase: GamePhase::PlayingWorld,
        current_message: None,
    }
}

#[test]
fn entering_a_settlement_switches_phase_and_spawns_walkably() {
    let mut world = flat_world(12, 12);
    world.tiles[5 * 12 + 5].location = Some(human_town());
    let mut game = game_on(world, 5, 5);
    game.enter_location();
    match &game.phase {
        GamePhase::PlayingLocation(map) => {
            assert!(map.is_walkable(game.player.local_pos.x, game.player.local_pos.y));
        }
        _ => panic!("phase did not switch to the settlement interior"),
    }
    game.exit_location();
    assert!(matches!(game.phase, GamePhase::PlayingWorld));
}

#[test]
fn entering_empty_ground_changes_nothing() {
    let world = flat_world(8, 8);
    let mut game = game_on(world, 2, 2);
    game.enter_location();
    assert!(matches!(game.phase, GamePhase::PlayingWorld));
}

#[test]
fn interaction_messages_follow_the_settlement_state() {
    let mut world = flat_world(8, 8);
    world.tiles[3 * 8 + 3].location = Some(human_town());
    let mut game = game_on(world, 3, 3);
    game.handle_interaction();
    assert_eq!(
        game.current_message.as_deref(),
        Some("Entering the thriving settlement of Humans")
    );
    let mut cursed = human_town();
    cursed.state = LocationState::Cursed;
    cursed.size = 9;
    game.world.tiles[3 * 8 + 3].location = Some(cursed);
    game.handle_interaction();
    assert_eq!(game.current_message.as_deref(), Some("You attempt to cleanse this cursed place"));
    let mut ruins = human_town();
    ruins.state = LocationState::Ruins;
    ruins.size = 15;
    ruins.species = Species::Cat;
    game.world.tiles[3 * 8 + 3].location = Some(ruins);
    game.handle_interaction();
    assert_eq!(game.current_message.as_deref(), Some("Exploring the Cat ruins"));
}

#[test]
fn prompt_updates_with_the_tile_under_the_player() {
    let mut world = flat_world(8, 8);
    world.tiles[1 * 8 + 1].location = Some(human_town());
    let mut game = game_on(world, 1, 1);
    game.update_interaction_prompt();
    assert!(game.current_message.is_some());
    game.set_message("hello".to_string());
    assert_eq!(game.current_message.as_deref(), Some("hello"));
    game.clear_message();
    assert!(game.current_message.is_none());
}

#[test]
fn characters_track_their_counters() {
    let mut c = Character::create_human("Riva".to_string());
    assert_eq!(c.class, "Adventurer");
    assert_eq!(c.health, 100);
    c.damage(30);
    assert_eq!(c.health, 70);
    assert_eq!(c.xp, 2);
    c.heal(10);
    assert_eq!(c.health, 80);
    assert_eq!(c.xp, 3);
    assert_eq!(c.attack(), 10 + 5 / 2 + 3 / 10);
    assert_eq!(c.dodge(), 10 + 5 / 2 + 3 / 10);
}

#[test]
fn stats_line_prints_every_counter() {
    let mut c = Character::create_human("Riva".to_string());
    assert_eq!(c.stats(), "Adventurer hp: 100 attack: 10 dodge: 10 luck: 5 xp: 0");
    c.damage(130);
    assert_eq!(c.stats(), "Adventurer hp: -30 attack: 10 dodge: 10 luck: 5 xp: 2");
}

#[test]
fn random_characters_stay_in_their_ranges() {
    for _ in 0..20 {
        let c = Character::create_random();
        assert_eq!(c.name, "Player");
        assert!(c.health >= 80 && c.health < 120);
        assert_eq!(c.max_health, c.health);
        assert!(c.attack >= 8 && c.attack < 12);
        assert!(c.dodge >= 8 && c.dodge < 12);
        assert!(c.luck >= 1 && c.luck < 10);
        assert!(["Warrior", "Mage", "Rogue", "Cleric"].contains(&c.class.as_str()));
    }
    let p = Player::create_random(4, 6);
    assert_eq!(p.world_pos, Position { x: 4, y: 6 });
    assert_eq!(p.local_pos, Position { x: 0, y: 0 });
}

#[test]
fn players_enter_and_leave_interiors() {
    let mut p = Player::new(Character::create_human("Riva".to_string()), 3, 4);
    p.enter_location(7, 8);
    assert_eq!(p.local_pos, Position { x: 7, y: 8 });
    assert_eq!(p.world_pos, Position { x: 3, y: 4 });
    p.exit_location();
    assert_eq!(p.world_pos, Position { x: 3, y: 4 });
}

#[test]
fn noise_fields_are_deterministic_and_bounded() {
    for (x, y) in [(0usize, 0usize), (3, 5), (100, 200), (511, 511)] {
        let a = layered_milli(42, x, y, 10, 7, 10, 6);
        let b = layered_milli(42, x, y, 10, 7, 10, 6);
        assert_eq!(a, b);
        assert!(a <= 1000);
        let r = ridged_milli(46, x, y, 20, 6);
        assert_eq!(r, ridged_milli(46, x, y, 20, 6));
        assert!(r <= 1000);
        let s = sample_milli(42, (x as u64) * 10, (y as u64) * 10);
        assert!((-1000..=1000).contains(&s));
    }
    let mut distinct = false;
    for x in 0..200usize {
        if layered_milli(42, x, 0, 10, 7, 10, 6) != layered_milli(42, x + 1, 0, 10, 7, 10, 6) {
            distinct = true;
            break;
        }
    }
    assert!(distinct, "the layered field is constant along a row");
}
