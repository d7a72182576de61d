use vstd::prelude::*;
use crate::location::{
    size_in_band, spec_location_description, spec_species_name, spec_state_description, Location,
    LocationState,
};
use crate::location_generator::LocationGenerator;
use crate::location_map::LocationMap;
use crate::player::Player;
use crate::position::Position;
use crate::world::World;
use vstd::string::StringExecFns;

verus! {

/// What the game is currently showing.
pub enum GamePhase {
    Menu,
    PlayingWorld,
    PlayingLocation(LocationMap),
    GameOver,
}

/// The message shown when the player interacts with a settlement, by its
/// lifecycle state.
pub open spec fn spec_interaction_message(l: Location) -> Seq<char> {
    match l.state {
        LocationState::Thriving | LocationState::Struggling => "Entering the "@
            + spec_state_description(l.state) + " settlement of "@ + spec_species_name(l.species)
            + "s"@,
        LocationState::Abandoned | LocationState::Ruins => "Exploring the "@ + spec_species_name(
            l.species,
        ) + " ruins"@,
        LocationState::Sacred => "You pray at the sacred site of the "@ + spec_species_name(
            l.species,
        ),
        LocationState::Cursed => "You attempt to cleanse this cursed place"@,
        LocationState::Hidden => "You investigate the hidden location"@,
    }
}

/// The whole game state: the player, the world, and what is on screen.
pub struct Game {
    pub player: Player,
    pub world: World,
    pub view_radius: i32,
    pub phase: GamePhase,
    pub current_message: Option<String>,
}

impl Game {
    /// The game is well formed when the world is, the player stands on it,
    /// and every settlement on it satisfies the size-band invariant.
    pub open spec fn wf(&self) -> bool {
        &&& self.world.wf()
        &&& self.player.world_pos.x < self.world.width
        &&& self.player.world_pos.y < self.world.height
        &&& forall|x: int, y: int|
            0 <= x < self.world.width && 0 <= y < self.world.height ==> match (
            #[trigger] self.world.spec_tile(x, y)).location {
                Option::Some(l) => size_in_band(l.state, l.size as int),
                Option::None => true,
            }
    }

    /// Enter the settlement under the player, if there is one: expand it
    /// into an interior, spawn the player there, and switch the phase.
    pub fn enter_location(&mut self)
        requires
            old(self).wf(),
        ensures
            final(self).world == old(self).world,
            final(self).player.world_pos == old(self).player.world_pos,
            final(self).player.character == old(self).player.character,
            final(self).current_message == old(self).current_message,
            final(self).view_radius == old(self).view_radius,
            old(self).world.spec_tile(
                old(self).player.world_pos.x as int,
                old(self).player.world_pos.y as int,
            ).location is None ==> *final(self) == *old(self),
            old(self).world.spec_tile(
                old(self).player.world_pos.x as int,
                old(self).player.world_pos.y as int,
            ).location is Some ==> match final(self).phase {
                GamePhase::PlayingLocation(m) => {
                    &&& m.wf()
                    &&& (m.has_walkable() ==> m.spec_walkable(
                        final(self).player.local_pos.x as int,
                        final(self).player.local_pos.y as int,
                    ))
                    &&& (!m.has_walkable() ==> final(self).player.local_pos == (Position {
                        x: 1,
                        y: 1,
                    }))
                },
                _ => false,
            },
    {
        let pos = Position { x: self.player.world_pos.x, y: self.player.world_pos.y };
        let tile = self.world.get_tile(&pos);
        match &tile.location {
            Option::Some(location) => {
                let loc = Location {
                    name: location.name.clone(),
                    species: location.species,
                    governance: location.governance,
                    state: location.state,
                    size: location.size,
                    industry: location.industry,
                };
                let mut generator = LocationGenerator::new(self.world.seed, tile.terrain, loc);
                let location_map = generator.generate();
                let spawn_pos = location_map.find_spawn_position();
                self.player.enter_location(spawn_pos.x, spawn_pos.y);
                self.phase = GamePhase::PlayingLocation(location_map);
            },
            Option::None => {},
        }
    }

    /// Leave the interior and return to the world map.
    pub fn exit_location(&mut self)
        ensures
            final(self).player == old(self).player,
            final(self).world == old(self).world,
            final(self).current_message == old(self).current_message,
            final(self).view_radius == old(self).view_radius,
            final(self).phase is PlayingWorld,
    {
        self.player.exit_location();
        self.phase = GamePhase::PlayingWorld;
    }

    /// Show the description of the settlement under the player, or clear the
    /// message when there is none.
    pub fn update_interaction_prompt(&mut self)
        requires
            old(self).wf(),
        ensures
            final(self).player == old(self).player,
            final(self).world == old(self).world,
            final(self).view_radius == old(self).view_radius,
            match old(self).world.spec_tile(
                old(self).player.world_pos.x as int,
                old(self).player.world_pos.y as int,
            ).location {
                Option::Some(l) => final(self).current_message is Some && final(self).current_message.unwrap()@ == spec_location_description(l),
                Option::None => final(self).current_message is None,
            },
    {
        let pos = Position { x: self.player.world_pos.x, y: self.player.world_pos.y };
        let has_prompt: Option<String> = {
            let tile = self.world.get_tile(&pos);
            self.world.get_interaction_prompt(tile)
        };
        match has_prompt {
            Option::Some(prompt) => {
                self.current_message = Option::Some(prompt);
            },
            Option::None => {
                self.current_message = Option::None;
            },
        }
    }

    pub fn set_message(&mut self, message: String)
        ensures
            final(self).player == old(self).player,
            final(self).world == old(self).world,
            final(self).view_radius == old(self).view_radius,
            final(self).current_message is Some,
            final(self).current_message.unwrap()@ == message@,
    {
        self.current_message = Option::Some(message);
    }

    pub fn clear_message(&mut self)
        ensures
            final(self).player == old(self).player,
            final(self).world == old(self).world,
            final(self).view_radius == old(self).view_radius,
            final(self).current_message is None,
    {
        self.current_message = Option::None;
    }

    /// React to the player interacting with the tile under them: set the
    /// state-dependent message if a settlement is there.
    pub fn handle_interaction(&mut self)
        requires
            old(self).wf(),
        ensures
            final(self).player == old(self).player,
            final(self).world == old(self).world,
            final(self).view_radius == old(self).view_radius,
            match old(self).world.spec_tile(
                old(self).player.world_pos.x as int,
                old(self).player.world_pos.y as int,
            ).location {
                Option::Some(l) => final(self).current_message is Some && final(self).current_message.unwrap()@ == spec_interaction_message(l),
                Option::None => final(self).current_message == old(self).current_message,
            },
    {
        let pos = Position { x: self.player.world_pos.x, y: self.player.world_pos.y };
        let mut msg: Option<String> = Option::None;
        {
            let tile = self.world.get_tile(&pos);
            match &tile.location {
                Option::Some(location) => {
                    let ghost l = *location;
                    let state = location.state;
                    let species = location.species;
                    let message: String = match state {
                        LocationState::Thriving | LocationState::Struggling => {
                            let mut s: String = "Entering the ".to_owned();
                            s.append(state.description());
                            s.append(" settlement of ");
                            s.append(species.name());
                            s.append("s");
                            proof {
                                assert(s@ =~= spec_interaction_message(l));
                            }
                            s
                        },
                        LocationState::Abandoned | LocationState::Ruins => {
                            let mut s: String = "Exploring the ".to_owned();
                            s.append(species.name());
                            s.append(" ruins");
                            proof {
                                assert(s@ =~= spec_interaction_message(l));
                            }
                            s
                        },
                        LocationState::Sacred => {
                            let mut s: String = "You pray at the sacred site of the ".to_owned();
                            s.append(species.name());
                            proof {
                                assert(s@ =~= spec_interaction_message(l));
                            }
                            s
                        },
                        LocationState::Cursed => {
                            let s: String = "You attempt to cleanse this cursed place".to_owned();
                            s
                        },
                        LocationState::Hidden => {
                            let s: String = "You investigate the hidden location".to_owned();
                            s
                        },
                    };
                    msg = Option::Some(message);
                },
                Option::None => {},
            }
        }
        match msg {
            Option::Some(message) => {
                self.set_message(message);
            },
            Option::None => {},
        }
    }
}

} // verus!
