use vstd::prelude::*;
use crate::character::{random_character_ok, Character};
use crate::position::Position;

verus! {

/// The player: a character and a position on the world map plus one inside
/// the active settlement interior.
pub struct Player {
    pub character: Character,
    pub world_pos: Position,
    pub local_pos: Position,
}

impl Player {
    pub fn new(character: Character, world_x: usize, world_y: usize) -> (p: Player)
        ensures
            p.character == character,
            p.world_pos == (Position { x: world_x, y: world_y }),
            p.local_pos == (Position { x: 0, y: 0 }),
    {
        Player {
            character,
            world_pos: Position { x: world_x, y: world_y },
            local_pos: Position { x: 0, y: 0 },
        }
    }

    /// A randomly rolled character standing at the given world position.
    pub fn create_random(world_x: usize, world_y: usize) -> (p: Player)
        ensures
            random_character_ok(p.character),
            p.world_pos == (Position { x: world_x, y: world_y }),
            p.local_pos == (Position { x: 0, y: 0 }),
    {
        Player::new(Character::create_random(), world_x, world_y)
    }

    /// Step into a settlement interior at its spawn point.
    pub fn enter_location(&mut self, spawn_x: usize, spawn_y: usize)
        ensures
            final(self).local_pos == (Position { x: spawn_x, y: spawn_y }),
            final(self).world_pos == old(self).world_pos,
            final(self).character == old(self).character,
    {
        self.local_pos = Position { x: spawn_x, y: spawn_y };
    }

    /// Step back out to the world map; the local position is set afresh on
    /// the next entry.
    pub fn exit_location(&mut self)
        ensures
            *final(self) == *old(self),
    {
    }
}

} // verus!
