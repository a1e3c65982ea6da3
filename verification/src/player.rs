//! The player: where it stands (in q8 block coordinates) and the world it
//! stands in. Where it looks is kept by the front end, which turns it with
//! floating point.

use vstd::prelude::*;
use crate::world::World;

verus! {

pub struct Player {
    pub position_x: i32,
    pub position_y: i16,
    pub position_z: i32,
    pub world: World,
}

impl Player {
    /// A player standing at the world's spawn point.
    pub fn new(world: World) -> (player: Self)
        ensures
            (player.position_x, player.position_y, player.position_z) == world.spawn(),
            player.world == world,
    {
        let (position_x, position_y, position_z): (i32, i16, i32) = world.spawn_get();
        Self { position_x, position_y, position_z, world }
    }
}

} // verus!
