//! Players: what describes one, what one is made of, and where one starts.

pub mod player;
pub mod spawn_points;
pub mod thruster_block;

pub use player::{ControllablePlayer, PlayerBlueprint, PlayerBundle};

use vstd::prelude::*;
use crate::players::spawn_points::{spawn_point_systems, SpawnPointsPlugin};
use crate::schedule::App;

verus! {

/// The plugins of the players, as a group.
pub struct PlayerPlugins;

impl PlayerPlugins {
    /// Declares the systems of the group. Those of the spawn points are the
    /// library's own; movement and thrust are declared by whoever runs
    /// them.
    pub fn build(self, app: &mut App)
        requires
            old(app).wf(),
        ensures
            final(app).wf(),
            final(app)@ == old(app)@ + spawn_point_systems(),
    {
        SpawnPointsPlugin.build(app);
    }
}

} // verus!
