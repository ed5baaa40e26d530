//! Simulation core of a networked multiplayer game.
//!
//! An authority simulates the world tick by tick and sends its peers compact
//! descriptions of the objects in it, the blueprints. Each peer expands a
//! blueprint, once, into what it needs to show and to simulate the object:
//! this is hydration.
//!
//! - [`blocks`], [`players`]: the blueprints, and the bundles that are
//!   stamped from them.
//! - [`global`]: the labels of the phases, the stamping contract, and the
//!   asset cache that stamping works against.
//! - [`store`], [`world`]: entities, blueprint instances with the state of
//!   their lives, and the phase that hydrates them, parents before
//!   children.
//! - [`schedule`], [`tick`]: the systems of a tick, the check that their
//!   order is not ambiguous, and the order in which they run.
//! - [`wire`]: the shape in which blueprints are sent.
//! - [`laws`]: what holds of every run of hydration.
//! - [`math`], [`text`], [`components`], [`physics`], [`states`]: the values
//!   that all of this is made of.
//! - [`xtask`]: what the packaging tool works out.

use vstd::prelude::*;

pub mod blocks;
pub mod components;
pub mod global;
pub mod hydration;
pub mod laws;
pub mod math;
pub mod physics;
pub mod players;
pub mod schedule;
pub mod states;
pub mod store;
pub mod text;
pub mod tick;
pub mod wire;
pub mod world;
pub mod xtask;

use crate::hydration::{hydration_systems, CorePlugin};
use crate::players::spawn_points::spawn_point_systems;
use crate::players::PlayerPlugins;
use crate::schedule::{ambiguous, buildable, lemma_runs_after_chains, runs_after, well_ordered, App, SystemView};

verus! {

/// The systems of the library as the main plugin declares them into an
/// empty pipeline: those of the spawn points, then those of hydration.
pub open spec fn main_systems() -> Seq<SystemView> {
    spawn_point_systems() + hydration_systems(2)
}

/// Declares everything that the library runs in a tick.
pub struct MainPlugin;

impl MainPlugin {
    /// Declares the systems of the players' plugins and then those of
    /// hydration.
    pub fn build(&self, app: &mut App)
        requires
            old(app).wf(),
        ensures
            final(app).wf(),
            final(app)@ == old(app)@ + spawn_point_systems() + hydration_systems(
                old(app)@.len() as int + 2,
            ),
    {
        PlayerPlugins.build(app);
        CorePlugin.build(app);
    }
}

/// The systems of the library alone make a pipeline that can be built: the
/// only systems that share a phase are those of hydration, and they are
/// declared to run one after the other.
pub proof fn lemma_main_systems_build()
    ensures
        well_ordered(main_systems()),
        buildable(main_systems()),
{
    let systems = main_systems();
    assert(runs_after(systems, 3, 2)) by {
        assert(systems[3].after[0] == 2);
    }
    assert(runs_after(systems, 4, 3)) by {
        assert(systems[4].after[0] == 3);
    }
    assert(runs_after(systems, 5, 4)) by {
        assert(systems[5].after[0] == 4);
    }
    lemma_runs_after_chains(systems, 4, 3, 2);
    lemma_runs_after_chains(systems, 5, 4, 3);
    lemma_runs_after_chains(systems, 5, 4, 2);
}

} // verus!
