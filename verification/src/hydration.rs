//! The plugin that declares hydration.

use vstd::prelude::*;
use crate::schedule::{App, Data, Phase, System, SystemDescriptor, SystemView};

verus! {

/// The systems of hydration as they are declared when `base` systems were
/// declared before them. All four run in the phase that expands blueprints,
/// after the receive flush and before the send. Each writes the blueprints
/// and the bundles of its kind and the asset cache; the hydration of the
/// players also writes the entities, the parents and the blueprints of the
/// blocks, because it spawns the blocks. They run one after the other:
/// the players first, so that a block is never hydrated before the player
/// that owns it, then the structural blocks, the thrusters and the spawn
/// points.
pub open spec fn hydration_systems(base: int) -> Seq<SystemView> {
    seq![
        SystemView {
            system: System::HydratePlayers,
            phase: Phase::BlueprintExpansion,
            reads: Seq::empty(),
            writes: seq![
                Data::PlayerBlueprints,
                Data::Players,
                Data::Entities,
                Data::Parents,
                Data::StructureBlueprints,
                Data::ThrusterBlueprints,
                Data::AssetCache,
            ],
            after: Seq::empty(),
        },
        SystemView {
            system: System::HydrateStructureBlocks,
            phase: Phase::BlueprintExpansion,
            reads: Seq::empty(),
            writes: seq![Data::StructureBlueprints, Data::StructureBlocks, Data::AssetCache],
            after: seq![base],
        },
        SystemView {
            system: System::HydrateThrusterBlocks,
            phase: Phase::BlueprintExpansion,
            reads: Seq::empty(),
            writes: seq![Data::ThrusterBlueprints, Data::ThrusterBlocks, Data::AssetCache],
            after: seq![base + 1],
        },
        SystemView {
            system: System::HydrateSpawnPoints,
            phase: Phase::BlueprintExpansion,
            reads: Seq::empty(),
            writes: seq![Data::SpawnPointBlueprints, Data::SpawnPoints, Data::AssetCache],
            after: seq![base + 2],
        },
    ]
}

/// Declares hydration.
pub struct CorePlugin;

impl CorePlugin {
    /// Declares the four systems of hydration, each to run after the one
    /// before it.
    pub fn build(&self, app: &mut App)
        requires
            old(app).wf(),
        ensures
            final(app).wf(),
            final(app)@ == old(app)@ + hydration_systems(old(app)@.len() as int),
    {
        let players = SystemDescriptor::new(System::HydratePlayers, Phase::BlueprintExpansion).writing(
            Data::PlayerBlueprints,
        ).writing(Data::Players).writing(Data::Entities).writing(Data::Parents).writing(
            Data::StructureBlueprints,
        ).writing(Data::ThrusterBlueprints).writing(Data::AssetCache);
        assert(players@.writes =~= hydration_systems(0)[0].writes);
        let first = app.add(players);
        let structure = SystemDescriptor::new(
            System::HydrateStructureBlocks,
            Phase::BlueprintExpansion,
        ).writing(Data::StructureBlueprints).writing(Data::StructureBlocks).writing(
            Data::AssetCache,
        ).after(first);
        assert(structure@.writes =~= hydration_systems(0)[1].writes);
        let second = app.add(structure);
        let thrusters = SystemDescriptor::new(
            System::HydrateThrusterBlocks,
            Phase::BlueprintExpansion,
        ).writing(Data::ThrusterBlueprints).writing(Data::ThrusterBlocks).writing(
            Data::AssetCache,
        ).after(second);
        assert(thrusters@.writes =~= hydration_systems(0)[2].writes);
        let third = app.add(thrusters);
        let spawn_points = SystemDescriptor::new(
            System::HydrateSpawnPoints,
            Phase::BlueprintExpansion,
        ).writing(Data::SpawnPointBlueprints).writing(Data::SpawnPoints).writing(
            Data::AssetCache,
        ).after(third);
        assert(spawn_points@.writes =~= hydration_systems(0)[3].writes);
        app.add(spawn_points);
    }
}

} // verus!
