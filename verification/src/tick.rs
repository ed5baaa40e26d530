//! Running the systems of a tick: each of the library's systems by itself,
//! and all of them in the order of a pipeline. The systems of collaborators
//! are run by whoever drives the tick; here they are passed over.

use vstd::prelude::*;
use crate::global::assets::{MMAView, MMA};
use crate::global::GlobalSystemSet;
use crate::math::Transform;
use crate::physics::{Collisions, Contacts};
use crate::players::spawn_points::{created_with, is_own_spawn_contact, SpawnPointsPlugin};
use crate::schedule::{Pipeline, System, SystemView};
use crate::world::{players_expansion, spawn_point_expansion, structure_expansion, thruster_expansion, World, WorldView};

verus! {

/// What the systems of a tick work on, as contracts see it: the world, the
/// asset cache, and the contacts of the physics step.
pub struct TickView {
    pub world: WorldView,
    pub cache: MMAView,
    pub contacts: Seq<Contacts>,
}

/// What `system` makes of the state of a tick, given the placements `at`
/// of the spawn points. A system of a collaborator is not run here and
/// changes nothing.
pub open spec fn after_system(system: System, state: TickView, at: Seq<Transform>) -> TickView {
    match system {
        System::CreationSpawnPoints => TickView { world: created_with(state.world, at), ..state },
        System::FilterNonOccupiedCollisions => TickView {
            contacts: state.contacts.filter(
                |contacts: Contacts| !is_own_spawn_contact(state.world, contacts),
            ),
            ..state
        },
        System::HydratePlayers => {
            let after = players_expansion(state.world, state.cache);
            TickView { world: after.0, cache: after.1, ..state }
        },
        System::HydrateStructureBlocks => {
            let after = structure_expansion(state.world, state.cache);
            TickView { world: after.0, cache: after.1, ..state }
        },
        System::HydrateThrusterBlocks => {
            let after = thruster_expansion(state.world, state.cache);
            TickView { world: after.0, cache: after.1, ..state }
        },
        System::HydrateSpawnPoints => {
            let after = spawn_point_expansion(state.world, state.cache);
            TickView { world: after.0, cache: after.1, ..state }
        },
        System::External(_) => state,
    }
}

/// What the first `n` systems of `order` make of the state of a tick, one
/// after the other.
pub open spec fn after_systems(
    systems: Seq<SystemView>,
    order: Seq<int>,
    n: nat,
    state: TickView,
    at: Seq<Transform>,
) -> TickView
    decreases n,
{
    if n == 0 {
        state
    } else {
        after_system(
            systems[order[n - 1]].system,
            after_systems(systems, order, (n - 1) as nat, state, at),
            at,
        )
    }
}

/// What the systems of the global set `set` among the first `n` systems of
/// `order` make of the state of a tick, one after the other.
pub open spec fn after_set(
    systems: Seq<SystemView>,
    order: Seq<int>,
    set: GlobalSystemSet,
    n: nat,
    state: TickView,
    at: Seq<Transform>,
) -> TickView
    decreases n,
{
    if n == 0 {
        state
    } else {
        let before = after_set(systems, order, set, (n - 1) as nat, state, at);
        if systems[order[n - 1]].phase.spec_global() == Some(set) {
            after_system(systems[order[n - 1]].system, before, at)
        } else {
            before
        }
    }
}

/// Runs one system of the library. Returns whether it ran: a system of a
/// collaborator does not.
pub fn run_system(
    system: System,
    world: &mut World,
    mma: &mut MMA,
    collisions: &mut Collisions,
    at: &Vec<Transform>,
) -> (ran: bool)
    requires
        old(world).wf(),
    ensures
        final(world).wf(),
        ran == !(system is External),
        (TickView { world: final(world)@, cache: final(mma)@, contacts: final(collisions)@ })
            == after_system(
            system,
            TickView { world: old(world)@, cache: old(mma)@, contacts: old(collisions)@ },
            at@,
        ),
{
    match system {
        System::CreationSpawnPoints => {
            SpawnPointsPlugin::creation_spawn_points(world, at);
            true
        },
        System::FilterNonOccupiedCollisions => {
            SpawnPointsPlugin::filter_non_occupied_collisions(collisions, world);
            true
        },
        System::HydratePlayers => {
            world.hydrate_players(mma);
            true
        },
        System::HydrateStructureBlocks => {
            world.hydrate_structure_blocks(mma);
            true
        },
        System::HydrateThrusterBlocks => {
            world.hydrate_thruster_blocks(mma);
            true
        },
        System::HydrateSpawnPoints => {
            world.hydrate_spawn_points(mma);
            true
        },
        System::External(_) => false,
    }
}

/// Runs the library's systems of a pipeline, in the order in which a tick
/// runs them.
pub fn run_systems(
    pipeline: &Pipeline,
    world: &mut World,
    mma: &mut MMA,
    collisions: &mut Collisions,
    at: &Vec<Transform>,
)
    requires
        pipeline.wf(),
        old(world).wf(),
    ensures
        final(world).wf(),
        (TickView { world: final(world)@, cache: final(mma)@, contacts: final(collisions)@ })
            == after_systems(
            pipeline.systems(),
            pipeline.order(),
            pipeline.order().len(),
            TickView { world: old(world)@, cache: old(mma)@, contacts: old(collisions)@ },
            at@,
        ),
{
    let n = pipeline.len();
    let ghost start = TickView { world: world@, cache: mma@, contacts: collisions@ };
    let mut place: usize = 0;
    while place < n
        invariant
            place <= n,
            n == pipeline.systems().len(),
            n == pipeline.order().len(),
            pipeline.wf(),
            world.wf(),
            (TickView { world: world@, cache: mma@, contacts: collisions@ }) == after_systems(
                pipeline.systems(),
                pipeline.order(),
                place as nat,
                start,
                at@,
            ),
        decreases n - place,
    {
        match pipeline.system_at(place) {
            Some((_, system, _)) => {
                run_system(system, world, mma, collisions, at);
            },
            None => {},
        }
        place = place + 1;
    }
}

/// Runs the library's systems of one global set of a pipeline, in the
/// order in which a tick runs them.
pub fn run_set(
    pipeline: &Pipeline,
    set: GlobalSystemSet,
    world: &mut World,
    mma: &mut MMA,
    collisions: &mut Collisions,
    at: &Vec<Transform>,
)
    requires
        pipeline.wf(),
        old(world).wf(),
    ensures
        final(world).wf(),
        (TickView { world: final(world)@, cache: final(mma)@, contacts: final(collisions)@ })
            == after_set(
            pipeline.systems(),
            pipeline.order(),
            set,
            pipeline.order().len(),
            TickView { world: old(world)@, cache: old(mma)@, contacts: old(collisions)@ },
            at@,
        ),
{
    let n = pipeline.len();
    let ghost start = TickView { world: world@, cache: mma@, contacts: collisions@ };
    let mut place: usize = 0;
    while place < n
        invariant
            place <= n,
            n == pipeline.systems().len(),
            n == pipeline.order().len(),
            pipeline.wf(),
            world.wf(),
            (TickView { world: world@, cache: mma@, contacts: collisions@ }) == after_set(
                pipeline.systems(),
                pipeline.order(),
                set,
                place as nat,
                start,
                at@,
            ),
        decreases n - place,
    {
        match pipeline.system_at(place) {
            Some((_, system, phase)) => {
                match phase.global() {
                    Some(found) => {
                        if found == set {
                            run_system(system, world, mma, collisions, at);
                        }
                    },
                    None => {},
                }
            },
            None => {},
        }
        place = place + 1;
    }
}

} // verus!
