//! What holds of every run of the phase that expands blueprints.

use vstd::prelude::*;
use vstd::set_lib::lemma_int_range;
use crate::blocks::structure_block::{StructureBlock, StructureBlockBundle};
use crate::blocks::BlockBlueprintView;
use crate::global::assets::MMAView;
use crate::global::blueprints::FromBlueprint;
use crate::players::player::PlayerBundle;
use crate::math::Transform;
use crate::players::spawn_points::{created_with, lemma_spawn_point_by_occupant, SpawnPoint, SpawnPointBundle};
use crate::players::thruster_block::ThrusterBlockBundle;
use crate::store::{done, fresh, HydrationState, hydrate_upto, hydrated_at, lemma_hydrate_settled, lemma_hydrate_upto, lemma_hydrate_within, lemma_pending_below, unchanged_at};
use crate::wire::{lemma_round_trip, whole, Wire};
use crate::world::{expansion, WorldView};

verus! {

/// Whether each of `owners` is an entity of `world` that carries the
/// blueprint of a player.
pub open spec fn are_players(world: WorldView, owners: Seq<int>) -> bool {
    forall|i: int|
        0 <= i < owners.len() ==> 0 <= #[trigger] owners[i] < world.entities
            && world.players.blueprints.contains_key(owners[i])
}

/// Spawning the blocks of some players leaves what was there as it was: the
/// stores of players and spawn points, every bundle, every entity's parent
/// and blueprints. What is new stands behind the entities that were there,
/// and the parent of a new entity is one of those players.
#[verifier::rlimit(40)]
pub proof fn lemma_with_families(world: WorldView, owners: Seq<int>)
    requires
        world.wf(),
        are_players(world, owners),
    ensures
        ({
            let after = world.with_families(owners);
            &&& after.wf()
            &&& after.entities >= world.entities
            &&& after.created == world.created
            &&& after.players == world.players
            &&& after.spawn_points == world.spawn_points
            &&& after.structure_blocks.bundles == world.structure_blocks.bundles
            &&& after.thruster_blocks.bundles == world.thruster_blocks.bundles
            &&& forall|c: int|
                0 <= c < world.entities ==> {
                    &&& #[trigger] after.parents.contains_key(c) == world.parents.contains_key(c)
                    &&& world.parents.contains_key(c) ==> after.parents[c] == world.parents[c]
                }
            &&& forall|c: int|
                0 <= c < world.entities ==> #[trigger] unchanged_at(
                    world.structure_blocks,
                    after.structure_blocks,
                    c,
                )
            &&& forall|c: int|
                0 <= c < world.entities ==> #[trigger] unchanged_at(
                    world.thruster_blocks,
                    after.thruster_blocks,
                    c,
                )
            &&& forall|c: int|
                c >= world.entities && #[trigger] after.parents.contains_key(c) ==> owners.contains(
                    after.parents[c],
                )
        }),
    decreases owners.len(),
{
    if owners.len() > 0 {
        let shorter = owners.drop_last();
        let e = owners.last();
        let before = world.with_families(shorter);
        let after = world.with_families(owners);
        lemma_with_families(world, shorter);
        assert(after == before.with_family(e));
        assert forall|c: int| 0 <= c < world.entities implies #[trigger] unchanged_at(
            world.structure_blocks,
            after.structure_blocks,
            c,
        ) by {
            assert(unchanged_at(world.structure_blocks, before.structure_blocks, c));
        }
        assert forall|c: int| 0 <= c < world.entities implies #[trigger] unchanged_at(
            world.thruster_blocks,
            after.thruster_blocks,
            c,
        ) by {
            assert(unchanged_at(world.thruster_blocks, before.thruster_blocks, c));
        }
        assert forall|c: int|
            c >= world.entities && #[trigger] after.parents.contains_key(c) implies owners.contains(
            after.parents[c],
        ) by {
            if before.parents.contains_key(c) {
                let i = choose|i: int| 0 <= i < shorter.len() && shorter[i] == before.parents[c];
                assert(owners[i] == before.parents[c]);
            } else {
                assert(owners[owners.len() - 1] == e);
            }
        }
        assert forall|c: int| 0 <= c < world.entities implies {
            &&& #[trigger] after.parents.contains_key(c) == world.parents.contains_key(c)
            &&& world.parents.contains_key(c) ==> after.parents[c] == world.parents[c]
        } by {
            assert(before.parents.contains_key(c) == world.parents.contains_key(c));
        }
    }
}

/// Where the blocks of the player `owners[j]` stand once the blocks of all
/// of `owners` were spawned: behind everything that the players before it
/// brought, its structural blocks first and its thrusters behind them. They
/// are the only children that the player got, each carries its blueprint as
/// a new instance, and a thruster carries no blueprint of a structural
/// block.
#[verifier::rlimit(40)]
pub proof fn lemma_family_in_families(world: WorldView, owners: Seq<int>, j: int)
    requires
        world.wf(),
        are_players(world, owners),
        0 <= j < owners.len(),
        forall|a: int, b: int| 0 <= a < b < owners.len() ==> owners[a] != owners[b],
    ensures
        ({
            let after = world.with_families(owners);
            let e = owners[j];
            let blueprint = world.players.blueprints[e].blueprint;
            let base = world.with_families(owners.take(j)).entities as int;
            let middle = base + blueprint.structure_children.len();
            let end = middle + blueprint.thruster_children.len();
            &&& world.entities <= base
            &&& end <= after.entities
            &&& forall|c: int|
                #[trigger] after.is_child_of(c, e) <==> world.is_child_of(c, e) || base <= c < end
            &&& forall|c: int|
                base <= c < middle ==> #[trigger] after.structure_blocks.blueprints.contains_key(c)
                    && after.structure_blocks.blueprints[c] == fresh(
                    blueprint.structure_children[c - base],
                )
            &&& forall|c: int|
                middle <= c < end ==> !#[trigger] after.structure_blocks.blueprints.contains_key(c)
        }),
    decreases owners.len(),
{
    let shorter = owners.drop_last();
    let before = world.with_families(shorter);
    let after = world.with_families(owners);
    let e = owners[j];
    lemma_with_families(world, shorter);
    if j == owners.len() - 1 {
        assert forall|c: int|
            #[trigger] after.is_child_of(c, e) <==> world.is_child_of(c, e) || before.entities <= c < before.entities
                + world.players.blueprints[e].blueprint.structure_children.len()
                + world.players.blueprints[e].blueprint.thruster_children.len() by {
            if before.parents.contains_key(c) && before.parents[c] == e && c >= world.entities {
                // then `e` would be among the players before it
                let i = choose|i: int| 0 <= i < shorter.len() && shorter[i] == e;
                assert(owners[i] == owners[j]);
            }
        }
    } else {
        assert(owners.take(j) == shorter.take(j));
        lemma_family_in_families(world, shorter, j);
        let blueprint = world.players.blueprints[e].blueprint;
        let base = world.with_families(owners.take(j)).entities as int;
        let middle = base + blueprint.structure_children.len();
        let end = middle + blueprint.thruster_children.len();
        assert forall|c: int|
            #[trigger] after.is_child_of(c, e) <==> world.is_child_of(c, e) || base <= c < end by {
            assert(before.is_child_of(c, e) <==> world.is_child_of(c, e) || base <= c < end);
        }
    }
}

/// Expanding twice is expanding once. The first run leaves no instance
/// waiting, so the second finds nothing to do: it stamps nothing, spawns
/// nothing, and leaves the world and the cache as the first run left them.
#[verifier::rlimit(40)]
pub proof fn lemma_expansion_is_idempotent(world: WorldView, cache: MMAView)
    requires
        world.wf(),
    ensures
        ({
            let once = expansion(world, cache);
            expansion(once.0, once.1) == once
        }),
{
    let owners = world.players.pending_below(world.entities);
    let players = hydrate_upto::<PlayerBundle>(world.players, cache, world.entities);
    let hydrated = WorldView { players: players.0, ..world };
    let spawned = hydrated.with_families(owners);
    let structure = hydrate_upto::<StructureBlockBundle>(
        spawned.structure_blocks,
        players.1,
        spawned.entities,
    );
    let thrusters = hydrate_upto::<ThrusterBlockBundle>(
        spawned.thruster_blocks,
        structure.1,
        spawned.entities,
    );
    let spawn_points = hydrate_upto::<SpawnPointBundle>(
        spawned.spawn_points,
        thrusters.1,
        spawned.entities,
    );
    let once = expansion(world, cache);
    lemma_pending_below(world.players, world.entities);
    lemma_hydrate_upto::<PlayerBundle>(world.players, cache, world.entities);
    lemma_hydrate_within::<PlayerBundle>(world.players, cache, world.entities, world.entities);
    lemma_with_families(hydrated, owners);
    lemma_hydrate_upto::<StructureBlockBundle>(spawned.structure_blocks, players.1, spawned.entities);
    lemma_hydrate_upto::<ThrusterBlockBundle>(spawned.thruster_blocks, structure.1, spawned.entities);
    lemma_hydrate_upto::<SpawnPointBundle>(spawned.spawn_points, thrusters.1, spawned.entities);

    // The second run: no player waits, so none is hydrated and no block is spawned.
    lemma_pending_below(once.0.players, once.0.entities);
    lemma_hydrate_settled::<PlayerBundle>(once.0.players, once.1, once.0.entities);
    // Nor does a block or a spawn point wait.
    lemma_hydrate_settled::<StructureBlockBundle>(once.0.structure_blocks, once.1, once.0.entities);
    lemma_hydrate_settled::<ThrusterBlockBundle>(once.0.thruster_blocks, once.1, once.0.entities);
    lemma_hydrate_settled::<SpawnPointBundle>(once.0.spawn_points, once.1, once.0.entities);
}

/// After a run of the phase no instance waits: every blueprint that the
/// world holds is hydrated, those of the blocks that the run spawned among
/// them.
#[verifier::rlimit(40)]
pub proof fn lemma_expansion_settles(world: WorldView, cache: MMAView)
    requires
        world.wf(),
    ensures
        ({
            let after = expansion(world, cache).0;
            &&& after.wf()
            &&& forall|e: int| !after.players.is_pending(e)
            &&& forall|e: int| !after.structure_blocks.is_pending(e)
            &&& forall|e: int| !after.thruster_blocks.is_pending(e)
            &&& forall|e: int| !after.spawn_points.is_pending(e)
            &&& expansion(world, cache).1.extends(cache)
        }),
{
    let owners = world.players.pending_below(world.entities);
    let players = hydrate_upto::<PlayerBundle>(world.players, cache, world.entities);
    let hydrated = WorldView { players: players.0, ..world };
    let spawned = hydrated.with_families(owners);
    let structure = hydrate_upto::<StructureBlockBundle>(
        spawned.structure_blocks,
        players.1,
        spawned.entities,
    );
    let thrusters = hydrate_upto::<ThrusterBlockBundle>(
        spawned.thruster_blocks,
        structure.1,
        spawned.entities,
    );
    let spawn_points = hydrate_upto::<SpawnPointBundle>(
        spawned.spawn_points,
        thrusters.1,
        spawned.entities,
    );
    lemma_pending_below(world.players, world.entities);
    lemma_hydrate_upto::<PlayerBundle>(world.players, cache, world.entities);
    lemma_hydrate_within::<PlayerBundle>(world.players, cache, world.entities, world.entities);
    lemma_with_families(hydrated, owners);
    lemma_hydrate_upto::<StructureBlockBundle>(spawned.structure_blocks, players.1, spawned.entities);
    lemma_hydrate_upto::<ThrusterBlockBundle>(spawned.thruster_blocks, structure.1, spawned.entities);
    lemma_hydrate_upto::<SpawnPointBundle>(spawned.spawn_points, thrusters.1, spawned.entities);
    lemma_hydrate_within::<StructureBlockBundle>(
        spawned.structure_blocks,
        players.1,
        spawned.entities,
        spawned.entities,
    );
    lemma_hydrate_within::<ThrusterBlockBundle>(
        spawned.thruster_blocks,
        structure.1,
        spawned.entities,
        spawned.entities,
    );
    lemma_hydrate_within::<SpawnPointBundle>(
        spawned.spawn_points,
        thrusters.1,
        spawned.entities,
        spawned.entities,
    );
    spawn_points.1.lemma_extends_transitive(thrusters.1, structure.1);
    spawn_points.1.lemma_extends_transitive(structure.1, players.1);
    spawn_points.1.lemma_extends_transitive(players.1, cache);
}

/// The children of `e` that have the bundle of a structural block.
pub open spec fn structure_children_of(world: WorldView, e: int) -> Set<int> {
    Set::new(|c: int| world.is_child_of(c, e) && world.structure_blocks.bundles.contains_key(c))
}

/// Whether `c` is a child of `e` that was hydrated, on its own, from
/// `blueprint`: its instance is hydrated and its bundle is what stamping
/// the blueprint gives against some cache.
pub open spec fn is_structure_child(
    world: WorldView,
    c: int,
    e: int,
    blueprint: BlockBlueprintView<StructureBlock>,
) -> bool {
    &&& world.is_child_of(c, e)
    &&& world.structure_blocks.blueprints.contains_key(c)
    &&& world.structure_blocks.blueprints[c] == done(blueprint)
    &&& world.structure_blocks.bundles.contains_key(c)
    &&& exists|cache: MMAView| #[trigger]
        StructureBlockBundle::stamped(blueprint, cache) == world.structure_blocks.bundles[c]
}

/// Whether the children of `e` that have the bundle of a structural block
/// are the entities from `base` on, as many as `blueprints` is long, each
/// hydrated on its own from the blueprint at its place in the list.
pub open spec fn stand_in_a_row(
    world: WorldView,
    e: int,
    blueprints: Seq<BlockBlueprintView<StructureBlock>>,
    base: int,
) -> bool {
    &&& structure_children_of(world, e) == vstd::set_lib::set_int_range(
        base,
        base + blueprints.len(),
    )
    &&& forall|c: int|
        base <= c < base + blueprints.len() ==> #[trigger] world.parents.contains_key(c)
            && is_structure_child(world, c, e, blueprints[c - base])
}

/// A player and its blocks after one run of the phase. Let the entity `e`
/// carry the blueprint of a player that is not yet hydrated, with `k`
/// structural blocks, and let `e` have no children yet. Then after the run
/// `e` has the one bundle stamped from its blueprint, and it has exactly
/// `k` children with the bundle of a structural block: `k` entities in a
/// row that the run has spawned, the `i`-th of them hydrated on its own from
/// the `i`-th blueprint of the list.
#[verifier::rlimit(40)]
pub proof fn lemma_player_expands(world: WorldView, cache: MMAView, e: int)
    requires
        world.wf(),
        world.players.is_pending(e),
        forall|c: int| !world.is_child_of(c, e),
    ensures
        ({
            let after = expansion(world, cache).0;
            let blueprint = world.players.blueprints[e].blueprint;
            let k = blueprint.structure_children.len();
            &&& after.players.blueprints[e] == done(blueprint)
            &&& after.players.bundles.contains_key(e)
            &&& after.players.bundles[e] == PlayerBundle::stamped(blueprint, cache)
            &&& structure_children_of(after, e).finite()
            &&& structure_children_of(after, e).len() == k
            &&& exists|base: int|
                world.entities <= base && #[trigger] stand_in_a_row(
                    after,
                    e,
                    blueprint.structure_children,
                    base,
                )
        }),
{
    let owners = world.players.pending_below(world.entities);
    let players = hydrate_upto::<PlayerBundle>(world.players, cache, world.entities);
    let hydrated = WorldView { players: players.0, ..world };
    let spawned = hydrated.with_families(owners);
    let structure = hydrate_upto::<StructureBlockBundle>(
        spawned.structure_blocks,
        players.1,
        spawned.entities,
    );
    let after = expansion(world, cache).0;
    let blueprint = world.players.blueprints[e].blueprint;
    let k = blueprint.structure_children.len();

    // The player itself.
    lemma_pending_below(world.players, world.entities);
    lemma_hydrate_upto::<PlayerBundle>(world.players, cache, world.entities);
    lemma_hydrate_within::<PlayerBundle>(world.players, cache, world.entities, world.entities);
    assert(hydrated_at::<PlayerBundle>(
        world.players,
        hydrate_upto::<PlayerBundle>(world.players, cache, e as nat).1,
        players.0,
        e,
    ));

    // Its blocks among those of all the players that waited.
    assert(owners.contains(e));
    let j = choose|j: int| 0 <= j < owners.len() && owners[j] == e;
    lemma_with_families(hydrated, owners);
    lemma_family_in_families(hydrated, owners, j);
    let base = hydrated.with_families(owners.take(j)).entities as int;
    let middle = base + k;

    // The hydration of the structural blocks.
    lemma_hydrate_upto::<StructureBlockBundle>(spawned.structure_blocks, players.1, spawned.entities);
    assert forall|c: int| base <= c < base + k implies #[trigger] after.parents.contains_key(c)
        && is_structure_child(after, c, e, blueprint.structure_children[c - base]) by {
        assert(spawned.is_child_of(c, e));
        let at = hydrate_upto::<StructureBlockBundle>(
            spawned.structure_blocks,
            players.1,
            c as nat,
        ).1;
        assert(hydrated_at::<StructureBlockBundle>(spawned.structure_blocks, at, structure.0, c));
        assert(StructureBlockBundle::stamped(blueprint.structure_children[c - base], at)
            == after.structure_blocks.bundles[c]);
    }
    assert(structure_children_of(after, e) =~= vstd::set_lib::set_int_range(base, base + k)) by {
        assert forall|c: int| structure_children_of(after, e).contains(c) implies base <= c < base
            + k by {
            assert(!world.is_child_of(c, e));
            assert(spawned.is_child_of(c, e));
            if c >= middle {
                assert(unchanged_at(spawned.structure_blocks, structure.0, c));
            }
        }
    }
    lemma_int_range(base, base + k);
    assert(stand_in_a_row(after, e, blueprint.structure_children, base));
}

/// What went over the wire hydrates as what was sent. A blueprint that is
/// written and read back is the blueprint that was written; so it gives,
/// against the same cache, the same bundle, placement, mesh and material
/// and all, and leaves the same cache.
pub proof fn lemma_round_trip_hydrates<T: FromBlueprint>(
    blueprint: <T::Blueprint as View>::V,
    cache: MMAView,
) where T::Blueprint: Wire
    requires
        <T::Blueprint as Wire>::fits(blueprint),
    ensures
        ({
            let received = whole(
                <T::Blueprint as Wire>::read(<T::Blueprint as Wire>::words_of(blueprint)),
            );
            &&& received == Some(blueprint)
            &&& T::stamped(received->0, cache) == T::stamped(blueprint, cache)
            &&& T::cache_after(received->0, cache) == T::cache_after(blueprint, cache)
        }),
{
    lemma_round_trip::<T::Blueprint>(blueprint);
}

/// Hydration leaves a spawn point alone that is hydrated already: after a
/// run of the phase it is the bundle that it was, with whoever stood on it.
pub proof fn lemma_expansion_keeps_spawn_points(world: WorldView, cache: MMAView, e: int)
    requires
        world.wf(),
        world.spawn_points.bundles.contains_key(e),
        !world.spawn_points.is_pending(e),
    ensures
        expansion(world, cache).0.spawn_points.bundles.contains_key(e),
        expansion(world, cache).0.spawn_points.bundles[e] == world.spawn_points.bundles[e],
{
    let owners = world.players.pending_below(world.entities);
    let players = hydrate_upto::<PlayerBundle>(world.players, cache, world.entities);
    let hydrated = WorldView { players: players.0, ..world };
    let spawned = hydrated.with_families(owners);
    let structure = hydrate_upto::<StructureBlockBundle>(
        spawned.structure_blocks,
        players.1,
        spawned.entities,
    );
    let thrusters = hydrate_upto::<ThrusterBlockBundle>(
        spawned.thruster_blocks,
        structure.1,
        spawned.entities,
    );
    let spawn_points = hydrate_upto::<SpawnPointBundle>(
        spawned.spawn_points,
        thrusters.1,
        spawned.entities,
    );
    lemma_pending_below(world.players, world.entities);
    lemma_hydrate_upto::<PlayerBundle>(world.players, cache, world.entities);
    lemma_hydrate_within::<PlayerBundle>(world.players, cache, world.entities, world.entities);
    lemma_with_families(hydrated, owners);
    lemma_hydrate_upto::<SpawnPointBundle>(spawned.spawn_points, thrusters.1, spawned.entities);
    assert(unchanged_at(spawned.spawn_points, spawn_points.0, e));
}

/// Whether `e` is a hydrated spawn point at `at` with nobody on it.
pub open spec fn is_free_spawn_point(world: WorldView, e: int, at: Transform) -> bool {
    &&& world.spawn_points.bundles.contains_key(e)
    &&& world.spawn_points.blueprints.contains_key(e)
    &&& world.spawn_points.blueprints[e].state == HydrationState::Hydrated
    &&& world.spawn_points.bundles[e].pbr.transform == at
    &&& world.spawn_points.bundles[e].spawn_point.spec_get_id() is None
}

/// The spawn points of a new world. Let a world that was not set up be set
/// up with some placements and then run through the phase once. Then each
/// placement has its spawn point: an entity that the setup has spawned,
/// hydrated, standing at the placement, with nobody on it. And there are
/// no other new spawn points: an entity has the bundle of a spawn point
/// afterwards exactly if it had one before, or carried the blueprint of one
/// that waited, or is one of those that the setup has spawned.
#[verifier::rlimit(40)]
pub proof fn lemma_created_spawn_points(world: WorldView, cache: MMAView, at: Seq<Transform>)
    requires
        world.wf(),
        !world.created,
    ensures
        created_with(world, at).wf(),
        created_with(world, at).created,
        forall|e: int|
            world.entities <= e < world.entities + at.len() ==> #[trigger] is_free_spawn_point(
                expansion(created_with(world, at), cache).0,
                e,
                at[e - world.entities],
            ),
        forall|e: int| #[trigger]
            expansion(created_with(world, at), cache).0.spawn_points.bundles.contains_key(e)
                <==> world.spawn_points.bundles.contains_key(e) || world.spawn_points.is_pending(e)
                || world.entities <= e < world.entities + at.len(),
{
    let made = created_with(world, at);
    let owners = made.players.pending_below(made.entities);
    let players = hydrate_upto::<PlayerBundle>(made.players, cache, made.entities);
    let hydrated = WorldView { players: players.0, ..made };
    let spawned = hydrated.with_families(owners);
    let structure = hydrate_upto::<StructureBlockBundle>(
        spawned.structure_blocks,
        players.1,
        spawned.entities,
    );
    let thrusters = hydrate_upto::<ThrusterBlockBundle>(
        spawned.thruster_blocks,
        structure.1,
        spawned.entities,
    );
    let spawn_points = hydrate_upto::<SpawnPointBundle>(
        spawned.spawn_points,
        thrusters.1,
        spawned.entities,
    );
    let after = expansion(made, cache).0;
    lemma_pending_below(made.players, made.entities);
    lemma_hydrate_upto::<PlayerBundle>(made.players, cache, made.entities);
    lemma_hydrate_within::<PlayerBundle>(made.players, cache, made.entities, made.entities);
    assert(are_players(hydrated, owners));
    lemma_with_families(hydrated, owners);
    lemma_hydrate_upto::<SpawnPointBundle>(spawned.spawn_points, thrusters.1, spawned.entities);
    assert(after.spawn_points == spawn_points.0);
    assert(spawned.spawn_points == made.spawn_points);
    lemma_spawn_point_by_occupant(SpawnPoint::spec_new(None), SpawnPoint::spec_new(None));
    assert forall|e: int|
        world.entities <= e < world.entities + at.len() implies #[trigger] is_free_spawn_point(
        after,
        e,
        at[e - world.entities],
    ) by {
        assert(made.spawn_points.is_pending(e));
        assert(hydrated_at::<SpawnPointBundle>(
            made.spawn_points,
            hydrate_upto::<SpawnPointBundle>(made.spawn_points, thrusters.1, e as nat).1,
            spawn_points.0,
            e,
        ));
    }
    assert forall|e: int| #[trigger]
        after.spawn_points.bundles.contains_key(e) <==> world.spawn_points.bundles.contains_key(e)
            || world.spawn_points.is_pending(e) || world.entities <= e < world.entities
            + at.len() by {
        if 0 <= e < spawned.entities && made.spawn_points.is_pending(e) {
            assert(hydrated_at::<SpawnPointBundle>(
                made.spawn_points,
                hydrate_upto::<SpawnPointBundle>(made.spawn_points, thrusters.1, e as nat).1,
                spawn_points.0,
                e,
            ));
        } else {
            assert(unchanged_at(made.spawn_points, spawn_points.0, e));
        }
    }
}

} // verus!
