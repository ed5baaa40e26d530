//! The world: entities, the links from children to their parents, and for
//! each kind of blueprint the store of its instances and bundles; and the
//! phase that expands blueprints.

use vstd::prelude::*;
use crate::blocks::structure_block::{StructureBlock, StructureBlockBundle};
use crate::blocks::{BlockBlueprint, BlockBlueprintView};
use crate::components::ClientId;
use crate::global::assets::{MMAView, MMA};
use crate::players::player::{PlayerBlueprint, PlayerBundle};
use crate::players::spawn_points::{SpawnPoint, SpawnPointBlueprint, SpawnPointBundle, SpawnPointBundleView};
use crate::players::thruster_block::{ThrusterBlock, ThrusterBlockBundle};
use crate::store::{fresh, hydrate_upto, lemma_hydrate_upto, lemma_hydrate_within, lemma_pending_below, Blueprints, BlueprintsView, Entity, ViewOfStore};

verus! {

/// A world as contracts see it.
pub struct WorldView {
    /// How many entities were spawned; they are numbered from zero.
    pub entities: nat,
    /// Whether the one-time setup of the world has run.
    pub created: bool,
    /// The parent of each entity that has one.
    pub parents: Map<int, int>,
    pub players: ViewOfStore<PlayerBundle>,
    pub structure_blocks: ViewOfStore<StructureBlockBundle>,
    pub thruster_blocks: ViewOfStore<ThrusterBlockBundle>,
    pub spawn_points: ViewOfStore<SpawnPointBundle>,
}

impl WorldView {
    /// The world without entities.
    pub open spec fn empty() -> WorldView {
        WorldView {
            entities: 0,
            created: false,
            parents: Map::empty(),
            players: BlueprintsView::empty(),
            structure_blocks: BlueprintsView::empty(),
            thruster_blocks: BlueprintsView::empty(),
            spawn_points: BlueprintsView::empty(),
        }
    }

    /// Whether everything that the world holds belongs to an entity that
    /// was spawned, and every parent is one.
    pub open spec fn wf(self) -> bool {
        &&& forall|c: int| #[trigger]
            self.parents.contains_key(c) ==> 0 <= c < self.entities && 0 <= self.parents[c]
                < self.entities
        &&& self.players.within(self.entities)
        &&& self.structure_blocks.within(self.entities)
        &&& self.thruster_blocks.within(self.entities)
        &&& self.spawn_points.within(self.entities)
    }

    /// Whether `c` is a child of `e`.
    pub open spec fn is_child_of(self, c: int, e: int) -> bool {
        self.parents.contains_key(c) && self.parents[c] == e
    }

    /// The world after new entities were spawned as children of `e`: one
    /// for each blueprint of `structure`, in order, and behind them one for
    /// each blueprint of `thrusters`, in order. Each carries its blueprint
    /// as a new instance.
    pub open spec fn with_children(
        self,
        e: int,
        structure: Seq<BlockBlueprintView<StructureBlock>>,
        thrusters: Seq<BlockBlueprintView<ThrusterBlock>>,
    ) -> WorldView {
        let base = self.entities as int;
        let middle = base + structure.len();
        let end = middle + thrusters.len();
        WorldView {
            entities: end as nat,
            parents: Map::new(
                |c: int| self.parents.contains_key(c) || base <= c < end,
                |c: int|
                    if base <= c < end {
                        e
                    } else {
                        self.parents[c]
                    },
            ),
            structure_blocks: BlueprintsView {
                blueprints: Map::new(
                    |c: int| self.structure_blocks.blueprints.contains_key(c) || base <= c < middle,
                    |c: int|
                        if base <= c < middle {
                            fresh(structure[c - base])
                        } else {
                            self.structure_blocks.blueprints[c]
                        },
                ),
                bundles: self.structure_blocks.bundles,
            },
            thruster_blocks: BlueprintsView {
                blueprints: Map::new(
                    |c: int| self.thruster_blocks.blueprints.contains_key(c) || middle <= c < end,
                    |c: int|
                        if middle <= c < end {
                            fresh(thrusters[c - middle])
                        } else {
                            self.thruster_blocks.blueprints[c]
                        },
                ),
                bundles: self.thruster_blocks.bundles,
            },
            ..self
        }
    }

    /// The world after the blocks of the player on `e` were spawned: its
    /// structural blocks first, then its thrusters, all children of `e`.
    pub open spec fn with_family(self, e: int) -> WorldView {
        let blueprint = self.players.blueprints[e].blueprint;
        self.with_children(e, blueprint.structure_children, blueprint.thruster_children)
    }

    /// The world after the blocks of each player of `owners` were spawned,
    /// one player after the other.
    pub open spec fn with_families(self, owners: Seq<int>) -> WorldView
        decreases owners.len(),
    {
        if owners.len() == 0 {
            self
        } else {
            self.with_families(owners.drop_last()).with_family(owners.last())
        }
    }
}

/// What the hydration of the players makes of a world and a cache. The
/// players that wait are hydrated in the order of their entities, and then
/// the blocks of each of them are spawned as its children.
pub open spec fn players_expansion(world: WorldView, cache: MMAView) -> (WorldView, MMAView) {
    let owners = world.players.pending_below(world.entities);
    let players = hydrate_upto::<PlayerBundle>(world.players, cache, world.entities);
    ((WorldView { players: players.0, ..world }).with_families(owners), players.1)
}

/// What the hydration of the structural blocks makes of a world and a
/// cache.
pub open spec fn structure_expansion(world: WorldView, cache: MMAView) -> (WorldView, MMAView) {
    let structure = hydrate_upto::<StructureBlockBundle>(
        world.structure_blocks,
        cache,
        world.entities,
    );
    (WorldView { structure_blocks: structure.0, ..world }, structure.1)
}

/// What the hydration of the thrusters makes of a world and a cache.
pub open spec fn thruster_expansion(world: WorldView, cache: MMAView) -> (WorldView, MMAView) {
    let thrusters = hydrate_upto::<ThrusterBlockBundle>(world.thruster_blocks, cache, world.entities);
    (WorldView { thruster_blocks: thrusters.0, ..world }, thrusters.1)
}

/// What the hydration of the spawn points makes of a world and a cache.
pub open spec fn spawn_point_expansion(world: WorldView, cache: MMAView) -> (WorldView, MMAView) {
    let spawn_points = hydrate_upto::<SpawnPointBundle>(world.spawn_points, cache, world.entities);
    (WorldView { spawn_points: spawn_points.0, ..world }, spawn_points.1)
}

/// What one run of the phase that expands blueprints makes of a world and a
/// cache. The parents come before the children: first the players are
/// hydrated and their blocks spawned, then the structural blocks are
/// hydrated, then the thrusters, then the spawn points, among them the
/// blocks that this run has spawned.
pub open spec fn expansion(world: WorldView, cache: MMAView) -> (WorldView, MMAView) {
    let players = players_expansion(world, cache);
    let structure = structure_expansion(players.0, players.1);
    let thrusters = thruster_expansion(structure.0, structure.1);
    spawn_point_expansion(thrusters.0, thrusters.1)
}

/// The world: its entities and what they carry.
pub struct World {
    parents: Vec<Option<usize>>,
    created: bool,
    players: Blueprints<PlayerBundle>,
    structure_blocks: Blueprints<StructureBlockBundle>,
    thruster_blocks: Blueprints<ThrusterBlockBundle>,
    spawn_points: Blueprints<SpawnPointBundle>,
}

impl View for World {
    type V = WorldView;

    closed spec fn view(&self) -> WorldView {
        WorldView {
            entities: self.parents@.len(),
            created: self.created,
            parents: Map::new(
                |c: int| 0 <= c < self.parents@.len() && self.parents@[c] is Some,
                |c: int| self.parents@[c]->0 as int,
            ),
            players: self.players@,
            structure_blocks: self.structure_blocks@,
            thruster_blocks: self.thruster_blocks@,
            spawn_points: self.spawn_points@,
        }
    }
}

impl World {
    /// Whether the world is as every world is that was made by `new` and
    /// changed through its methods.
    pub open spec fn wf(&self) -> bool {
        self@.wf()
    }

    /// The world without entities.
    pub fn new() -> (world: World)
        ensures
            world@ == WorldView::empty(),
            world.wf(),
    {
        let world = World {
            parents: Vec::new(),
            created: false,
            players: Blueprints::new(),
            structure_blocks: Blueprints::new(),
            thruster_blocks: Blueprints::new(),
            spawn_points: Blueprints::new(),
        };
        assert(world@.parents =~= Map::empty());
        world
    }

    /// How many entities the world has.
    pub fn entities(&self) -> (count: usize)
        ensures
            count == self@.entities,
    {
        self.parents.len()
    }

    /// Whether `e` is an entity of this world.
    pub fn contains(&self, e: Entity) -> (found: bool)
        ensures
            found == (e@ < self@.entities),
    {
        e.index() < self.parents.len()
    }

    /// Spawns an entity that carries nothing and has no parent.
    pub fn spawn(&mut self) -> (e: Entity)
        requires
            old(self).wf(),
        ensures
            e@ == old(self)@.entities,
            final(self)@ == (WorldView { entities: old(self)@.entities + 1, ..old(self)@ }),
            final(self).wf(),
    {
        let index = self.parents.len();
        self.parents.push(None);
        assert(self@.parents =~= old(self)@.parents);
        Entity::from_index(index)
    }

    /// The parent of `e`, if it has one.
    pub fn parent(&self, e: Entity) -> (parent: Option<Entity>)
        ensures
            parent is Some <==> self@.parents.contains_key(e@),
            parent is Some ==> parent->0@ == self@.parents[e@],
    {
        if e.index() < self.parents.len() {
            match self.parents[e.index()] {
                Some(p) => Some(Entity::from_index(p)),
                None => None,
            }
        } else {
            None
        }
    }

    /// Makes `child` a child of `parent`. Returns whether it did: both have
    /// to be entities of this world.
    pub fn set_parent(&mut self, child: Entity, parent: Entity) -> (done: bool)
        requires
            old(self).wf(),
        ensures
            done == (child@ < old(self)@.entities && parent@ < old(self)@.entities),
            done ==> final(self)@ == (WorldView {
                parents: old(self)@.parents.insert(child@, parent@),
                ..old(self)@
            }),
            !done ==> final(self)@ == old(self)@,
            final(self).wf(),
    {
        if child.index() < self.parents.len() && parent.index() < self.parents.len() {
            self.parents.set(child.index(), Some(parent.index()));
            assert(self@.parents =~= old(self)@.parents.insert(child@, parent@));
            true
        } else {
            false
        }
    }

    /// Whether the one-time setup of the world has run.
    pub fn is_created(&self) -> (created: bool)
        ensures
            created == self@.created,
    {
        self.created
    }

    /// Records that the one-time setup of the world has run.
    pub fn set_created(&mut self)
        ensures
            final(self)@ == (WorldView { created: true, ..old(self)@ }),
    {
        self.created = true;
    }

    /// The players' blueprints and bundles.
    pub fn players(&self) -> (store: &Blueprints<PlayerBundle>)
        ensures
            store@ == self@.players,
    {
        &self.players
    }

    /// The structural blocks' blueprints and bundles.
    pub fn structure_blocks(&self) -> (store: &Blueprints<StructureBlockBundle>)
        ensures
            store@ == self@.structure_blocks,
    {
        &self.structure_blocks
    }

    /// The thrusters' blueprints and bundles.
    pub fn thruster_blocks(&self) -> (store: &Blueprints<ThrusterBlockBundle>)
        ensures
            store@ == self@.thruster_blocks,
    {
        &self.thruster_blocks
    }

    /// The spawn points' blueprints and bundles.
    pub fn spawn_points(&self) -> (store: &Blueprints<SpawnPointBundle>)
        ensures
            store@ == self@.spawn_points,
    {
        &self.spawn_points
    }

    /// Attaches the blueprint of a player to `e`, as a new instance.
    /// Returns whether it did: `e` has to be an entity of this world.
    pub fn attach_player(&mut self, e: Entity, blueprint: PlayerBlueprint) -> (done: bool)
        requires
            old(self).wf(),
        ensures
            done == (e@ < old(self)@.entities),
            done ==> final(self)@ == (WorldView {
                players: BlueprintsView {
                    blueprints: old(self)@.players.blueprints.insert(e@, fresh(blueprint@)),
                    ..old(self)@.players
                },
                ..old(self)@
            }),
            !done ==> final(self)@ == old(self)@,
            final(self).wf(),
    {
        if e.index() < self.parents.len() {
            self.players.attach(e.index(), blueprint);
            true
        } else {
            false
        }
    }

    /// Attaches the blueprint of a structural block to `e`, as a new
    /// instance. Returns whether it did: `e` has to be an entity of this
    /// world.
    pub fn attach_structure_block(&mut self, e: Entity, blueprint: BlockBlueprint<StructureBlock>) -> (done:
        bool)
        requires
            old(self).wf(),
        ensures
            done == (e@ < old(self)@.entities),
            done ==> final(self)@ == (WorldView {
                structure_blocks: BlueprintsView {
                    blueprints: old(self)@.structure_blocks.blueprints.insert(e@, fresh(blueprint@)),
                    ..old(self)@.structure_blocks
                },
                ..old(self)@
            }),
            !done ==> final(self)@ == old(self)@,
            final(self).wf(),
    {
        if e.index() < self.parents.len() {
            self.structure_blocks.attach(e.index(), blueprint);
            true
        } else {
            false
        }
    }

    /// Attaches the blueprint of a thruster to `e`, as a new instance.
    /// Returns whether it did: `e` has to be an entity of this world.
    pub fn attach_thruster_block(&mut self, e: Entity, blueprint: BlockBlueprint<ThrusterBlock>) -> (done:
        bool)
        requires
            old(self).wf(),
        ensures
            done == (e@ < old(self)@.entities),
            done ==> final(self)@ == (WorldView {
                thruster_blocks: BlueprintsView {
                    blueprints: old(self)@.thruster_blocks.blueprints.insert(e@, fresh(blueprint@)),
                    ..old(self)@.thruster_blocks
                },
                ..old(self)@
            }),
            !done ==> final(self)@ == old(self)@,
            final(self).wf(),
    {
        if e.index() < self.parents.len() {
            self.thruster_blocks.attach(e.index(), blueprint);
            true
        } else {
            false
        }
    }

    /// Attaches the blueprint of a spawn point to `e`, as a new instance.
    /// Returns whether it did: `e` has to be an entity of this world.
    pub fn attach_spawn_point(&mut self, e: Entity, blueprint: SpawnPointBlueprint) -> (done: bool)
        requires
            old(self).wf(),
        ensures
            done == (e@ < old(self)@.entities),
            done ==> final(self)@ == (WorldView {
                spawn_points: BlueprintsView {
                    blueprints: old(self)@.spawn_points.blueprints.insert(e@, fresh(blueprint@)),
                    ..old(self)@.spawn_points
                },
                ..old(self)@
            }),
            !done ==> final(self)@ == old(self)@,
            final(self).wf(),
    {
        if e.index() < self.parents.len() {
            self.spawn_points.attach(e.index(), blueprint);
            true
        } else {
            false
        }
    }

    /// Detaches the blueprint of a player from `e` and returns it. The
    /// instance ends here; the bundle that it was hydrated into stays.
    pub fn detach_player(&mut self, e: Entity) -> (blueprint: Option<PlayerBlueprint>)
        requires
            old(self).wf(),
        ensures
            final(self)@ == (WorldView {
                players: BlueprintsView {
                    blueprints: old(self)@.players.blueprints.remove(e@),
                    ..old(self)@.players
                },
                ..old(self)@
            }),
            blueprint is Some <==> old(self)@.players.blueprints.contains_key(e@),
            blueprint is Some ==> blueprint->0@ == old(self)@.players.blueprints[e@].blueprint,
            final(self).wf(),
    {
        self.players.detach(e.index())
    }

    /// Detaches the blueprint of a structural block from `e` and returns
    /// it. The instance ends here; the bundle that it was hydrated into
    /// stays.
    pub fn detach_structure_block(&mut self, e: Entity) -> (blueprint: Option<BlockBlueprint<StructureBlock>>)
        requires
            old(self).wf(),
        ensures
            final(self)@ == (WorldView {
                structure_blocks: BlueprintsView {
                    blueprints: old(self)@.structure_blocks.blueprints.remove(e@),
                    ..old(self)@.structure_blocks
                },
                ..old(self)@
            }),
            blueprint is Some <==> old(self)@.structure_blocks.blueprints.contains_key(e@),
            blueprint is Some ==> blueprint->0@ == old(self)@.structure_blocks.blueprints[e@].blueprint,
            final(self).wf(),
    {
        self.structure_blocks.detach(e.index())
    }

    /// Detaches the blueprint of a thruster from `e` and returns it. The
    /// instance ends here; the bundle that it was hydrated into stays.
    pub fn detach_thruster_block(&mut self, e: Entity) -> (blueprint: Option<BlockBlueprint<ThrusterBlock>>)
        requires
            old(self).wf(),
        ensures
            final(self)@ == (WorldView {
                thruster_blocks: BlueprintsView {
                    blueprints: old(self)@.thruster_blocks.blueprints.remove(e@),
                    ..old(self)@.thruster_blocks
                },
                ..old(self)@
            }),
            blueprint is Some <==> old(self)@.thruster_blocks.blueprints.contains_key(e@),
            blueprint is Some ==> blueprint->0@ == old(self)@.thruster_blocks.blueprints[e@].blueprint,
            final(self).wf(),
    {
        self.thruster_blocks.detach(e.index())
    }

    /// Detaches the blueprint of a spawn point from `e` and returns it. The
    /// instance ends here; the bundle that it was hydrated into stays.
    pub fn detach_spawn_point(&mut self, e: Entity) -> (blueprint: Option<SpawnPointBlueprint>)
        requires
            old(self).wf(),
        ensures
            final(self)@ == (WorldView {
                spawn_points: BlueprintsView {
                    blueprints: old(self)@.spawn_points.blueprints.remove(e@),
                    ..old(self)@.spawn_points
                },
                ..old(self)@
            }),
            blueprint is Some <==> old(self)@.spawn_points.blueprints.contains_key(e@),
            blueprint is Some ==> blueprint->0@ == old(self)@.spawn_points.blueprints[e@].blueprint,
            final(self).wf(),
    {
        self.spawn_points.detach(e.index())
    }

    /// Puts `occupation` on the spawn point of `e`, in place of whoever
    /// stood there. Returns whether it did: `e` has to have the bundle of a
    /// spawn point. This is for the rules of the game; hydration never
    /// calls it.
    pub fn occupy_spawn_point(&mut self, e: Entity, occupation: Option<ClientId>) -> (done: bool)
        requires
            old(self).wf(),
        ensures
            done == old(self)@.spawn_points.bundles.contains_key(e@),
            done ==> final(self)@ == (WorldView {
                spawn_points: BlueprintsView {
                    bundles: old(self)@.spawn_points.bundles.insert(
                        e@,
                        SpawnPointBundleView {
                            spawn_point: SpawnPoint::spec_new(occupation),
                            ..old(self)@.spawn_points.bundles[e@]
                        },
                    ),
                    ..old(self)@.spawn_points
                },
                ..old(self)@
            }),
            !done ==> final(self)@ == old(self)@,
            final(self).wf(),
    {
        match self.spawn_points.take_bundle(e.index()) {
            Some(bundle) => {
                let mut bundle = bundle;
                bundle.spawn_point = SpawnPoint::new(occupation);
                self.spawn_points.set_bundle(e.index(), bundle);
                assert(self@.spawn_points.bundles =~= old(self)@.spawn_points.bundles.insert(
                    e@,
                    SpawnPointBundleView {
                        spawn_point: SpawnPoint::spec_new(occupation),
                        ..old(self)@.spawn_points.bundles[e@]
                    },
                ));
                true
            },
            None => {
                assert(self@.spawn_points.bundles =~= old(self)@.spawn_points.bundles);
                false
            },
        }
    }

    /// Spawns the blocks of the player on `e` as its children: an entity
    /// for each structural block, in the order of the blueprint, then one
    /// for each thruster. Each child carries its blueprint as a new
    /// instance, to be hydrated on its own.
    #[verifier::rlimit(40)]
    fn spawn_family(&mut self, e: usize)
        requires
            old(self).wf(),
            e < old(self)@.entities,
            old(self)@.players.blueprints.contains_key(e as int),
        ensures
            final(self)@ == old(self)@.with_family(e as int),
            final(self).wf(),
    {
        let blueprint = self.players.blueprint(e).unwrap();
        let ghost structure = blueprint@.structure_children;
        let ghost thrusters = blueprint@.thruster_children;
        let ghost none = Seq::<BlockBlueprintView<ThrusterBlock>>::empty();
        let mut i: usize = 0;
        assert(self@.with_children(e as int, structure.take(0), none).parents =~= self@.parents);
        assert(self@.with_children(e as int, structure.take(0), none).structure_blocks.blueprints
            =~= self@.structure_blocks.blueprints);
        assert(self@.with_children(e as int, structure.take(0), none).thruster_blocks.blueprints
            =~= self@.thruster_blocks.blueprints);
        while i < blueprint.structure_children.len()
            invariant
                i <= blueprint.structure_children.len(),
                structure == blueprint@.structure_children,
                none.len() == 0,
                e < old(self)@.entities,
                old(self).wf(),
                self@ == old(self)@.with_children(e as int, structure.take(i as int), none),
            decreases blueprint.structure_children.len() - i,
        {
            let child = blueprint.structure_children[i].clone();
            let c = self.parents.len();
            let ghost earlier = self@;
            self.parents.push(Some(e));
            self.structure_blocks.attach(c, child);
            proof {
                assert(self@.parents =~= earlier.parents.insert(c as int, e as int));
                let expected = old(self)@.with_children(
                    e as int,
                    structure.take(i as int + 1),
                    none,
                );
                assert(self@.parents =~= expected.parents);
                assert(self@.structure_blocks.blueprints =~= expected.structure_blocks.blueprints);
                assert(self@.thruster_blocks.blueprints =~= expected.thruster_blocks.blueprints);
            }
            i = i + 1;
        }
        assert(structure.take(i as int) == structure);
        let mut j: usize = 0;
        assert(thrusters.take(0) == none);
        while j < blueprint.thruster_children.len()
            invariant
                j <= blueprint.thruster_children.len(),
                thrusters == blueprint@.thruster_children,
                e < old(self)@.entities,
                old(self).wf(),
                self@ == old(self)@.with_children(e as int, structure, thrusters.take(j as int)),
            decreases blueprint.thruster_children.len() - j,
        {
            let child = blueprint.thruster_children[j].clone();
            let c = self.parents.len();
            let ghost earlier = self@;
            self.parents.push(Some(e));
            self.thruster_blocks.attach(c, child);
            proof {
                assert(self@.parents =~= earlier.parents.insert(c as int, e as int));
                let expected = old(self)@.with_children(
                    e as int,
                    structure,
                    thrusters.take(j as int + 1),
                );
                assert(self@.parents =~= expected.parents);
                assert(self@.thruster_blocks.blueprints =~= expected.thruster_blocks.blueprints);
            }
            j = j + 1;
        }
        assert(thrusters.take(j as int) == thrusters);
    }

    /// Hydrates the players that wait, in the order of their entities, and
    /// spawns the blocks of each of them as its children. A player that is
    /// hydrated already is left alone, and gets no blocks again.
    #[verifier::rlimit(40)]
    pub fn hydrate_players(&mut self, mma: &mut MMA)
        requires
            old(self).wf(),
        ensures
            (final(self)@, final(mma)@) == players_expansion(old(self)@, old(mma)@),
            final(self).wf(),
            final(mma)@.extends(old(mma)@),
    {
        let count = self.parents.len();
        let ghost before = self@;
        let ghost cache = mma@;
        proof {
            lemma_pending_below(before.players, count as nat);
            lemma_hydrate_upto::<PlayerBundle>(before.players, cache, count as nat);
            lemma_hydrate_within::<PlayerBundle>(before.players, cache, count as nat, count as nat);
        }
        let owners = self.players.hydrate(mma, count);
        let ghost hydrated = self@;
        let ghost listed = owners@.map_values(|e: usize| e as int);
        assert(hydrated.parents == before.parents);
        let mut j: usize = 0;
        while j < owners.len()
            invariant
                j <= owners.len(),
                hydrated.wf(),
                hydrated.players.blueprints.dom() == before.players.blueprints.dom(),
                listed == owners@.map_values(|e: usize| e as int),
                forall|i: int|
                    0 <= i < listed.len() ==> before.players.is_pending(#[trigger] listed[i])
                        && 0 <= listed[i] < hydrated.entities,
                self.wf(),
                self@ == hydrated.with_families(listed.take(j as int)),
                self@.players == hydrated.players,
                self@.entities >= hydrated.entities,
            decreases owners.len() - j,
        {
            assert(before.players.is_pending(listed[j as int]));
            self.spawn_family(owners[j]);
            proof {
                let longer = listed.take(j as int + 1);
                assert(longer.drop_last() == listed.take(j as int));
            }
            j = j + 1;
        }
        assert(listed.take(j as int) == listed);
    }

    /// Hydrates the structural blocks that wait, in the order of their
    /// entities.
    pub fn hydrate_structure_blocks(&mut self, mma: &mut MMA)
        requires
            old(self).wf(),
        ensures
            (final(self)@, final(mma)@) == structure_expansion(old(self)@, old(mma)@),
            final(self).wf(),
            final(mma)@.extends(old(mma)@),
    {
        let n = self.parents.len();
        proof {
            lemma_hydrate_within::<StructureBlockBundle>(
                self@.structure_blocks,
                mma@,
                n as nat,
                n as nat,
            );
        }
        self.structure_blocks.hydrate(mma, n);
        assert(self@.parents =~= old(self)@.parents);
    }

    /// Hydrates the thrusters that wait, in the order of their entities.
    pub fn hydrate_thruster_blocks(&mut self, mma: &mut MMA)
        requires
            old(self).wf(),
        ensures
            (final(self)@, final(mma)@) == thruster_expansion(old(self)@, old(mma)@),
            final(self).wf(),
            final(mma)@.extends(old(mma)@),
    {
        let n = self.parents.len();
        proof {
            lemma_hydrate_within::<ThrusterBlockBundle>(
                self@.thruster_blocks,
                mma@,
                n as nat,
                n as nat,
            );
        }
        self.thruster_blocks.hydrate(mma, n);
        assert(self@.parents =~= old(self)@.parents);
    }

    /// Hydrates the spawn points that wait, in the order of their entities.
    /// A spawn point that is hydrated already keeps whoever stands on it.
    pub fn hydrate_spawn_points(&mut self, mma: &mut MMA)
        requires
            old(self).wf(),
        ensures
            (final(self)@, final(mma)@) == spawn_point_expansion(old(self)@, old(mma)@),
            final(self).wf(),
            final(mma)@.extends(old(mma)@),
    {
        let n = self.parents.len();
        proof {
            lemma_hydrate_within::<SpawnPointBundle>(self@.spawn_points, mma@, n as nat, n as nat);
        }
        self.spawn_points.hydrate(mma, n);
        assert(self@.parents =~= old(self)@.parents);
    }

    /// Runs the phase that expands blueprints, once. Every instance that is
    /// not yet hydrated is hydrated, the parents before the children: the
    /// players first, whose blocks are spawned as their children, then the
    /// structural blocks, the thrusters and the spawn points. An instance
    /// that is hydrated already is left alone, so a second run right after
    /// the first changes nothing.
    pub fn blueprint_expansion(&mut self, mma: &mut MMA)
        requires
            old(self).wf(),
        ensures
            (final(self)@, final(mma)@) == expansion(old(self)@, old(mma)@),
            final(self).wf(),
            final(mma)@.extends(old(mma)@),
    {
        let ghost cache = mma@;
        self.hydrate_players(mma);
        let ghost after_players = mma@;
        self.hydrate_structure_blocks(mma);
        let ghost after_structure = mma@;
        self.hydrate_thruster_blocks(mma);
        let ghost after_thrusters = mma@;
        self.hydrate_spawn_points(mma);
        proof {
            mma@.lemma_extends_transitive(after_thrusters, after_structure);
            mma@.lemma_extends_transitive(after_structure, after_players);
            mma@.lemma_extends_transitive(after_players, cache);
        }
    }
}

} // verus!
