//! Spawn points: the places at which players enter the world.

use vstd::prelude::*;
use vstd::string::StringExecFns;
use crate::components::{AsyncCollider, ClientId, ComputedCollider, Name, PbrBundle, RigidBody};
use crate::global::assets::{interned, lemma_interned, position, Handle, MMAView, Mesh, StandardMaterial, DEFAULT_SECTORS, DEFAULT_STACKS, MMA};
use crate::global::blueprints::FromBlueprint;
use crate::math::{Color, Transform};
use crate::physics::{Collisions, Contacts, PhysicsSet};
use crate::schedule::{App, Data, Phase, System, SystemDescriptor, SystemView};
use crate::store::{fresh, BlueprintsView, Entity};
use crate::world::{World, WorldView};

verus! {

/// The scalar `3.0`, the radius of a spawn point that names none.
pub const DEFAULT_SIZE: u32 = 0x4040_0000;

/// The scalar `0.7`: how much light a spawn point lets through, and how
/// thick it is taken to be.
pub const SEVEN_TENTHS: u32 = 0x3F33_3333;

/// The scalar `1.33`, the index of refraction of a spawn point.
pub const SPAWN_POINT_IOR: u32 = 0x3FAA_3D71;

/// How many spawn points a world is made with.
pub const SPAWN_POINT_COUNT: u32 = 8;

/// The radius of the circle on which the spawn points of a world stand.
pub const SPAWN_CIRCLE_RADIUS: u32 = 10;

/// A place on a circle about the origin: the angle in whole degrees, and
/// the radius in whole units of length.
#[derive(Debug, Clone, Copy, PartialEq, Eq, Structural)]
pub struct SpawnSite {
    pub angle_degrees: u32,
    pub radius: u32,
}

/// The place of the `n`-th spawn point of a world: the spawn points share
/// out the full circle evenly.
pub open spec fn spawn_site(n: int) -> SpawnSite {
    SpawnSite {
        angle_degrees: (n * 360 / (SPAWN_POINT_COUNT as int)) as u32,
        radius: SPAWN_CIRCLE_RADIUS,
    }
}

/// The blueprint that the one-time setup gives a spawn point at `at`: of
/// the default size, with nobody on it.
pub open spec fn created_blueprint(at: Transform) -> SpawnPointBlueprint {
    SpawnPointBlueprint { at, size: DEFAULT_SIZE, initial_occupation: None }
}

/// What the one-time setup makes of a world, given the placements of the
/// spawn points. In a world that was set up before, nothing changes. In a
/// new one an entity is spawned for each placement, in order, and carries
/// the blueprint of a free spawn point there as a new instance; and the
/// world is marked as set up.
pub open spec fn created_with(world: WorldView, at: Seq<Transform>) -> WorldView {
    if world.created {
        world
    } else {
        let base = world.entities as int;
        let end = base + at.len();
        WorldView {
            created: true,
            entities: end as nat,
            spawn_points: BlueprintsView {
                blueprints: Map::new(
                    |c: int| world.spawn_points.blueprints.contains_key(c) || base <= c < end,
                    |c: int|
                        if base <= c < end {
                            fresh(created_blueprint(at[c - base]))
                        } else {
                            world.spawn_points.blueprints[c]
                        },
                ),
                bundles: world.spawn_points.bundles,
            },
            ..world
        }
    }
}

/// Whether `player` is a player that stands on the spawn point
/// `spawn_point`: the one has the bundle of a player, the other that of a
/// spawn point, and the spawn point holds the player's client.
pub open spec fn stands_on(world: WorldView, player: int, spawn_point: int) -> bool {
    &&& world.players.bundles.contains_key(player)
    &&& world.spawn_points.bundles.contains_key(spawn_point)
    &&& world.spawn_points.bundles[spawn_point].spawn_point.spec_get_id() == Some(
        world.players.bundles[player].player.network_id,
    )
}

/// Whether `contacts` is between a player and the spawn point that it
/// stands on, whichever of the two comes first.
pub open spec fn is_own_spawn_contact(world: WorldView, contacts: Contacts) -> bool {
    stands_on(world, contacts.entity1@, contacts.entity2@) || stands_on(
        world,
        contacts.entity2@,
        contacts.entity1@,
    )
}

/// The systems of the spawn points as they are declared: the filter of
/// contacts runs in the step of the physics, reads the players and the
/// spawn points and writes the contacts; the one-time setup runs in the
/// phase of world creation and writes the entities and the blueprints of
/// spawn points.
pub open spec fn spawn_point_systems() -> Seq<SystemView> {
    seq![
        SystemView {
            system: System::FilterNonOccupiedCollisions,
            phase: Phase::Physics(PhysicsSet::StepSimulation),
            reads: seq![Data::Players, Data::SpawnPoints],
            writes: seq![Data::Collisions],
            after: Seq::empty(),
        },
        SystemView {
            system: System::CreationSpawnPoints,
            phase: Phase::WorldCreation,
            reads: Seq::empty(),
            writes: seq![Data::Entities, Data::SpawnPointBlueprints],
            after: Seq::empty(),
        },
    ]
}

/// The systems that make and keep the spawn points.
pub struct SpawnPointsPlugin;

impl SpawnPointsPlugin {
    /// Declares the systems of the spawn points.
    pub fn build(&self, app: &mut App)
        requires
            old(app).wf(),
        ensures
            final(app).wf(),
            final(app)@ == old(app)@ + spawn_point_systems(),
    {
        let filter = SystemDescriptor::new(
            System::FilterNonOccupiedCollisions,
            Phase::Physics(PhysicsSet::StepSimulation),
        ).reading(Data::Players).reading(Data::SpawnPoints).writing(Data::Collisions);
        assert(filter@.reads =~= seq![Data::Players, Data::SpawnPoints]);
        app.add(filter);
        let creation = SystemDescriptor::new(System::CreationSpawnPoints, Phase::WorldCreation).writing(
            Data::Entities,
        ).writing(Data::SpawnPointBlueprints);
        assert(creation@.writes =~= seq![Data::Entities, Data::SpawnPointBlueprints]);
        app.add(creation);
    }

    /// The places of the spawn points of a world, in order.
    pub fn spawn_sites() -> (sites: Vec<SpawnSite>)
        ensures
            sites@.len() == SPAWN_POINT_COUNT,
            forall|n: int| 0 <= n < SPAWN_POINT_COUNT ==> #[trigger] sites@[n] == spawn_site(n),
    {
        let mut sites: Vec<SpawnSite> = Vec::new();
        let mut n: u32 = 0;
        while n < SPAWN_POINT_COUNT
            invariant
                n <= SPAWN_POINT_COUNT,
                sites@.len() == n,
                forall|i: int| 0 <= i < n ==> #[trigger] sites@[i] == spawn_site(i),
            decreases SPAWN_POINT_COUNT - n,
        {
            sites.push(SpawnSite { angle_degrees: n * 360 / SPAWN_POINT_COUNT, radius: SPAWN_CIRCLE_RADIUS });
            n = n + 1;
        }
        sites
    }

    /// The one-time setup of the spawn points: in a world that was not set
    /// up before, spawns an entity for each placement of `at` and gives it
    /// the blueprint of a free spawn point there. The phase that expands
    /// blueprints makes the spawn points of them. Run again, it does
    /// nothing.
    pub fn creation_spawn_points(world: &mut World, at: &Vec<Transform>)
        requires
            old(world).wf(),
        ensures
            final(world)@ == created_with(old(world)@, at@),
            final(world).wf(),
    {
        if world.is_created() {
            return ;
        }
        let mut i: usize = 0;
        assert(world@.spawn_points.blueprints =~= created_with(
            old(world)@,
            at@.take(0),
        ).spawn_points.blueprints);
        while i < at.len()
            invariant
                i <= at.len(),
                world.wf(),
                !old(world)@.created,
                (WorldView { created: true, ..world@ }) == created_with(old(world)@, at@.take(i as int)),
            decreases at.len() - i,
        {
            let e = world.spawn();
            let attached = world.attach_spawn_point(e, SpawnPointBlueprint::new(at[i], None));
            proof {
                let expected = created_with(old(world)@, at@.take(i as int + 1));
                assert(world@.spawn_points.blueprints =~= expected.spawn_points.blueprints);
            }
            i = i + 1;
        }
        assert(at@.take(i as int) == at@);
        world.set_created();
    }

    /// Whether `contacts` is between a player and the spawn point that it
    /// stands on.
    pub fn is_own_spawn_contact(world: &World, contacts: &Contacts) -> (own: bool)
        ensures
            own == is_own_spawn_contact(world@, *contacts),
    {
        Self::stands_on(world, contacts.entity1, contacts.entity2) || Self::stands_on(
            world,
            contacts.entity2,
            contacts.entity1,
        )
    }

    fn stands_on(world: &World, player: Entity, spawn_point: Entity) -> (stands: bool)
        ensures
            stands == stands_on(world@, player@, spawn_point@),
    {
        match world.players().bundle(player.index()) {
            Some(player_bundle) => match world.spawn_points().bundle(spawn_point.index()) {
                Some(spawn_point_bundle) => match spawn_point_bundle.spawn_point.get_id() {
                    None => false,
                    Some(id) => id == player_bundle.player.get_id(),
                },
                None => false,
            },
            None => false,
        }
    }

    /// Takes out of `collisions` every contact between a player and the
    /// spawn point that it stands on, so that a player does not collide
    /// with its own spawn point. Every other contact stays, in the order
    /// in which it stood: a contact with a spawn point that is free or that
    /// holds another client, and a contact of which neither side is a
    /// player on its spawn point.
    pub fn filter_non_occupied_collisions(collisions: &mut Collisions, world: &World)
        ensures
            final(collisions)@ == old(collisions)@.filter(
                |contacts: Contacts| !is_own_spawn_contact(world@, contacts),
            ),
    {
        let ghost keep = |contacts: Contacts| !is_own_spawn_contact(world@, contacts);
        let mut kept: Vec<Contacts> = Vec::new();
        let mut i: usize = 0;
        let n = collisions.len();
        while i < n
            invariant
                i <= n,
                n == collisions@.len(),
                collisions@ == old(collisions)@,
                keep == |contacts: Contacts| !is_own_spawn_contact(world@, contacts),
                kept@ == collisions@.take(i as int).filter(keep),
            decreases n - i,
        {
            let contacts = collisions.get(i).unwrap();
            proof {
                let longer = collisions@.take(i as int + 1);
                assert(longer.drop_last() == collisions@.take(i as int));
                reveal(Seq::filter);
            }
            if !Self::is_own_spawn_contact(world, &contacts) {
                kept.push(contacts);
            }
            i = i + 1;
        }
        assert(collisions@.take(n as int) == collisions@);
        collisions.set(kept);
    }
}

/// What it takes to make a spawn point: where it is, how large, and the
/// client that stands on it from the start, if any.
#[derive(Debug, Clone, Copy, PartialEq, Eq)]
pub struct SpawnPointBlueprint {
    pub at: Transform,
    pub size: u32,
    pub initial_occupation: Option<ClientId>,
}

impl View for SpawnPointBlueprint {
    type V = SpawnPointBlueprint;

    open spec fn view(&self) -> SpawnPointBlueprint {
        *self
    }
}

impl SpawnPointBlueprint {
    /// The blueprint of a spawn point of the default size.
    pub fn new(at: Transform, initially_occupied: Option<ClientId>) -> (blueprint: SpawnPointBlueprint)
        ensures
            blueprint == (SpawnPointBlueprint {
                at,
                size: DEFAULT_SIZE,
                initial_occupation: initially_occupied,
            }),
    {
        SpawnPointBlueprint { at, size: DEFAULT_SIZE, initial_occupation: initially_occupied }
    }
}

impl Default for SpawnPointBlueprint {
    /// The blueprint of a free spawn point of the default size at the
    /// origin.
    fn default() -> (blueprint: SpawnPointBlueprint)
        ensures
            blueprint == (SpawnPointBlueprint {
                at: Transform::identity(),
                size: DEFAULT_SIZE,
                initial_occupation: None,
            }),
    {
        SpawnPointBlueprint { at: Transform::default(), size: DEFAULT_SIZE, initial_occupation: None }
    }
}

/// A spawn point in the world: the client that stands on it, if any. The
/// rules of the game change who stands on it; hydration never does.
#[derive(Debug, Clone, Copy, PartialEq, Eq)]
pub struct SpawnPoint {
    player_occupation: Option<ClientId>,
}

impl SpawnPoint {
    /// The client that stands on the spawn point, if any.
    pub closed spec fn spec_get_id(&self) -> Option<ClientId> {
        self.player_occupation
    }

    /// The spawn point on which `occupation` stands.
    pub closed spec fn spec_new(occupation: Option<ClientId>) -> SpawnPoint {
        SpawnPoint { player_occupation: occupation }
    }

    /// The spawn point on which `occupation` stands.
    #[verifier::when_used_as_spec(spec_new)]
    pub fn new(occupation: Option<ClientId>) -> (spawn_point: SpawnPoint)
        ensures
            spawn_point == SpawnPoint::spec_new(occupation),
            spawn_point.spec_get_id() == occupation,
    {
        SpawnPoint { player_occupation: occupation }
    }

    /// The client that stands on the spawn point, if any.
    #[verifier::when_used_as_spec(spec_get_id)]
    pub fn get_id(&self) -> (id: Option<ClientId>)
        ensures
            id == self.spec_get_id(),
    {
        self.player_occupation
    }
}

/// A spawn point is known by who stands on it, and a new one holds whom it
/// was made with.
pub proof fn lemma_spawn_point_by_occupant(a: SpawnPoint, b: SpawnPoint)
    ensures
        a.spec_get_id() == b.spec_get_id() <==> a == b,
        SpawnPoint::spec_new(a.spec_get_id()) == a,
        forall|occupation: Option<ClientId>| #[trigger]
            SpawnPoint::spec_new(occupation).spec_get_id() == occupation,
{
}

/// What a spawn point is on the peer that shows it.
pub struct SpawnPointBundle {
    pub pbr: PbrBundle,
    pub name: Name,
    pub spawn_point: SpawnPoint,
    pub rigid_body: RigidBody,
    pub collider: AsyncCollider,
}

/// A spawn point's bundle as contracts see it.
pub struct SpawnPointBundleView {
    pub pbr: PbrBundle,
    pub name: Seq<char>,
    pub spawn_point: SpawnPoint,
    pub rigid_body: RigidBody,
    pub collider: AsyncCollider,
}

impl View for SpawnPointBundle {
    type V = SpawnPointBundleView;

    open spec fn view(&self) -> SpawnPointBundleView {
        SpawnPointBundleView {
            pbr: self.pbr,
            name: self.name@,
            spawn_point: self.spawn_point,
            rigid_body: self.rigid_body,
            collider: self.collider,
        }
    }
}

impl SpawnPointBundle {
    /// The mesh of a spawn point of the given size: a sphere of that radius.
    pub open spec fn mesh_of(size: u32) -> Mesh {
        Mesh::UvSphere { radius: size, sectors: DEFAULT_SECTORS, stacks: DEFAULT_STACKS }
    }

    /// The material of every spawn point: blue, glowing blue, and partly
    /// clear like water.
    pub open spec fn material() -> StandardMaterial {
        StandardMaterial {
            base_color: Color::spec_blue(),
            emissive: Color::spec_blue(),
            specular_transmission: SEVEN_TENTHS,
            thickness: SEVEN_TENTHS,
            ior: SPAWN_POINT_IOR,
        }
    }
}

impl FromBlueprint for SpawnPointBundle {
    type Blueprint = SpawnPointBlueprint;

    /// The spawn point is drawn where the blueprint puts it, as a sphere of
    /// the blueprint's size in the material of spawn points, the mesh
    /// interned first and the material second. It is named "SpawnPoint",
    /// holds whoever the blueprint puts on it, and is a body that moves.
    open spec fn stamped(blueprint: SpawnPointBlueprint, cache: MMAView) -> SpawnPointBundleView {
        SpawnPointBundleView {
            pbr: PbrBundle {
                transform: blueprint.at,
                mesh: Handle::Stored(position(cache.meshs, Self::mesh_of(blueprint.size)) as usize),
                material: Handle::Stored(position(cache.mats, Self::material()) as usize),
            },
            name: "SpawnPoint"@,
            spawn_point: SpawnPoint::spec_new(blueprint.initial_occupation),
            rigid_body: RigidBody::Dynamic,
            collider: AsyncCollider(ComputedCollider::TriMesh),
        }
    }

    open spec fn cache_after(blueprint: SpawnPointBlueprint, cache: MMAView) -> MMAView {
        MMAView {
            meshs: interned(cache.meshs, Self::mesh_of(blueprint.size)),
            mats: interned(cache.mats, Self::material()),
            ass: cache.ass,
        }
    }

    proof fn lemma_cache_grows(blueprint: SpawnPointBlueprint, cache: MMAView) {
        lemma_interned(cache.meshs, Self::mesh_of(blueprint.size));
        lemma_interned(cache.mats, Self::material());
    }

    proof fn lemma_restamp(blueprint: SpawnPointBlueprint, cache: MMAView) {
        lemma_interned(cache.meshs, Self::mesh_of(blueprint.size));
        lemma_interned(cache.mats, Self::material());
    }

    fn stamp_from_blueprint(blueprint: &SpawnPointBlueprint, mma: &mut MMA) -> (bundle: SpawnPointBundle) {
        let mesh = mma.meshs.add(
            Mesh::UvSphere { radius: blueprint.size, sectors: DEFAULT_SECTORS, stacks: DEFAULT_STACKS },
        );
        let material = mma.mats.add(
            StandardMaterial {
                base_color: Color::blue(),
                emissive: Color::blue(),
                specular_transmission: SEVEN_TENTHS,
                thickness: SEVEN_TENTHS,
                ior: SPAWN_POINT_IOR,
            },
        );
        SpawnPointBundle {
            pbr: PbrBundle { transform: blueprint.at, mesh, material },
            name: Name::new(String::from_str("SpawnPoint")),
            spawn_point: SpawnPoint::new(blueprint.initial_occupation),
            rigid_body: RigidBody::Dynamic,
            collider: AsyncCollider::default(),
        }
    }
}

} // verus!
