use blueprint_sim::blocks::structure_block::StructureBlock;
use blueprint_sim::blocks::{BlockBlueprint, StructureBlockBundle};
use blueprint_sim::components::{decimal_string, ClientId, Name};
use blueprint_sim::global::assets::{Handle, MMA};
use blueprint_sim::global::GlobalSystemSet;
use blueprint_sim::math::{IVec3, Transform, Vec3};
use blueprint_sim::physics::{Collisions, Contacts};
use blueprint_sim::players::player::PlayerBlueprint;
use blueprint_sim::players::spawn_points::SpawnPointBlueprint;
use blueprint_sim::schedule::{App, Data, Phase, System, SystemDescriptor};
use blueprint_sim::store::{Blueprints, Column, Entity, HydrationState};
use blueprint_sim::tick::{run_set, run_system, run_systems};
use blueprint_sim::world::World;
use blueprint_sim::MainPlugin;

fn block(x: i32) -> BlockBlueprint<StructureBlock> {
    BlockBlueprint::new_structure(StructureBlock::Aluminum, IVec3::new(x, 0, 0))
}

fn circle() -> Vec<Transform> {
    (0..8).map(|n| Transform::from_translation(Vec3::new((n as f32).to_bits(), 0, 0))).collect()
}

#[test]
fn a_column_holds_a_value_for_an_entity_or_none() {
    let mut column: Column<Name> = Column::new();
    assert!(column.get(0).is_none());
    assert!(!column.contains(7));
    column.insert(7, Name::new(String::from("seven")));
    column.insert(2, Name::new(String::from("two")));
    assert!(column.contains(7));
    assert!(!column.contains(6));
    assert!(!column.contains(8));
    assert_eq!(column.get(7).unwrap().as_str(), "seven");
    assert_eq!(column.get(2).unwrap().clone().as_str(), "two");
    column.insert(7, Name::new(String::from("again")));
    assert_eq!(column.get(7).unwrap().as_str(), "again");
    assert_eq!(column.remove(7).unwrap().as_str(), "again");
    assert!(column.remove(7).is_none());
    assert!(column.remove(100).is_none());
    assert!(column.contains(2));
}

#[test]
fn a_store_hydrates_each_instance_once() {
    let mut store: Blueprints<StructureBlockBundle> = Blueprints::new();
    let mut mma = MMA::new();
    store.attach(1, block(1));
    store.attach(4, block(4));
    store.attach(9, block(9));
    assert_eq!(store.state(1), Some(HydrationState::NotHydrated));
    assert_eq!(store.state(0), None);
    assert_eq!(store.blueprint(4).unwrap().transform.translation.x, 4.0f32.to_bits());
    assert!(store.blueprint(5).is_none());

    // only the entities below the count are looked at
    assert_eq!(store.hydrate(&mut mma, 5), vec![1, 4]);
    assert_eq!(store.state(1), Some(HydrationState::Hydrated));
    assert_eq!(store.state(4), Some(HydrationState::Hydrated));
    assert_eq!(store.state(9), Some(HydrationState::NotHydrated));
    assert!(store.bundle(9).is_none());
    assert_eq!(store.bundle(4).unwrap().pbr.mesh, Handle::Stored(0));

    assert_eq!(store.hydrate(&mut mma, 5), Vec::<usize>::new());
    assert_eq!(store.hydrate(&mut mma, 10), vec![9]);
    assert_eq!(store.hydrate(&mut mma, 10), Vec::<usize>::new());

    // a new instance on an entity that had one
    store.attach(4, block(40));
    assert_eq!(store.state(4), Some(HydrationState::NotHydrated));
    assert_eq!(store.bundle(4).unwrap().pbr.transform.translation.x, 4.0f32.to_bits());
    assert_eq!(store.hydrate(&mut mma, 10), vec![4]);
    assert_eq!(store.bundle(4).unwrap().pbr.transform.translation.x, 40.0f32.to_bits());

    let gone = store.detach(1).unwrap();
    assert_eq!(gone.transform.translation.x, 1.0f32.to_bits());
    assert!(store.detach(1).is_none());
    assert!(store.bundle(1).is_some());
    let bundle = store.take_bundle(1).unwrap();
    assert!(store.bundle(1).is_none());
    store.set_bundle(3, bundle);
    assert_eq!(store.bundle(3).unwrap().name.as_str(), "StructureBlock Aluminum");
    assert_eq!(mma.meshs.len(), 1);
}

#[test]
fn numbers_are_written_in_decimal() {
    for n in [0u64, 7, 10, 99, 100, 4096, u64::MAX] {
        assert_eq!(decimal_string(n), n.to_string());
    }
    assert_eq!(ClientId::from_raw(12).raw(), 12);
    assert_eq!(Entity::from_index(3).index(), 3);
}

#[test]
fn the_systems_of_a_tick_run_in_the_order_of_the_pipeline() {
    let mut app = App::new();
    MainPlugin.build(&mut app);
    app.add_system(SystemDescriptor::new(System::External(1), Phase::ExecuteGameLogic).writing(Data::SpawnPoints))
        .unwrap();
    let pipeline = app.build().unwrap();

    let mut world = World::new();
    let mut mma = MMA::new();
    let mut collisions = Collisions::new();
    let at = circle();
    let owner = world.spawn();
    world.attach_player(
        owner,
        PlayerBlueprint::new(ClientId::from_raw(3), Transform::default()).with_structure(block(0)),
    );

    run_systems(&pipeline, &mut world, &mut mma, &mut collisions, &at);

    // one player, eight spawn points, one block; all of them hydrated within the tick
    assert!(world.is_created());
    assert_eq!(world.entities(), 10);
    for index in 1..9 {
        assert_eq!(world.spawn_points().state(index), Some(HydrationState::Hydrated));
        assert_eq!(world.spawn_points().bundle(index).unwrap().pbr.transform, at[index - 1]);
    }
    assert!(world.players().bundle(owner.index()).is_some());
    assert_eq!(world.parent(Entity::from_index(9)), Some(owner));
    assert_eq!(world.structure_blocks().state(9), Some(HydrationState::Hydrated));

    // the next tick finds nothing to do
    run_systems(&pipeline, &mut world, &mut mma, &mut collisions, &at);
    assert_eq!(world.entities(), 10);
}

#[test]
fn a_set_runs_its_own_systems_only() {
    let mut app = App::new();
    MainPlugin.build(&mut app);
    let pipeline = app.build().unwrap();
    let mut world = World::new();
    let mut mma = MMA::new();
    let mut collisions = Collisions::new();
    let at = circle();

    run_set(&pipeline, GlobalSystemSet::BlueprintExpansion, &mut world, &mut mma, &mut collisions, &at);
    assert!(!world.is_created());
    assert_eq!(world.entities(), 0);

    run_set(&pipeline, GlobalSystemSet::WorldCreation, &mut world, &mut mma, &mut collisions, &at);
    assert!(world.is_created());
    assert_eq!(world.entities(), 8);
    assert_eq!(world.spawn_points().state(0), Some(HydrationState::NotHydrated));

    run_set(&pipeline, GlobalSystemSet::ExecuteGameLogic, &mut world, &mut mma, &mut collisions, &at);
    run_set(&pipeline, GlobalSystemSet::PlayerMovement, &mut world, &mut mma, &mut collisions, &at);
    assert_eq!(world.spawn_points().state(0), Some(HydrationState::NotHydrated));

    run_set(&pipeline, GlobalSystemSet::BlueprintExpansion, &mut world, &mut mma, &mut collisions, &at);
    assert_eq!(world.spawn_points().state(0), Some(HydrationState::Hydrated));

    // the filter of contacts runs in the physics
    let player = world.spawn();
    world.attach_player(player, PlayerBlueprint::new(ClientId::from_raw(1), Transform::default()));
    world.hydrate_players(&mut mma);
    world.occupy_spawn_point(Entity::from_index(0), Some(ClientId::from_raw(1)));
    collisions.push(Contacts { entity1: player, entity2: Entity::from_index(0) });
    collisions.push(Contacts { entity1: player, entity2: Entity::from_index(1) });
    run_set(&pipeline, GlobalSystemSet::RawPhysics, &mut world, &mut mma, &mut collisions, &at);
    assert_eq!(collisions.len(), 1);
    assert_eq!(collisions.get(0), Some(Contacts { entity1: player, entity2: Entity::from_index(1) }));
}

#[test]
fn each_system_runs_by_itself() {
    let mut world = World::new();
    let mut mma = MMA::new();
    let mut collisions = Collisions::new();
    let at = circle();
    let e = world.spawn();
    world.attach_structure_block(e, block(5));
    world.attach_spawn_point(e, SpawnPointBlueprint::default());

    assert!(!run_system(System::External(9), &mut world, &mut mma, &mut collisions, &at));
    assert!(run_system(System::HydratePlayers, &mut world, &mut mma, &mut collisions, &at));
    assert!(run_system(System::HydrateThrusterBlocks, &mut world, &mut mma, &mut collisions, &at));
    assert_eq!(world.structure_blocks().state(e.index()), Some(HydrationState::NotHydrated));
    assert!(run_system(System::HydrateStructureBlocks, &mut world, &mut mma, &mut collisions, &at));
    assert_eq!(world.structure_blocks().state(e.index()), Some(HydrationState::Hydrated));
    assert_eq!(world.spawn_points().state(e.index()), Some(HydrationState::NotHydrated));
    assert!(run_system(System::HydrateSpawnPoints, &mut world, &mut mma, &mut collisions, &at));
    assert_eq!(world.spawn_points().state(e.index()), Some(HydrationState::Hydrated));
    assert!(run_system(System::FilterNonOccupiedCollisions, &mut world, &mut mma, &mut collisions, &at));
    assert!(run_system(System::CreationSpawnPoints, &mut world, &mut mma, &mut collisions, &at));
    assert_eq!(world.entities(), 9);
    world.hydrate_thruster_blocks(&mut mma);
    world.hydrate_spawn_points(&mut mma);
    assert_eq!(world.spawn_points().state(8), Some(HydrationState::Hydrated));
    world.set_created();
    assert_eq!(world.detach_player(e).map(|_| ()), None);
    assert!(world.detach_thruster_block(e).is_none());
    assert_eq!(world.detach_spawn_point(e), Some(SpawnPointBlueprint::default()));
}
