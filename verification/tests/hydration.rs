use blueprint_sim::blocks::structure_block::StructureBlock;
use blueprint_sim::blocks::{BlockBlueprint, OptimizableMaterial, OptimizableMesh};
use blueprint_sim::components::{AsyncCollider, ClientId, ComputedCollider, RigidBody};
use blueprint_sim::global::assets::{Handle, Mesh, StandardMaterial, MMA};
use blueprint_sim::global::blueprints::FromBlueprint;
use blueprint_sim::math::{Color, IVec3, Quat, Transform, Vec3};
use blueprint_sim::physics::{Collisions, Contacts};
use blueprint_sim::players::player::{PlayerBlueprint, PlayerBundle};
use blueprint_sim::players::spawn_points::{SpawnPoint, SpawnPointBlueprint, SpawnPointBundle, SpawnPointsPlugin};
use blueprint_sim::players::thruster_block::ThrusterBlock;
use blueprint_sim::store::{Entity, HydrationState};
use blueprint_sim::world::World;

fn bits(x: f32) -> u32 {
    x.to_bits()
}

fn somewhere(x: f32, y: f32, z: f32) -> Transform {
    Transform::from_translation(Vec3::new(bits(x), bits(y), bits(z)))
}

fn thruster_at(x: i32) -> BlockBlueprint<ThrusterBlock> {
    BlockBlueprint {
        transform: Transform::from_translation(IVec3::new(x, 0, 0).as_vec3()),
        mesh: OptimizableMesh::CustomRectangularPrism { size: Vec3::new(bits(1.0), bits(2.0), bits(3.0)) },
        material: OptimizableMaterial::OpaqueColour(Color::blue()),
        specific_marker: ThrusterBlock,
    }
}

fn children_of(world: &World, owner: Entity) -> Vec<Entity> {
    let mut children = Vec::new();
    for index in 0..world.entities() {
        let e = Entity::from_index(index);
        if world.parent(e) == Some(owner) {
            children.push(e);
        }
    }
    children
}

#[test]
fn player_42_hydrates_with_one_aluminum_block() {
    let mut world = World::new();
    let mut mma = MMA::new();
    let owner = world.spawn();
    let place = somewhere(4.0, 5.0, 6.0);
    let blueprint = PlayerBlueprint::new(ClientId::from_raw(42), place)
        .with_structure(BlockBlueprint::new_structure(StructureBlock::Aluminum, IVec3::new(0, 0, 0)));
    assert!(world.attach_player(owner, blueprint));

    world.blueprint_expansion(&mut mma);

    assert_eq!(world.entities(), 2);
    let player = world.players().bundle(owner.index()).unwrap();
    assert_eq!(player.name.as_str(), "Player 42");
    assert_eq!(player.transform, place);
    assert_eq!(player.player.get_id(), ClientId::from_raw(42));

    let children = children_of(&world, owner);
    assert_eq!(children.len(), 1);
    let block = world.structure_blocks().bundle(children[0].index()).unwrap();
    assert_eq!(block.name.as_str(), "StructureBlock Aluminum");
    assert_eq!(block.pbr.transform, somewhere(0.0, 0.0, 0.0));
    assert_eq!(block.pbr.transform.translation, Vec3::new(0, 0, 0));
    assert_eq!(block.collider, AsyncCollider(ComputedCollider::ConvexHull));
    assert_eq!(world.structure_blocks().state(children[0].index()), Some(HydrationState::Hydrated));
    assert!(world.players().bundle(children[0].index()).is_none());
}

#[test]
fn hydrating_twice_is_hydrating_once() {
    let mut world = World::new();
    let mut mma = MMA::new();
    let owner = world.spawn();
    let blueprint = PlayerBlueprint::new(ClientId::from_raw(7), Transform::default())
        .with_structure(BlockBlueprint::new_structure(StructureBlock::Aluminum, IVec3::new(1, 0, 0)))
        .with_structure(BlockBlueprint::new_structure(StructureBlock::Aluminum, IVec3::new(2, 0, 0)))
        .with_thruster(thruster_at(3));
    assert!(world.attach_player(owner, blueprint));
    let point = world.spawn();
    assert!(world.attach_spawn_point(point, SpawnPointBlueprint::new(somewhere(1.0, 0.0, 0.0), None)));

    world.blueprint_expansion(&mut mma);
    let entities = world.entities();
    let meshes = mma.meshs.len();
    let materials = mma.mats.len();
    assert_eq!(entities, 5);
    assert!(world.occupy_spawn_point(point, Some(ClientId::from_raw(7))));

    world.blueprint_expansion(&mut mma);
    assert_eq!(world.entities(), entities);
    assert_eq!(mma.meshs.len(), meshes);
    assert_eq!(mma.mats.len(), materials);
    assert_eq!(children_of(&world, owner).len(), 3);
    // the second run has not stamped the spawn point again
    assert_eq!(
        world.spawn_points().bundle(point.index()).unwrap().spawn_point.get_id(),
        Some(ClientId::from_raw(7))
    );
    for index in 0..world.entities() {
        assert_ne!(world.players().state(index), Some(HydrationState::NotHydrated));
        assert_ne!(world.structure_blocks().state(index), Some(HydrationState::NotHydrated));
        assert_ne!(world.thruster_blocks().state(index), Some(HydrationState::NotHydrated));
        assert_ne!(world.spawn_points().state(index), Some(HydrationState::NotHydrated));
    }
}

#[test]
fn a_player_gets_a_child_for_each_block_in_order() {
    let mut world = World::new();
    let mut mma = MMA::new();
    let bystander = world.spawn();
    let first = world.spawn();
    let second = world.spawn();
    let mut one = PlayerBlueprint::new(ClientId::from_raw(1), Transform::default());
    for x in 0..3 {
        one = one.with_structure(BlockBlueprint::new_structure(StructureBlock::Aluminum, IVec3::new(x, 0, 0)));
    }
    one = one.with_thruster(thruster_at(9)).with_thruster(thruster_at(10));
    let two = PlayerBlueprint::new(ClientId::from_raw(2), Transform::default())
        .with_structure(BlockBlueprint::new_structure(StructureBlock::Aluminum, IVec3::new(-5, 0, 0)));
    assert!(world.attach_player(first, one));
    assert!(world.attach_player(second, two));

    world.blueprint_expansion(&mut mma);

    assert_eq!(world.entities(), 3 + 5 + 1);
    assert!(world.players().bundle(first.index()).is_some());
    assert!(world.players().bundle(second.index()).is_some());
    assert!(children_of(&world, bystander).is_empty());

    let children = children_of(&world, first);
    assert_eq!(children.len(), 5);
    let structural: Vec<Entity> =
        children.iter().copied().filter(|c| world.structure_blocks().bundle(c.index()).is_some()).collect();
    assert_eq!(structural.len(), 3);
    for (i, child) in structural.iter().enumerate() {
        assert_eq!(child.index(), 3 + i);
        let bundle = world.structure_blocks().bundle(child.index()).unwrap();
        assert_eq!(bundle.pbr.transform.translation, Vec3::new(bits(i as f32), 0, 0));
        assert_eq!(world.structure_blocks().state(child.index()), Some(HydrationState::Hydrated));
    }
    let thrusters: Vec<Entity> =
        children.iter().copied().filter(|c| world.thruster_blocks().bundle(c.index()).is_some()).collect();
    assert_eq!(thrusters.len(), 2);
    assert_eq!(world.thruster_blocks().bundle(thrusters[0].index()).unwrap().name.as_str(), "ThrusterBlock");
    assert_eq!(
        world.thruster_blocks().bundle(thrusters[1].index()).unwrap().pbr.transform.translation,
        Vec3::new(bits(10.0), 0, 0)
    );

    let others = children_of(&world, second);
    assert_eq!(others.len(), 1);
    assert_eq!(others[0].index(), 8);
    assert_eq!(
        world.structure_blocks().bundle(8).unwrap().pbr.transform.translation,
        Vec3::new(bits(-5.0), 0, 0)
    );
}

#[test]
fn eight_free_spawn_points_stand_on_a_circle() {
    let sites = SpawnPointsPlugin::spawn_sites();
    assert_eq!(sites.len(), 8);
    let mut at = Vec::new();
    for (n, site) in sites.iter().enumerate() {
        assert_eq!(site.angle_degrees, n as u32 * 360 / 8);
        assert_eq!(site.radius, 10);
        let angle = (site.angle_degrees as f32).to_radians();
        at.push(somewhere(site.radius as f32 * angle.cos(), 0.0, site.radius as f32 * angle.sin()));
    }
    assert_eq!(sites[0].angle_degrees, 0);
    assert_eq!(sites[1].angle_degrees, 45);
    assert_eq!(sites[7].angle_degrees, 315);

    let mut world = World::new();
    let mut mma = MMA::new();
    SpawnPointsPlugin::creation_spawn_points(&mut world, &at);
    assert!(world.is_created());
    assert_eq!(world.entities(), 8);
    for index in 0..8 {
        assert_eq!(world.spawn_points().state(index), Some(HydrationState::NotHydrated));
        assert!(world.spawn_points().bundle(index).is_none());
    }

    world.blueprint_expansion(&mut mma);

    let mut count = 0;
    for index in 0..world.entities() {
        if let Some(bundle) = world.spawn_points().bundle(index) {
            count += 1;
            assert_eq!(bundle.spawn_point.get_id(), None);
            assert_eq!(bundle.pbr.transform, at[index]);
            assert_eq!(bundle.name.as_str(), "SpawnPoint");
            assert_eq!(bundle.rigid_body, RigidBody::Dynamic);
            let x = f32::from_bits(bundle.pbr.transform.translation.x);
            let z = f32::from_bits(bundle.pbr.transform.translation.z);
            assert!(((x * x + z * z).sqrt() - 10.0).abs() < 1e-4);
        }
    }
    assert_eq!(count, 8);
    // every spawn point shares the one mesh and the one material
    assert_eq!(mma.meshs.len(), 1);
    assert_eq!(mma.mats.len(), 1);

    // the setup runs once
    SpawnPointsPlugin::creation_spawn_points(&mut world, &at);
    assert_eq!(world.entities(), 8);
}

#[test]
fn a_contact_with_the_own_spawn_point_is_dropped() {
    let mut world = World::new();
    let mut mma = MMA::new();
    let player = world.spawn();
    let own = world.spawn();
    let foreign = world.spawn();
    let free = world.spawn();
    let rock = world.spawn();
    world.attach_player(player, PlayerBlueprint::new(ClientId::from_raw(42), Transform::default()));
    world.attach_spawn_point(own, SpawnPointBlueprint::new(Transform::default(), Some(ClientId::from_raw(42))));
    world.attach_spawn_point(foreign, SpawnPointBlueprint::new(Transform::default(), Some(ClientId::from_raw(43))));
    world.attach_spawn_point(free, SpawnPointBlueprint::new(Transform::default(), None));
    world.blueprint_expansion(&mut mma);

    let contact = |a: Entity, b: Entity| Contacts { entity1: a, entity2: b };
    let mut collisions = Collisions::new();
    collisions.push(contact(player, own));
    collisions.push(contact(player, foreign));
    collisions.push(contact(own, player));
    collisions.push(contact(player, free));
    collisions.push(contact(rock, own));
    collisions.push(contact(foreign, player));
    collisions.push(contact(player, rock));

    assert!(SpawnPointsPlugin::is_own_spawn_contact(&world, &contact(player, own)));
    assert!(SpawnPointsPlugin::is_own_spawn_contact(&world, &contact(own, player)));
    assert!(!SpawnPointsPlugin::is_own_spawn_contact(&world, &contact(player, foreign)));

    SpawnPointsPlugin::filter_non_occupied_collisions(&mut collisions, &world);

    let kept: Vec<Contacts> = (0..collisions.len()).map(|i| collisions.get(i).unwrap()).collect();
    assert_eq!(
        kept,
        vec![
            contact(player, foreign),
            contact(player, free),
            contact(rock, own),
            contact(foreign, player),
            contact(player, rock),
        ]
    );
    assert_eq!(collisions.get(5), None);
}

#[test]
fn occupation_follows_the_rules_of_the_game() {
    let mut world = World::new();
    let mut mma = MMA::new();
    let player = world.spawn();
    let point = world.spawn();
    world.attach_player(player, PlayerBlueprint::new(ClientId::from_raw(5), Transform::default()));
    world.attach_spawn_point(point, SpawnPointBlueprint::new(Transform::default(), None));
    assert!(!world.occupy_spawn_point(point, Some(ClientId::from_raw(5))));
    world.blueprint_expansion(&mut mma);

    let mut collisions = Collisions::new();
    collisions.push(Contacts { entity1: player, entity2: point });
    SpawnPointsPlugin::filter_non_occupied_collisions(&mut collisions, &world);
    assert_eq!(collisions.len(), 1);

    assert!(world.occupy_spawn_point(point, Some(ClientId::from_raw(5))));
    SpawnPointsPlugin::filter_non_occupied_collisions(&mut collisions, &world);
    assert_eq!(collisions.len(), 0);
    assert!(!world.occupy_spawn_point(player, None));
}

#[test]
fn attaching_again_starts_a_new_instance() {
    let mut world = World::new();
    let mut mma = MMA::new();
    let e = world.spawn();
    assert!(world.attach_structure_block(e, BlockBlueprint::new_structure(StructureBlock::Aluminum, IVec3::new(1, 1, 1))));
    assert_eq!(world.structure_blocks().state(e.index()), Some(HydrationState::NotHydrated));
    world.blueprint_expansion(&mut mma);
    assert_eq!(world.structure_blocks().state(e.index()), Some(HydrationState::Hydrated));

    let old = world.detach_structure_block(e).unwrap();
    assert_eq!(old.transform.translation, Vec3::new(bits(1.0), bits(1.0), bits(1.0)));
    assert_eq!(world.structure_blocks().state(e.index()), None);
    assert!(world.structure_blocks().bundle(e.index()).is_some());
    assert!(world.detach_structure_block(e).is_none());

    assert!(world.attach_structure_block(e, BlockBlueprint::new_structure(StructureBlock::Aluminum, IVec3::new(2, 2, 2))));
    assert_eq!(world.structure_blocks().state(e.index()), Some(HydrationState::NotHydrated));
    world.blueprint_expansion(&mut mma);
    assert_eq!(world.structure_blocks().state(e.index()), Some(HydrationState::Hydrated));
    assert_eq!(
        world.structure_blocks().bundle(e.index()).unwrap().pbr.transform.translation,
        Vec3::new(bits(2.0), bits(2.0), bits(2.0))
    );
}

#[test]
fn nothing_attaches_to_an_entity_that_is_not_there() {
    let mut world = World::new();
    let stranger = Entity::from_index(3);
    assert!(!world.contains(stranger));
    assert!(!world.attach_player(stranger, PlayerBlueprint::new(ClientId::from_raw(1), Transform::default())));
    assert!(!world.attach_structure_block(stranger, BlockBlueprint::new_structure(StructureBlock::Aluminum, IVec3::new(0, 0, 0))));
    assert!(!world.attach_thruster_block(stranger, thruster_at(0)));
    assert!(!world.attach_spawn_point(stranger, SpawnPointBlueprint::default()));
    let e = world.spawn();
    assert!(world.contains(e));
    assert!(!world.set_parent(e, stranger));
    assert!(!world.set_parent(stranger, e));
    assert_eq!(world.parent(e), None);
    let child = world.spawn();
    assert!(world.set_parent(child, e));
    assert_eq!(world.parent(child), Some(e));
    assert_eq!(world.entities(), 2);
}

#[test]
fn equal_descriptions_share_one_asset() {
    let mut mma = MMA::new();
    let a = OptimizableMesh::StandardBlock.get_mesh(&mut mma);
    let b = OptimizableMesh::StandardBlock.get_mesh(&mut mma);
    let size = Vec3::new(bits(1.0), bits(2.0), bits(3.0));
    let c = OptimizableMesh::CustomRectangularPrism { size }.get_mesh(&mut mma);
    let d = OptimizableMesh::CustomRectangularPrism { size }.get_mesh(&mut mma);
    assert_eq!(a, Handle::Stored(0));
    assert_eq!(b, a);
    assert_eq!(c, Handle::Stored(1));
    assert_eq!(d, c);
    assert_eq!(mma.meshs.len(), 2);
    assert_eq!(mma.meshs.get(a), Some(&Mesh::Cube { size: bits(1.0) }));
    assert_eq!(
        mma.meshs.get(c),
        Some(&Mesh::Box { x_length: bits(1.0), y_length: bits(2.0), z_length: bits(3.0) })
    );
    assert_eq!(mma.meshs.get(Handle::Stored(2)), None);
    assert_eq!(mma.meshs.get(Handle::Placeholder), None);

    let silver = OptimizableMaterial::OpaqueColour(Color::silver());
    let s1 = silver.get_material(&mut mma.mats);
    let s2 = silver.get_material(&mut mma.mats);
    let blue = OptimizableMaterial::OpaqueColour(Color::blue()).get_material(&mut mma.mats);
    assert_eq!(s1, Handle::Stored(0));
    assert_eq!(s2, s1);
    assert_eq!(blue, Handle::Stored(1));
    let material = mma.mats.get(s1).unwrap();
    assert_eq!(*material, StandardMaterial::from_colour(Color::silver()));
    assert_eq!(material.base_color, Color { r: bits(0.75), g: bits(0.75), b: bits(0.75), a: bits(1.0) });
    assert_eq!(material.emissive, Color::black());
    assert_eq!(material.specular_transmission, bits(0.0));
    assert_eq!(material.thickness, bits(0.0));
    assert_eq!(material.ior, bits(1.5));
    assert_eq!(StandardMaterial::default().base_color, Color::white());
}

#[test]
fn a_missing_asset_gets_the_placeholder() {
    let mut mma = MMA::new();
    let ship = mma.ass.register("models/ship.glb");
    assert_eq!(ship, Handle::Loaded(0));
    assert_eq!(mma.ass.register("models/ship.glb"), Handle::Loaded(0));
    assert_eq!(mma.ass.register("models/rock.glb"), Handle::Loaded(1));
    assert_eq!(mma.ass.load("models/rock.glb"), Some(Handle::Loaded(1)));
    assert_eq!(mma.ass.load("models/none.glb"), None);

    let found = OptimizableMesh::FromAsset(String::from("models/rock.glb")).get_mesh(&mut mma);
    let missing = OptimizableMesh::FromAsset(String::from("models/none.glb")).get_mesh(&mut mma);
    assert_eq!(found, Handle::Loaded(1));
    assert_eq!(missing, Handle::Placeholder);
    assert_eq!(mma.meshs.len(), 0);

    // the entity hydrates all the same
    let mut world = World::new();
    let e = world.spawn();
    let blueprint = BlockBlueprint {
        transform: Transform::default(),
        mesh: OptimizableMesh::FromAsset(String::from("models/none.glb")),
        material: OptimizableMaterial::OpaqueColour(Color::silver()),
        specific_marker: StructureBlock::Aluminum,
    };
    world.attach_structure_block(e, blueprint);
    world.blueprint_expansion(&mut mma);
    let bundle = world.structure_blocks().bundle(e.index()).unwrap();
    assert_eq!(bundle.pbr.mesh, Handle::Placeholder);
    assert_eq!(bundle.pbr.material, Handle::Stored(0));
    assert_eq!(world.structure_blocks().state(e.index()), Some(HydrationState::Hydrated));
}

#[test]
fn stamping_depends_on_the_blueprint_and_the_cache_alone() {
    let blueprint = BlockBlueprint::new_structure(StructureBlock::Aluminum, IVec3::new(3, 4, 5));
    let copy = blueprint.clone();
    let mut one = MMA::new();
    let mut other = MMA::new();
    let a = blueprint_sim::blocks::StructureBlockBundle::stamp_from_blueprint(&blueprint, &mut one);
    let b = blueprint_sim::blocks::StructureBlockBundle::stamp_from_blueprint(&copy, &mut other);
    assert_eq!(a.pbr, b.pbr);
    assert_eq!(a.collider, b.collider);
    assert_eq!(a.name.as_str(), b.name.as_str());
    assert_eq!(one.meshs.len(), other.meshs.len());
    // stamped again against the cache that the first stamping left
    let again = blueprint_sim::blocks::StructureBlockBundle::stamp_from_blueprint(&blueprint, &mut one);
    assert_eq!(again.pbr, a.pbr);
    assert_eq!(one.meshs.len(), 1);
    assert_eq!(one.mats.len(), 1);
}

#[test]
fn a_spawn_point_is_a_blue_sphere_of_its_size() {
    let mut mma = MMA::new();
    let blueprint = SpawnPointBlueprint::new(somewhere(1.0, 2.0, 3.0), Some(ClientId::from_raw(9)));
    assert_eq!(blueprint.size, bits(3.0));
    assert_eq!(SpawnPointBlueprint::default().at, Transform::default());
    assert_eq!(SpawnPointBlueprint::default().size, bits(3.0));
    assert_eq!(SpawnPointBlueprint::default().initial_occupation, None);
    let bundle = SpawnPointBundle::stamp_from_blueprint(&blueprint, &mut mma);
    assert_eq!(bundle.pbr.transform, somewhere(1.0, 2.0, 3.0));
    assert_eq!(bundle.spawn_point, SpawnPoint::new(Some(ClientId::from_raw(9))));
    assert_eq!(bundle.collider, AsyncCollider::default());
    assert_eq!(
        mma.meshs.get(bundle.pbr.mesh),
        Some(&Mesh::UvSphere { radius: bits(3.0), sectors: 36, stacks: 18 })
    );
    let material = mma.mats.get(bundle.pbr.material).unwrap();
    assert_eq!(material.base_color, Color { r: bits(0.0), g: bits(0.0), b: bits(1.0), a: bits(1.0) });
    assert_eq!(material.emissive, material.base_color);
    assert_eq!(material.specular_transmission, bits(0.7));
    assert_eq!(material.thickness, bits(0.7));
    assert_eq!(material.ior, bits(1.33));
}

#[test]
fn players_are_named_after_their_clients() {
    let mut mma = MMA::new();
    for (raw, name) in [(0u64, "Player 0"), (9, "Player 9"), (10, "Player 10"), (1234567890, "Player 1234567890"), (u64::MAX, "Player 18446744073709551615")] {
        let blueprint = PlayerBlueprint::new(ClientId::from_raw(raw), Transform::default());
        let bundle = PlayerBundle::stamp_from_blueprint(&blueprint, &mut mma);
        assert_eq!(bundle.name.as_str(), name);
        assert_eq!(bundle.player.get_id().raw(), raw);
    }
    assert_eq!(mma.meshs.len(), 0);
    assert_eq!(Quat { x: 0, y: 0, z: 0, w: bits(1.0) }, Transform::default().rotation);
}
