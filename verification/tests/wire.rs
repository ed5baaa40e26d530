use blueprint_sim::blocks::structure_block::StructureBlock;
use blueprint_sim::blocks::{BlockBlueprint, OptimizableMaterial, OptimizableMesh, StructureBlockBundle};
use blueprint_sim::components::ClientId;
use blueprint_sim::global::assets::MMA;
use blueprint_sim::global::blueprints::FromBlueprint;
use blueprint_sim::math::{Color, IVec3, Quat, Transform, Vec3};
use blueprint_sim::players::player::{PlayerBlueprint, PlayerBundle};
use blueprint_sim::players::spawn_points::{SpawnPointBlueprint, SpawnPointBundle};
use blueprint_sim::players::thruster_block::{ThrusterBlock, ThrusterBlockBundle};
use blueprint_sim::wire::{take_text, take_u64, write_text, write_u64, Wire};

fn bits(x: f32) -> u32 {
    x.to_bits()
}

fn tilted() -> Transform {
    Transform {
        translation: Vec3::new(bits(1.5), bits(-2.25), bits(1e9)),
        rotation: Quat { x: bits(0.5), y: bits(0.5), z: bits(0.5), w: bits(0.5) },
        scale: Vec3::new(bits(2.0), bits(1.0), bits(0.5)),
    }
}

fn named_block() -> BlockBlueprint<StructureBlock> {
    BlockBlueprint {
        transform: tilted(),
        mesh: OptimizableMesh::FromAsset(String::from("models/héllo \u{1F680}.glb")),
        material: OptimizableMaterial::OpaqueColour(Color::blue()),
        specific_marker: StructureBlock::Aluminum,
    }
}

fn thruster() -> BlockBlueprint<ThrusterBlock> {
    BlockBlueprint {
        transform: Transform::from_translation(IVec3::new(0, -1, 0).as_vec3()),
        mesh: OptimizableMesh::CustomRectangularPrism { size: Vec3::new(bits(1.0), bits(2.0), bits(3.0)) },
        material: OptimizableMaterial::OpaqueColour(Color::silver()),
        specific_marker: ThrusterBlock,
    }
}

fn same_block<T: PartialEq + std::fmt::Debug>(a: &BlockBlueprint<T>, b: &BlockBlueprint<T>) {
    assert_eq!(a.transform, b.transform);
    assert_eq!(a.material, b.material);
    assert_eq!(a.specific_marker, b.specific_marker);
    match (&a.mesh, &b.mesh) {
        (OptimizableMesh::StandardBlock, OptimizableMesh::StandardBlock) => {}
        (OptimizableMesh::CustomRectangularPrism { size: x }, OptimizableMesh::CustomRectangularPrism { size: y }) => {
            assert_eq!(x, y)
        }
        (OptimizableMesh::FromAsset(x), OptimizableMesh::FromAsset(y)) => assert_eq!(x, y),
        other => panic!("different meshes: {:?}", other),
    }
}

#[test]
fn a_standard_block_is_written_field_by_field() {
    let block = BlockBlueprint::new_structure(StructureBlock::Aluminum, IVec3::new(1, 2, 3));
    let one = bits(1.0);
    let silver = bits(0.75);
    assert_eq!(
        block.encode(),
        vec![
            bits(1.0), bits(2.0), bits(3.0), // translation
            0, 0, 0, one, // rotation
            one, one, one, // scale
            0, // standard block
            0, silver, silver, silver, one, // opaque colour
            0, // aluminum
        ]
    );
}

#[test]
fn a_block_comes_back_as_it_was_sent() {
    for block in [named_block(), BlockBlueprint::new_structure(StructureBlock::Aluminum, IVec3::new(-7, 0, 9))] {
        let words = block.encode();
        let back = BlockBlueprint::<StructureBlock>::decode(&words).unwrap();
        same_block(&back, &block);
    }
    let sent = thruster();
    same_block(&BlockBlueprint::<ThrusterBlock>::decode(&sent.encode()).unwrap(), &sent);
}

#[test]
fn what_came_over_the_wire_hydrates_as_what_was_sent() {
    let sent = named_block();
    let received = BlockBlueprint::<StructureBlock>::decode(&sent.encode()).unwrap();
    let mut here = MMA::new();
    let mut there = MMA::new();
    here.ass.register("models/héllo \u{1F680}.glb");
    there.ass.register("models/héllo \u{1F680}.glb");
    let a = StructureBlockBundle::stamp_from_blueprint(&sent, &mut here);
    let b = StructureBlockBundle::stamp_from_blueprint(&received, &mut there);
    assert_eq!(a.pbr, b.pbr);
    assert_eq!(a.pbr.transform, tilted());
    assert_eq!(a.collider, b.collider);
    assert_eq!(a.name.as_str(), b.name.as_str());

    let sent = thruster();
    let received = BlockBlueprint::<ThrusterBlock>::decode(&sent.encode()).unwrap();
    let a = ThrusterBlockBundle::stamp_from_blueprint(&sent, &mut here);
    let b = ThrusterBlockBundle::stamp_from_blueprint(&received, &mut there);
    assert_eq!(a.pbr, b.pbr);
    assert_eq!(a.name.as_str(), b.name.as_str());

    let sent = SpawnPointBlueprint { at: tilted(), size: bits(4.5), initial_occupation: Some(ClientId::from_raw(u64::MAX - 1)) };
    let received = SpawnPointBlueprint::decode(&sent.encode()).unwrap();
    assert_eq!(received, sent);
    let a = SpawnPointBundle::stamp_from_blueprint(&sent, &mut here);
    let b = SpawnPointBundle::stamp_from_blueprint(&received, &mut there);
    assert_eq!(a.pbr, b.pbr);
    assert_eq!(a.spawn_point, b.spawn_point);

    let sent = PlayerBlueprint::new(ClientId::from_raw(0x1_0000_0002), tilted())
        .with_structure(named_block())
        .with_structure(BlockBlueprint::new_structure(StructureBlock::Aluminum, IVec3::new(0, 0, 0)))
        .with_thruster(thruster());
    let received = PlayerBlueprint::decode(&sent.encode()).unwrap();
    assert_eq!(received.network_id, sent.network_id);
    assert_eq!(received.transform, sent.transform);
    assert_eq!(received.structure_children.len(), 2);
    assert_eq!(received.thruster_children.len(), 1);
    for (x, y) in received.structure_children.iter().zip(&sent.structure_children) {
        same_block(x, y);
    }
    same_block(&received.thruster_children[0], &sent.thruster_children[0]);
    let a = PlayerBundle::stamp_from_blueprint(&sent, &mut here);
    let b = PlayerBundle::stamp_from_blueprint(&received, &mut there);
    assert_eq!(a.name.as_str(), "Player 4294967298");
    assert_eq!(a.name.as_str(), b.name.as_str());
    assert_eq!(a.transform, b.transform);
    assert_eq!(a.player, b.player);
}

#[test]
fn a_free_spawn_point_is_written_with_the_tag_of_nobody() {
    let free = SpawnPointBlueprint::new(Transform::default(), None);
    let words = free.encode();
    assert_eq!(words.len(), 12);
    assert_eq!(words[10], bits(3.0));
    assert_eq!(words[11], 0);
    assert_eq!(SpawnPointBlueprint::decode(&words), Some(free));
    let taken = SpawnPointBlueprint::new(Transform::default(), Some(ClientId::from_raw(0x0000_0007_0000_0009)));
    let words = taken.encode();
    assert_eq!(&words[11..], &[1, 9, 7]);
    assert_eq!(SpawnPointBlueprint::decode(&words), Some(taken));
}

#[test]
fn what_was_not_written_by_the_rules_is_refused() {
    let block = named_block();
    let words = block.encode();
    // cut short
    for cut in 0..words.len() {
        assert!(BlockBlueprint::<StructureBlock>::decode(&words[..cut].to_vec()).is_none(), "cut at {}", cut);
    }
    // something behind it
    let mut longer = words.clone();
    longer.push(0);
    assert!(BlockBlueprint::<StructureBlock>::decode(&longer).is_none());
    // a tag that there is not
    let mut mesh = words.clone();
    mesh[10] = 3;
    assert!(BlockBlueprint::<StructureBlock>::decode(&mesh).is_none());
    let mut marker = words.clone();
    let last = marker.len() - 1;
    marker[last] = 1;
    assert!(BlockBlueprint::<StructureBlock>::decode(&marker).is_none());
    // a number that is no character
    let mut text = words.clone();
    text[13] = 0xD800;
    assert!(BlockBlueprint::<StructureBlock>::decode(&text).is_none());
    text[13] = 0x11_0000;
    assert!(BlockBlueprint::<StructureBlock>::decode(&text).is_none());
    // a length that is a lie
    let mut length = words.clone();
    length[12] = 1;
    assert!(BlockBlueprint::<StructureBlock>::decode(&length).is_none());

    let spawn = SpawnPointBlueprint::default().encode();
    let mut tag = spawn.clone();
    tag[11] = 2;
    assert!(SpawnPointBlueprint::decode(&tag).is_none());
    tag[11] = 1;
    assert!(SpawnPointBlueprint::decode(&tag).is_none());
    assert!(SpawnPointBlueprint::decode(&Vec::new()).is_none());

    let player = PlayerBlueprint::new(ClientId::from_raw(1), Transform::default()).with_thruster(thruster());
    let mut words = player.encode();
    assert!(PlayerBlueprint::decode(&words).is_some());
    words[12] = 1; // claims a structural block that is not there
    assert!(PlayerBlueprint::decode(&words).is_none());
    words[12] = 0;
    words[13] = 0xffff_ffff; // claims more blocks than there could be
    assert!(PlayerBlueprint::decode(&words).is_none());
}

#[test]
fn numbers_and_texts_are_read_where_they_stand() {
    let mut words = vec![99];
    write_u64(0x1234_5678_9abc_def0, &mut words);
    write_text("añ\u{10FFFF}", &mut words);
    write_u64(0, &mut words);
    assert_eq!(words, vec![99, 0x9abc_def0, 0x1234_5678, 3, 0, 0x61, 0xf1, 0x10FFFF, 0, 0]);
    assert_eq!(take_u64(&words, 1), Some((0x1234_5678_9abc_def0, 3)));
    assert_eq!(take_text(&words, 3), Some((String::from("añ\u{10FFFF}"), 8)));
    assert_eq!(take_u64(&words, 8), Some((0, 10)));
    assert_eq!(take_u64(&words, 9), None);
    assert_eq!(take_u64(&words, 10), None);
    assert_eq!(take_text(&words, 8), Some((String::new(), 10)));
}
