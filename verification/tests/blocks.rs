use blueprint_sim::blocks::manual_builder::Facing;
use blueprint_sim::blocks::structure_block::StructureBlock;
use blueprint_sim::blocks::{BlockBlueprint, BlockId, OptimizableMaterial, OptimizableMesh};
use blueprint_sim::math::{scalar_from_i32, Color, IVec3, Quat, Transform, Vec3};

fn bits(x: f32) -> u32 {
    x.to_bits()
}

#[test]
fn structure_block_is_named_after_its_kind() {
    assert_eq!(StructureBlock::Aluminum.name(), "Aluminum");
}

#[test]
fn new_structure_is_a_silver_standard_block_at_its_place() {
    let blueprint = BlockBlueprint::new_structure(StructureBlock::Aluminum, IVec3::new(1, -2, 3));
    assert_eq!(blueprint.transform.translation, Vec3::new(bits(1.0), bits(-2.0), bits(3.0)));
    assert_eq!(blueprint.transform.rotation, Quat { x: bits(0.0), y: bits(0.0), z: bits(0.0), w: bits(1.0) });
    assert_eq!(blueprint.transform.scale, Vec3::new(bits(1.0), bits(1.0), bits(1.0)));
    assert!(matches!(blueprint.mesh, OptimizableMesh::StandardBlock));
    assert_eq!(
        blueprint.material,
        OptimizableMaterial::OpaqueColour(Color { r: bits(0.75), g: bits(0.75), b: bits(0.75), a: bits(1.0) })
    );
    assert_eq!(blueprint.specific_marker, StructureBlock::Aluminum);
}

#[test]
fn integers_convert_as_a_cast_does() {
    let samples: [i32; 24] = [
        0, 1, -1, 2, 3, 7, 10, -10, 255, 256, 1000, 16_777_215, 16_777_216, 16_777_217, 16_777_218,
        16_777_219, 33_554_431, 33_554_433, -33_554_435, 123_456_789, -987_654_321, i32::MAX,
        i32::MIN, i32::MIN + 1,
    ];
    for v in samples {
        assert_eq!(scalar_from_i32(v), bits(v as f32), "for {}", v);
    }
}

#[test]
fn facing_right_is_a_quarter_turn_about_z() {
    let q = Facing::Right.into_quat();
    assert_eq!(q.x, bits(0.0));
    assert_eq!(q.y, bits(0.0));
    let half_angle = std::f32::consts::FRAC_PI_4;
    assert!((f32::from_bits(q.z) - half_angle.sin()).abs() < 1e-6);
    assert!((f32::from_bits(q.w) - half_angle.cos()).abs() < 1e-6);
}

#[test]
fn block_ids_go_over_the_wire_as_their_bits() {
    let id = BlockId::random();
    assert_eq!(BlockId::from_bits(id.to_bits()), id);
    assert_eq!(BlockId::from_bits(7).to_bits(), 7);
}

#[test]
fn random_block_ids_differ() {
    let a = BlockId::random();
    let b = BlockId::random();
    let c = BlockId::random();
    assert!(a != b || b != c);
}

#[test]
fn default_transform_is_the_identity() {
    let t = Transform::default();
    assert_eq!(t, Transform::from_translation(Vec3::new(0, 0, 0)));
}
