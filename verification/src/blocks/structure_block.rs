//! The blocks that a structure is built of.

use vstd::prelude::*;
use vstd::string::StringExecFns;
use crate::blocks::manual_builder::RelativePixel;
use crate::blocks::{BlockBlueprint, BlockBlueprintView, OptimizableMaterial, OptimizableMesh, OptimizableMeshView};
use crate::components::{AsyncCollider, ComputedCollider, Name, PbrBundle};
use crate::global::assets::{MMAView, MMA};
use crate::global::blueprints::FromBlueprint;
use crate::math::{Color, Transform};

verus! {

/// The kinds of structural block.
#[derive(Debug, Clone, Copy, PartialEq, Eq, Structural)]
pub enum StructureBlock {
    Aluminum,
}

impl StructureBlock {
    /// The name of the kind.
    pub open spec fn spec_name(self) -> Seq<char> {
        match self {
            StructureBlock::Aluminum => "Aluminum"@,
        }
    }

    /// The name of the kind, as it is written in the source.
    pub fn name(&self) -> (name: &'static str)
        ensures
            name@ == self.spec_name(),
    {
        match self {
            StructureBlock::Aluminum => "Aluminum",
        }
    }
}

/// What a structural block is on the peer that shows it: its picture, the
/// request for its collision shape, and its name.
pub struct StructureBlockBundle {
    pub pbr: PbrBundle,
    pub collider: AsyncCollider,
    pub name: Name,
}

/// A structural block's bundle as contracts see it.
pub struct StructureBlockBundleView {
    pub pbr: PbrBundle,
    pub collider: AsyncCollider,
    pub name: Seq<char>,
}

impl View for StructureBlockBundle {
    type V = StructureBlockBundleView;

    open spec fn view(&self) -> StructureBlockBundleView {
        StructureBlockBundleView { pbr: self.pbr, collider: self.collider, name: self.name@ }
    }
}

impl FromBlueprint for StructureBlockBundle {
    type Blueprint = BlockBlueprint<StructureBlock>;

    /// The block is drawn where the blueprint puts it, with the blueprint's
    /// mesh resolved first and its material second; its collision shape is
    /// the convex hull of the mesh; it is named after its kind.
    open spec fn stamped(
        blueprint: BlockBlueprintView<StructureBlock>,
        cache: MMAView,
    ) -> StructureBlockBundleView {
        StructureBlockBundleView {
            pbr: PbrBundle {
                transform: blueprint.transform,
                mesh: blueprint.mesh.handle(cache),
                material: blueprint.material.handle(blueprint.mesh.cache_after(cache)),
            },
            collider: AsyncCollider(ComputedCollider::ConvexHull),
            name: "StructureBlock "@ + blueprint.specific_marker.spec_name(),
        }
    }

    open spec fn cache_after(blueprint: BlockBlueprintView<StructureBlock>, cache: MMAView) -> MMAView {
        blueprint.material.cache_after(blueprint.mesh.cache_after(cache))
    }

    proof fn lemma_cache_grows(blueprint: BlockBlueprintView<StructureBlock>, cache: MMAView) {
        let after_mesh = blueprint.mesh.cache_after(cache);
        blueprint.mesh.lemma_cache_grows(cache);
        blueprint.material.lemma_cache_grows(after_mesh);
        Self::cache_after(blueprint, cache).lemma_extends_transitive(after_mesh, cache);
    }

    proof fn lemma_restamp(blueprint: BlockBlueprintView<StructureBlock>, cache: MMAView) {
        blueprint.mesh.lemma_resolves_once(cache);
        blueprint.material.lemma_resolves_once(cache);
    }

    fn stamp_from_blueprint(blueprint: &BlockBlueprint<StructureBlock>, mma: &mut MMA) -> (bundle:
        StructureBlockBundle) {
        let mesh = blueprint.mesh.get_mesh(mma);
        let material = blueprint.material.get_material(&mut mma.mats);
        let mut text = String::from_str("StructureBlock ");
        text.append(blueprint.specific_marker.name());
        StructureBlockBundle {
            pbr: PbrBundle { transform: blueprint.transform, mesh, material },
            collider: AsyncCollider(ComputedCollider::ConvexHull),
            name: Name::new(text),
        }
    }
}

impl BlockBlueprint<StructureBlock> {
    /// The blueprint of a structural block of the given kind at a place on
    /// the grid: a standard block of silver colour, unrotated, at scale one.
    pub open spec fn structure_at(block: StructureBlock, location: RelativePixel) -> BlockBlueprintView<
        StructureBlock,
    > {
        BlockBlueprintView {
            transform: Transform::at(location.spec_as_vec3()),
            mesh: OptimizableMeshView::StandardBlock,
            material: OptimizableMaterial::OpaqueColour(Color::spec_silver()),
            specific_marker: block,
        }
    }

    /// The blueprint of a structural block of the given kind at a place on
    /// the grid. One step on the grid is one block's edge, which is one
    /// unit of length.
    pub fn new_structure(block: StructureBlock, location: RelativePixel) -> (blueprint: Self)
        ensures
            blueprint@ == Self::structure_at(block, location),
    {
        BlockBlueprint {
            transform: Transform::from_translation(location.as_vec3()),
            mesh: OptimizableMesh::StandardBlock,
            material: OptimizableMaterial::OpaqueColour(Color::silver()),
            specific_marker: block,
        }
    }
}

} // verus!
