//! The blocks that push a player along.

use vstd::prelude::*;
use vstd::string::StringExecFns;
use crate::blocks::{BlockBlueprint, BlockBlueprintView};
use crate::components::{AsyncCollider, ComputedCollider, Name, PbrBundle};
use crate::global::assets::{MMAView, MMA};
use crate::global::blueprints::FromBlueprint;

verus! {

/// Marks the blueprint of a thruster.
#[derive(Debug, Clone, Copy, PartialEq, Eq, Structural)]
pub struct ThrusterBlock;

/// What a thruster is on the peer that shows it.
pub struct ThrusterBlockBundle {
    pub pbr: PbrBundle,
    pub collider: AsyncCollider,
    pub name: Name,
}

/// A thruster's bundle as contracts see it.
pub struct ThrusterBlockBundleView {
    pub pbr: PbrBundle,
    pub collider: AsyncCollider,
    pub name: Seq<char>,
}

impl View for ThrusterBlockBundle {
    type V = ThrusterBlockBundleView;

    open spec fn view(&self) -> ThrusterBlockBundleView {
        ThrusterBlockBundleView { pbr: self.pbr, collider: self.collider, name: self.name@ }
    }
}

impl FromBlueprint for ThrusterBlockBundle {
    type Blueprint = BlockBlueprint<ThrusterBlock>;

    /// The thruster is drawn where the blueprint puts it, with the
    /// blueprint's mesh resolved first and its material second; its
    /// collision shape is the convex hull of the mesh.
    open spec fn stamped(
        blueprint: BlockBlueprintView<ThrusterBlock>,
        cache: MMAView,
    ) -> ThrusterBlockBundleView {
        ThrusterBlockBundleView {
            pbr: PbrBundle {
                transform: blueprint.transform,
                mesh: blueprint.mesh.handle(cache),
                material: blueprint.material.handle(blueprint.mesh.cache_after(cache)),
            },
            collider: AsyncCollider(ComputedCollider::ConvexHull),
            name: "ThrusterBlock"@,
        }
    }

    open spec fn cache_after(blueprint: BlockBlueprintView<ThrusterBlock>, cache: MMAView) -> MMAView {
        blueprint.material.cache_after(blueprint.mesh.cache_after(cache))
    }

    proof fn lemma_cache_grows(blueprint: BlockBlueprintView<ThrusterBlock>, cache: MMAView) {
        let after_mesh = blueprint.mesh.cache_after(cache);
        blueprint.mesh.lemma_cache_grows(cache);
        blueprint.material.lemma_cache_grows(after_mesh);
        Self::cache_after(blueprint, cache).lemma_extends_transitive(after_mesh, cache);
    }

    proof fn lemma_restamp(blueprint: BlockBlueprintView<ThrusterBlock>, cache: MMAView) {
        blueprint.mesh.lemma_resolves_once(cache);
        blueprint.material.lemma_resolves_once(cache);
    }

    fn stamp_from_blueprint(blueprint: &BlockBlueprint<ThrusterBlock>, mma: &mut MMA) -> (bundle:
        ThrusterBlockBundle) {
        let mesh = blueprint.mesh.get_mesh(mma);
        let material = blueprint.material.get_material(&mut mma.mats);
        ThrusterBlockBundle {
            pbr: PbrBundle { transform: blueprint.transform, mesh, material },
            collider: AsyncCollider(ComputedCollider::ConvexHull),
            name: Name::new(String::from_str("ThrusterBlock")),
        }
    }
}

} // verus!
