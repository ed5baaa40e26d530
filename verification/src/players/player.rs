//! The player: its blueprint, which carries the blueprints of its blocks,
//! and the bundle that the owner entity gets.

use vstd::prelude::*;
use vstd::string::StringExecFns;
use crate::blocks::structure_block::StructureBlock;
use crate::blocks::{BlockBlueprint, BlockBlueprintView};
use crate::components::{decimal, decimal_string, ClientId, Name};
use crate::global::assets::{MMAView, MMA};
use crate::global::blueprints::FromBlueprint;
use crate::math::Transform;
use crate::players::thruster_block::ThrusterBlock;

verus! {

/// Marks the entity that a client steers.
#[derive(Debug, Clone, Copy, PartialEq, Eq, Structural)]
pub struct ControllablePlayer {
    pub network_id: ClientId,
}

impl ControllablePlayer {
    /// The client that steers this player.
    pub fn get_id(&self) -> (id: ClientId)
        ensures
            id == self.network_id,
    {
        self.network_id
    }
}

/// What it takes to make a player: the client that owns it, where it is,
/// and the blueprints of its structural blocks and of its thrusters, each
/// list in the order in which the blocks are to be made.
pub struct PlayerBlueprint {
    pub network_id: ClientId,
    pub transform: Transform,
    pub structure_children: Vec<BlockBlueprint<StructureBlock>>,
    pub thruster_children: Vec<BlockBlueprint<ThrusterBlock>>,
}

/// A player's blueprint as contracts see it.
pub struct PlayerBlueprintView {
    pub network_id: ClientId,
    pub transform: Transform,
    pub structure_children: Seq<BlockBlueprintView<StructureBlock>>,
    pub thruster_children: Seq<BlockBlueprintView<ThrusterBlock>>,
}

impl View for PlayerBlueprint {
    type V = PlayerBlueprintView;

    open spec fn view(&self) -> PlayerBlueprintView {
        PlayerBlueprintView {
            network_id: self.network_id,
            transform: self.transform,
            structure_children: self.structure_children@.map_values(
                |b: BlockBlueprint<StructureBlock>| b@,
            ),
            thruster_children: self.thruster_children@.map_values(
                |b: BlockBlueprint<ThrusterBlock>| b@,
            ),
        }
    }
}

impl PlayerBlueprint {
    /// The blueprint of a player without blocks.
    pub fn new(network_id: ClientId, transform: Transform) -> (blueprint: PlayerBlueprint)
        ensures
            blueprint@ == (PlayerBlueprintView {
                network_id,
                transform,
                structure_children: Seq::empty(),
                thruster_children: Seq::empty(),
            }),
    {
        let blueprint = PlayerBlueprint {
            network_id,
            transform,
            structure_children: Vec::new(),
            thruster_children: Vec::new(),
        };
        assert(blueprint@.structure_children =~= Seq::empty());
        assert(blueprint@.thruster_children =~= Seq::empty());
        blueprint
    }

    /// The same blueprint with one more structural block, behind the others.
    pub fn with_structure(self, child: BlockBlueprint<StructureBlock>) -> (blueprint: PlayerBlueprint)
        ensures
            blueprint@ == (PlayerBlueprintView {
                structure_children: self@.structure_children.push(child@),
                ..self@
            }),
    {
        let mut blueprint = self;
        blueprint.structure_children.push(child);
        assert(blueprint@.structure_children =~= self@.structure_children.push(child@));
        blueprint
    }

    /// The same blueprint with one more thruster, behind the others.
    pub fn with_thruster(self, child: BlockBlueprint<ThrusterBlock>) -> (blueprint: PlayerBlueprint)
        ensures
            blueprint@ == (PlayerBlueprintView {
                thruster_children: self@.thruster_children.push(child@),
                ..self@
            }),
    {
        let mut blueprint = self;
        blueprint.thruster_children.push(child);
        assert(blueprint@.thruster_children =~= self@.thruster_children.push(child@));
        blueprint
    }
}

/// What the owner entity of a player is on the peer that shows it.
pub struct PlayerBundle {
    pub name: Name,
    pub transform: Transform,
    pub player: ControllablePlayer,
}

/// A player's bundle as contracts see it.
pub struct PlayerBundleView {
    pub name: Seq<char>,
    pub transform: Transform,
    pub player: ControllablePlayer,
}

impl View for PlayerBundle {
    type V = PlayerBundleView;

    open spec fn view(&self) -> PlayerBundleView {
        PlayerBundleView { name: self.name@, transform: self.transform, player: self.player }
    }
}

impl FromBlueprint for PlayerBundle {
    type Blueprint = PlayerBlueprint;

    /// The owner is named after its client's number, stands where the
    /// blueprint puts it, and is steered by that client. Its blocks are no
    /// part of the bundle: they become entities of their own.
    open spec fn stamped(blueprint: PlayerBlueprintView, cache: MMAView) -> PlayerBundleView {
        PlayerBundleView {
            name: "Player "@ + decimal(blueprint.network_id.spec_raw() as nat),
            transform: blueprint.transform,
            player: ControllablePlayer { network_id: blueprint.network_id },
        }
    }

    open spec fn cache_after(blueprint: PlayerBlueprintView, cache: MMAView) -> MMAView {
        cache
    }

    proof fn lemma_cache_grows(blueprint: PlayerBlueprintView, cache: MMAView) {
        assert(cache.meshs.take(cache.meshs.len() as int) == cache.meshs);
        assert(cache.mats.take(cache.mats.len() as int) == cache.mats);
    }

    proof fn lemma_restamp(blueprint: PlayerBlueprintView, cache: MMAView) {
    }

    fn stamp_from_blueprint(blueprint: &PlayerBlueprint, mma: &mut MMA) -> (bundle: PlayerBundle) {
        let mut text = String::from_str("Player ");
        let number = decimal_string(blueprint.network_id.raw());
        text.append(number.as_str());
        PlayerBundle {
            name: Name::new(text),
            transform: blueprint.transform,
            player: ControllablePlayer { network_id: blueprint.network_id },
        }
    }
}

} // verus!
