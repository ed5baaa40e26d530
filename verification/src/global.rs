//! What the whole project shares: constants, the labels of the tick's phases,
//! render layers and camera orders.

use vstd::prelude::*;
use vstd::std_specs::convert::FromSpecImpl;

pub mod assets;
pub mod blueprints;

verus! {

/// The port a host listens on unless told otherwise.
pub const DEFAULT_PORT: u16 = 5069;

/// The protocol generation spoken between authority and peers.
pub const PROTOCOL_ID: u64 = 0;

/// The edge of one block of the grid, as a scalar: `1.0`.
pub const PIXEL_SIZE: u32 = 0x3F80_0000;

/// Label of the sub-schedule that holds every order-specific gameplay rule.
/// It runs inside the phase [`GlobalSystemSet::ExecuteGameLogic`] and is the
/// only part of a tick that a rollback runs again.
#[derive(Hash, Debug, Clone, Copy, PartialEq, Eq, Structural)]
pub struct GameLogic;

/// The phases of one fixed tick, in the order in which they run.
#[derive(Hash, Debug, PartialEq, Eq, Clone, Copy, Structural)]
pub enum GlobalSystemSet {
    /// One-time setup of the world.
    WorldCreation,
    /// Turns the players' input into motion intents.
    PlayerMovement,
    /// Runs the physics simulation: prepare, step, write back.
    RawPhysics,
    /// Runs the gameplay rules of [`GameLogic`].
    ExecuteGameLogic,
    /// Expands blueprints into local state.
    BlueprintExpansion,
}

impl GlobalSystemSet {
    /// The position of the phase within a tick, from zero.
    pub open spec fn spec_rank(self) -> nat {
        match self {
            GlobalSystemSet::WorldCreation => 0,
            GlobalSystemSet::PlayerMovement => 1,
            GlobalSystemSet::RawPhysics => 2,
            GlobalSystemSet::ExecuteGameLogic => 3,
            GlobalSystemSet::BlueprintExpansion => 4,
        }
    }

    /// The position of the phase within a tick, from zero.
    pub fn rank(self) -> (r: u8)
        ensures
            r == self.spec_rank(),
    {
        match self {
            GlobalSystemSet::WorldCreation => 0,
            GlobalSystemSet::PlayerMovement => 1,
            GlobalSystemSet::RawPhysics => 2,
            GlobalSystemSet::ExecuteGameLogic => 3,
            GlobalSystemSet::BlueprintExpansion => 4,
        }
    }
}

/// The cameras of the user interface, one for each place on the screen.
#[derive(Debug, Clone, Copy, PartialEq, Eq, Structural)]
pub enum UiCameras {
    TopLeft,
    TopMiddle,
    TopRight,
    MiddleLeft,
    Center,
    MiddleRight,
    BottomLeft,
    BottomMiddle,
    BottomRight,
}

impl UiCameras {
    /// The number of the camera: `1` for the top left one, counting along
    /// the rows to `9` for the bottom right one.
    pub open spec fn spec_ordinal(self) -> nat {
        match self {
            UiCameras::TopLeft => 1,
            UiCameras::TopMiddle => 2,
            UiCameras::TopRight => 3,
            UiCameras::MiddleLeft => 4,
            UiCameras::Center => 5,
            UiCameras::MiddleRight => 6,
            UiCameras::BottomLeft => 7,
            UiCameras::BottomMiddle => 8,
            UiCameras::BottomRight => 9,
        }
    }

    /// The number of the camera, from `1` to `9`.
    pub fn ordinal(self) -> (n: u8)
        ensures
            n == self.spec_ordinal(),
            1 <= n <= 9,
    {
        match self {
            UiCameras::TopLeft => 1,
            UiCameras::TopMiddle => 2,
            UiCameras::TopRight => 3,
            UiCameras::MiddleLeft => 4,
            UiCameras::Center => 5,
            UiCameras::MiddleRight => 6,
            UiCameras::BottomLeft => 7,
            UiCameras::BottomMiddle => 8,
            UiCameras::BottomRight => 9,
        }
    }

    /// Every camera, in the order of their numbers.
    pub open spec fn all() -> Seq<UiCameras> {
        seq![
            UiCameras::TopLeft,
            UiCameras::TopMiddle,
            UiCameras::TopRight,
            UiCameras::MiddleLeft,
            UiCameras::Center,
            UiCameras::MiddleRight,
            UiCameras::BottomLeft,
            UiCameras::BottomMiddle,
            UiCameras::BottomRight,
        ]
    }

    /// Every camera once, in the order of their numbers.
    pub fn iter() -> (cameras: Vec<UiCameras>)
        ensures
            cameras@ == UiCameras::all(),
            forall|i: int| 0 <= i < 9 ==> (#[trigger] cameras@[i]).spec_ordinal() == i + 1,
    {
        let cameras = vec![
            UiCameras::TopLeft,
            UiCameras::TopMiddle,
            UiCameras::TopRight,
            UiCameras::MiddleLeft,
            UiCameras::Center,
            UiCameras::MiddleRight,
            UiCameras::BottomLeft,
            UiCameras::BottomMiddle,
            UiCameras::BottomRight,
        ];
        cameras
    }
}

/// The render layers that the project draws on, by purpose.
#[derive(Debug, Clone, Copy, PartialEq, Eq, Structural)]
pub enum GlobalRenderLayers {
    /// The layer of the game itself, which most entities are on.
    InGame,
    /// The layer that only one camera of the user interface draws.
    Ui(UiCameras),
}

/// A set of render layers, numbered from `0` to `31`: bit `n` of the mask is
/// set where layer `n` belongs to the set.
#[derive(Debug, Clone, Copy, PartialEq, Eq, Structural)]
pub struct RenderLayers {
    pub mask: u32,
}

impl RenderLayers {
    /// The set that holds the layer `n` and no other.
    pub open spec fn only(n: nat) -> RenderLayers
        recommends
            n < 32,
    {
        RenderLayers { mask: 1u32 << (n as u32) }
    }

    /// Whether layer `n` belongs to the set.
    pub open spec fn contains(self, n: nat) -> bool
        recommends
            n < 32,
    {
        self.mask & (1u32 << (n as u32)) != 0
    }

    /// The set that holds the layer `n` and no other.
    pub fn layer(n: u8) -> (layers: RenderLayers)
        requires
            n < 32,
        ensures
            layers == RenderLayers::only(n as nat),
    {
        RenderLayers { mask: 1u32 << (n as u32) }
    }
}

impl Default for RenderLayers {
    /// The set that holds layer `0` alone.
    fn default() -> (layers: RenderLayers)
        ensures
            layers == RenderLayers::only(0),
    {
        RenderLayers::layer(0)
    }
}

impl FromSpecImpl<GlobalRenderLayers> for RenderLayers {
    open spec fn obeys_from_spec() -> bool {
        true
    }

    open spec fn from_spec(value: GlobalRenderLayers) -> RenderLayers {
        match value {
            GlobalRenderLayers::InGame => RenderLayers::only(0),
            GlobalRenderLayers::Ui(camera) => RenderLayers::only(camera.spec_ordinal()),
        }
    }
}

impl From<GlobalRenderLayers> for RenderLayers {
    /// The game is drawn on layer `0`, each camera of the user interface on
    /// the layer of its own number.
    fn from(value: GlobalRenderLayers) -> (layers: RenderLayers) {
        match value {
            GlobalRenderLayers::InGame => RenderLayers::layer(0),
            GlobalRenderLayers::Ui(camera) => RenderLayers::layer(camera.ordinal()),
        }
    }
}

/// The order in which cameras draw, by purpose: a camera with a higher
/// order draws over one with a lower order.
#[derive(Debug, Clone, Copy, PartialEq, Eq, Structural)]
pub enum GlobalCameraOrders {
    /// The camera of the game itself, which draws first.
    InGame,
    /// A camera of the user interface.
    Ui(UiCameras),
}

impl GlobalCameraOrders {
    /// The order of the camera: `0` for the game, the camera's number for
    /// one of the user interface.
    pub open spec fn spec_order(self) -> int {
        match self {
            GlobalCameraOrders::InGame => 0,
            GlobalCameraOrders::Ui(camera) => camera.spec_ordinal() as int,
        }
    }
}

impl FromSpecImpl<GlobalCameraOrders> for isize {
    open spec fn obeys_from_spec() -> bool {
        true
    }

    open spec fn from_spec(value: GlobalCameraOrders) -> isize {
        value.spec_order() as isize
    }
}

impl From<GlobalCameraOrders> for isize {
    fn from(value: GlobalCameraOrders) -> (order: isize) {
        match value {
            GlobalCameraOrders::InGame => 0,
            GlobalCameraOrders::Ui(camera) => camera.ordinal() as isize,
        }
    }
}

/// The layers of two different cameras of the user interface have nothing in
/// common, and none of them holds the layer of the game.
pub proof fn lemma_ui_layers_are_apart(a: UiCameras, b: UiCameras)
    ensures
        !RenderLayers::only(a.spec_ordinal()).contains(0),
        RenderLayers::only(a.spec_ordinal()).contains(a.spec_ordinal()),
        a != b ==> !RenderLayers::only(a.spec_ordinal()).contains(b.spec_ordinal()),
{
    let m = a.spec_ordinal() as u32;
    let n = b.spec_ordinal() as u32;
    assert((1u32 << m) & (1u32 << 0u32) == 0) by (bit_vector)
        requires
            1 <= m <= 9,
    ;
    assert((1u32 << m) & (1u32 << m) != 0) by (bit_vector)
        requires
            1 <= m <= 9,
    ;
    if a != b {
        assert((1u32 << m) & (1u32 << n) == 0) by (bit_vector)
            requires
                1 <= m <= 9,
                1 <= n <= 9,
                m != n,
        ;
    }
}

} // verus!
