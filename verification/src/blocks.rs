//! Blocks: the identifier of a persistent block, the blueprint that
//! describes one, and the descriptions of its mesh and material.

use vstd::prelude::*;
use crate::global::assets::{interned, lemma_interned, position, Assets, Handle, MMAView, Mesh, StandardMaterial, MMA};
use crate::global::PIXEL_SIZE;
use crate::math::{Color, Transform, Vec3};

pub mod manual_builder;
pub mod structure_block;

pub use structure_block::{StructureBlock, StructureBlockBundle};

verus! {

/// The identifier of a persistent block: 128 bits drawn at random when the
/// block is made, and never changed afterwards. There is no identifier
/// that stands for "none", and none can be made without drawing one.
#[derive(Debug, Clone, Copy, PartialEq, Eq, Hash, Structural)]
pub struct BlockId {
    bits: u128,
}

/// Draws 128 bits from the random generator of the running thread, through
/// `rand::random`. Nothing is known of them beforehand.
#[verifier::external_body]
fn random_bits() -> u128 {
    rand::random::<u128>()
}

impl BlockId {
    /// The 128 bits that the identifier is.
    pub closed spec fn spec_to_bits(self) -> u128 {
        self.bits
    }

    /// A fresh identifier, drawn at random.
    pub fn random() -> BlockId {
        BlockId { bits: random_bits() }
    }

    /// The 128 bits that the identifier is, as they go over the wire.
    #[verifier::when_used_as_spec(spec_to_bits)]
    pub fn to_bits(self) -> (bits: u128)
        ensures
            bits == self.spec_to_bits(),
    {
        self.bits
    }

    /// The identifier that came over the wire as `bits`.
    pub fn from_bits(bits: u128) -> (id: BlockId)
        ensures
            id.spec_to_bits() == bits,
    {
        BlockId { bits }
    }
}

/// An identifier is its 128 bits: what comes back from the wire is the
/// identifier that was sent.
pub proof fn lemma_block_id_by_bits(a: BlockId, b: BlockId)
    ensures
        a.spec_to_bits() == b.spec_to_bits() <==> a == b,
{
}

/// The mesh of a block, described so that it can be sent.
#[derive(Debug)]
pub enum OptimizableMesh {
    /// The cube that every ordinary block is.
    StandardBlock,
    /// A box of the given extents.
    CustomRectangularPrism { size: Vec3 },
    /// The asset of this name.
    FromAsset(String),
}

/// The description of a mesh as contracts see it.
pub enum OptimizableMeshView {
    StandardBlock,
    CustomRectangularPrism { size: Vec3 },
    FromAsset(Seq<char>),
}

impl View for OptimizableMesh {
    type V = OptimizableMeshView;

    open spec fn view(&self) -> OptimizableMeshView {
        match self {
            OptimizableMesh::StandardBlock => OptimizableMeshView::StandardBlock,
            OptimizableMesh::CustomRectangularPrism { size } => OptimizableMeshView::CustomRectangularPrism {
                size: *size,
            },
            OptimizableMesh::FromAsset(name) => OptimizableMeshView::FromAsset(name@),
        }
    }
}

impl Clone for OptimizableMesh {
    fn clone(&self) -> (mesh: OptimizableMesh)
        ensures
            mesh@ == self@,
    {
        match self {
            OptimizableMesh::StandardBlock => OptimizableMesh::StandardBlock,
            OptimizableMesh::CustomRectangularPrism { size } => OptimizableMesh::CustomRectangularPrism {
                size: *size,
            },
            OptimizableMesh::FromAsset(name) => OptimizableMesh::FromAsset(name.clone()),
        }
    }
}

impl OptimizableMeshView {
    /// The generated mesh that the description asks for, if it asks for one.
    pub open spec fn generated(self) -> Option<Mesh> {
        match self {
            OptimizableMeshView::StandardBlock => Some(Mesh::Cube { size: PIXEL_SIZE }),
            OptimizableMeshView::CustomRectangularPrism { size } => Some(
                Mesh::Box { x_length: size.x, y_length: size.y, z_length: size.z },
            ),
            OptimizableMeshView::FromAsset(_) => None,
        }
    }

    /// The handle that the description resolves to against `cache`: that of
    /// the interned mesh for a generated one; for a named one that of the
    /// catalogue's entry, or the placeholder where the catalogue has none.
    pub open spec fn handle(self, cache: MMAView) -> Handle {
        match self {
            OptimizableMeshView::FromAsset(name) => if position(cache.ass, name) < cache.ass.len() {
                Handle::Loaded(position(cache.ass, name) as usize)
            } else {
                Handle::Placeholder
            },
            _ => Handle::Stored(position(cache.meshs, self.generated().unwrap()) as usize),
        }
    }

    /// What resolving the description leaves of `cache`: a generated mesh is
    /// interned, a named one changes nothing.
    pub open spec fn cache_after(self, cache: MMAView) -> MMAView {
        match self.generated() {
            Some(mesh) => MMAView { meshs: interned(cache.meshs, mesh), ..cache },
            None => cache,
        }
    }

    /// Whether the description names an asset that `cache` does not have.
    pub open spec fn is_missing(self, cache: MMAView) -> bool {
        self is FromAsset && self.handle(cache) == Handle::Placeholder
    }

    /// Resolving only adds to the cache.
    pub proof fn lemma_cache_grows(self, cache: MMAView)
        ensures
            self.cache_after(cache).extends(cache),
    {
        match self.generated() {
            Some(mesh) => {
                lemma_interned(cache.meshs, mesh);
            },
            None => {},
        }
        assert(cache.mats.take(cache.mats.len() as int) == cache.mats);
        assert(cache.meshs.take(cache.meshs.len() as int) == cache.meshs);
    }

    /// Resolving the same description once more yields the same handle and
    /// changes nothing.
    pub proof fn lemma_resolves_once(self, cache: MMAView)
        ensures
            self.handle(self.cache_after(cache)) == self.handle(cache),
            self.cache_after(self.cache_after(cache)) == self.cache_after(cache),
    {
        match self.generated() {
            Some(mesh) => {
                lemma_interned(cache.meshs, mesh);
            },
            None => {},
        }
    }
}

impl OptimizableMesh {
    /// Resolves the description against the cache and returns the handle of
    /// the mesh. A named asset that the catalogue lacks is no failure: the
    /// placeholder stands in for it.
    pub fn get_mesh(&self, mma: &mut MMA) -> (handle: Handle)
        ensures
            handle == self@.handle(old(mma)@),
            final(mma)@ == self@.cache_after(old(mma)@),
            handle == Handle::Placeholder <==> self@.is_missing(old(mma)@),
    {
        match self {
            OptimizableMesh::FromAsset(name) => {
                match mma.ass.load(name.as_str()) {
                    Some(handle) => handle,
                    None => Handle::Placeholder,
                }
            },
            OptimizableMesh::StandardBlock => mma.meshs.add(Mesh::Cube { size: PIXEL_SIZE }),
            OptimizableMesh::CustomRectangularPrism { size } => mma.meshs.add(
                Mesh::Box { x_length: size.x, y_length: size.y, z_length: size.z },
            ),
        }
    }
}

/// The material of a block, described so that it can be sent.
#[derive(Debug, Clone, Copy, PartialEq, Eq, Structural)]
pub enum OptimizableMaterial {
    /// A flat, opaque surface of one colour.
    OpaqueColour(Color),
}

impl OptimizableMaterial {
    /// The material that the description asks for.
    pub open spec fn material(self) -> StandardMaterial {
        match self {
            OptimizableMaterial::OpaqueColour(colour) => StandardMaterial::of_colour(colour),
        }
    }

    /// The handle that the description resolves to against `cache`.
    pub open spec fn handle(self, cache: MMAView) -> Handle {
        Handle::Stored(position(cache.mats, self.material()) as usize)
    }

    /// What resolving the description leaves of `cache`.
    pub open spec fn cache_after(self, cache: MMAView) -> MMAView {
        MMAView { mats: interned(cache.mats, self.material()), ..cache }
    }

    /// Resolving only adds to the cache.
    pub proof fn lemma_cache_grows(self, cache: MMAView)
        ensures
            self.cache_after(cache).extends(cache),
    {
        lemma_interned(cache.mats, self.material());
        assert(cache.meshs.take(cache.meshs.len() as int) == cache.meshs);
    }

    /// Resolving the same description once more yields the same handle and
    /// changes nothing.
    pub proof fn lemma_resolves_once(self, cache: MMAView)
        ensures
            self.handle(self.cache_after(cache)) == self.handle(cache),
            self.cache_after(self.cache_after(cache)) == self.cache_after(cache),
    {
        lemma_interned(cache.mats, self.material());
    }

    /// Interns the material in `mat` and returns its handle.
    pub fn get_material(&self, mat: &mut Assets<StandardMaterial>) -> (handle: Handle)
        ensures
            handle == Handle::Stored(position(old(mat)@, self.material()) as usize),
            final(mat)@ == interned(old(mat)@, self.material()),
    {
        match self {
            OptimizableMaterial::OpaqueColour(colour) => mat.add(StandardMaterial::from_colour(*colour)),
        }
    }
}

/// What it takes to make a block: where it is, its mesh, its material, and
/// what kind of block it is. Pure data, sent as it stands.
#[derive(Debug)]
pub struct BlockBlueprint<T> {
    pub transform: Transform,
    pub mesh: OptimizableMesh,
    pub material: OptimizableMaterial,
    pub specific_marker: T,
}

/// A block's blueprint as contracts see it.
pub struct BlockBlueprintView<T> {
    pub transform: Transform,
    pub mesh: OptimizableMeshView,
    pub material: OptimizableMaterial,
    pub specific_marker: T,
}

impl<T> View for BlockBlueprint<T> {
    type V = BlockBlueprintView<T>;

    open spec fn view(&self) -> BlockBlueprintView<T> {
        BlockBlueprintView {
            transform: self.transform,
            mesh: self.mesh@,
            material: self.material,
            specific_marker: self.specific_marker,
        }
    }
}

impl<T: Copy> Clone for BlockBlueprint<T> {
    fn clone(&self) -> (blueprint: BlockBlueprint<T>)
        ensures
            blueprint@ == self@,
    {
        BlockBlueprint {
            transform: self.transform,
            mesh: self.mesh.clone(),
            material: self.material,
            specific_marker: self.specific_marker,
        }
    }
}

} // verus!
