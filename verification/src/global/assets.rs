//! The shared asset cache that stamping works against: a table of generated
//! meshes, a table of materials and the catalogue of assets known by name.
//!
//! The tables intern what they are given. Asking twice for the same mesh or
//! material yields the same handle and leaves the table as it was, so a
//! handle stands for one description, and a table only ever grows.

use vstd::prelude::*;
use vstd::string::StringExecFns;
use crate::math::{Color, ZERO};

verus! {

/// The scalar `1.5`, the index of refraction that a material has unless it
/// names another.
pub const DEFAULT_IOR: u32 = 0x3FC0_0000;

/// The number of sectors of a sphere that names none.
pub const DEFAULT_SECTORS: u32 = 36;

/// The number of stacks of a sphere that names none.
pub const DEFAULT_STACKS: u32 = 18;

/// The geometry of a generated mesh. Lengths are scalars.
#[derive(Clone, Copy, Debug, PartialEq, Eq, Structural)]
pub enum Mesh {
    /// A cube with the given edge.
    Cube { size: u32 },
    /// A box with the given extents along the three axes.
    Box { x_length: u32, y_length: u32, z_length: u32 },
    /// A sphere made of sectors around and stacks from pole to pole.
    UvSphere { radius: u32, sectors: u32, stacks: u32 },
}

/// A flat, opaque surface.
#[derive(Clone, Copy, Debug, PartialEq, Eq, Structural)]
pub struct StandardMaterial {
    pub base_color: Color,
    pub emissive: Color,
    pub specular_transmission: u32,
    pub thickness: u32,
    pub ior: u32,
}

impl StandardMaterial {
    /// The material of the given colour that is otherwise the default one:
    /// it emits nothing, lets nothing through and has no thickness.
    pub open spec fn of_colour(colour: Color) -> StandardMaterial {
        StandardMaterial {
            base_color: colour,
            emissive: Color::spec_black(),
            specular_transmission: ZERO,
            thickness: ZERO,
            ior: DEFAULT_IOR,
        }
    }

    /// The material of the given colour that is otherwise the default one.
    pub fn from_colour(colour: Color) -> (material: StandardMaterial)
        ensures
            material == StandardMaterial::of_colour(colour),
    {
        StandardMaterial {
            base_color: colour,
            emissive: Color::black(),
            specular_transmission: ZERO,
            thickness: ZERO,
            ior: DEFAULT_IOR,
        }
    }
}

impl Default for StandardMaterial {
    /// The white material.
    fn default() -> (material: StandardMaterial)
        ensures
            material == StandardMaterial::of_colour(Color::spec_white()),
    {
        StandardMaterial::from_colour(Color::white())
    }
}

/// What a presentation bundle holds in place of a mesh or a material.
#[derive(Clone, Copy, Debug, PartialEq, Eq, Structural)]
pub enum Handle {
    /// Stands in for an asset that could not be found.
    Placeholder,
    /// The entry of a table of generated assets at this index.
    Stored(usize),
    /// The entry of the catalogue of named assets at this index.
    Loaded(usize),
}

/// Whether `i` is the first place at which `s` holds `a`.
pub open spec fn is_first_index<A>(s: Seq<A>, a: A, i: int) -> bool {
    &&& 0 <= i < s.len()
    &&& s[i] == a
    &&& forall|j: int| 0 <= j < i ==> s[j] != a
}

/// The first place at which `s` holds `a`; the length of `s` where it holds
/// `a` nowhere, which is the place that `a` gets when it is appended.
pub open spec fn position<A>(s: Seq<A>, a: A) -> int {
    if exists|i: int| is_first_index(s, a, i) {
        choose|i: int| is_first_index(s, a, i)
    } else {
        s.len() as int
    }
}

/// `s` with `a` appended unless `s` holds it already.
pub open spec fn interned<A>(s: Seq<A>, a: A) -> Seq<A> {
    if position(s, a) < s.len() {
        s
    } else {
        s.push(a)
    }
}

/// Whether `s` starts with all of `earlier`, in the same order.
pub open spec fn extends<A>(s: Seq<A>, earlier: Seq<A>) -> bool {
    earlier.len() <= s.len() && s.take(earlier.len() as int) == earlier
}

/// A place that meets `is_first_index` is the position.
pub proof fn lemma_position_found<A>(s: Seq<A>, a: A, i: int)
    requires
        is_first_index(s, a, i),
    ensures
        position(s, a) == i,
{
}

/// Where `s` holds `a` nowhere, the position is the length.
pub proof fn lemma_position_absent<A>(s: Seq<A>, a: A)
    requires
        forall|j: int| 0 <= j < s.len() ==> s[j] != a,
    ensures
        position(s, a) == s.len(),
{
    if exists|i: int| is_first_index(s, a, i) {
        let i = choose|i: int| is_first_index(s, a, i);
        assert(s[i] != a);
    }
}

/// The position lies within the sequence or just behind it, and interning
/// puts the value at its position without moving any other.
pub proof fn lemma_interned<A>(s: Seq<A>, a: A)
    ensures
        0 <= position(s, a) <= s.len(),
        position(s, a) < s.len() ==> s[position(s, a)] == a,
        interned(s, a)[position(s, a)] == a,
        extends(interned(s, a), s),
        position(interned(s, a), a) == position(s, a),
        interned(interned(s, a), a) == interned(s, a),
{
    if exists|i: int| is_first_index(s, a, i) {
        assert(s.take(s.len() as int) == s);
    } else {
        assert forall|j: int| 0 <= j < s.len() implies s[j] != a by {
            if s[j] == a {
                lemma_first_exists(s, a, j);
            }
        }
        assert(s.push(a).take(s.len() as int) == s);
        lemma_position_found(s.push(a), a, s.len() as int);
    }
}

/// Where `s` holds `a` at `j`, it holds it at a first place.
proof fn lemma_first_exists<A>(s: Seq<A>, a: A, j: int)
    requires
        0 <= j < s.len(),
        s[j] == a,
    ensures
        exists|i: int| is_first_index(s, a, i),
    decreases j,
{
    if forall|k: int| 0 <= k < j ==> s[k] != a {
        assert(is_first_index(s, a, j));
    } else {
        let k = choose|k: int| 0 <= k < j && s[k] == a;
        lemma_first_exists(s, a, k);
    }
}

/// A table of generated assets, each held once.
pub struct Assets<A> {
    items: Vec<A>,
}

impl<A> View for Assets<A> {
    type V = Seq<A>;

    closed spec fn view(&self) -> Seq<A> {
        self.items@
    }
}

impl<A> Assets<A> {
    /// The empty table.
    pub fn new() -> (assets: Assets<A>)
        ensures
            assets@ == Seq::<A>::empty(),
    {
        Assets { items: Vec::new() }
    }

    /// How many assets the table holds.
    pub fn len(&self) -> (n: usize)
        ensures
            n == self@.len(),
    {
        self.items.len()
    }

    /// The asset that `handle` stands for, if it is one of this table.
    pub fn get(&self, handle: Handle) -> (asset: Option<&A>)
        ensures
            asset == match handle {
                Handle::Stored(i) if i < self@.len() => Some(&self@[i as int]),
                _ => None,
            },
    {
        match handle {
            Handle::Stored(i) => {
                if i < self.items.len() {
                    Some(&self.items[i])
                } else {
                    None
                }
            },
            _ => None,
        }
    }
}

impl Assets<Mesh> {
    /// Interns `mesh` and returns its handle: that of the entry equal to it
    /// where there is one, that of a new last entry otherwise.
    pub fn add(&mut self, mesh: Mesh) -> (handle: Handle)
        ensures
            final(self)@ == interned(old(self)@, mesh),
            handle == Handle::Stored(position(old(self)@, mesh) as usize),
            position(old(self)@, mesh) <= old(self)@.len(),
    {
        let mut i: usize = 0;
        while i < self.items.len()
            invariant
                *self == *old(self),
                i <= self.items.len(),
                forall|j: int| 0 <= j < i ==> self@[j] != mesh,
            decreases self.items.len() - i,
        {
            if self.items[i] == mesh {
                proof {
                    lemma_position_found(self@, mesh, i as int);
                }
                return Handle::Stored(i);
            }
            i = i + 1;
        }
        proof {
            lemma_position_absent(self@, mesh);
        }
        self.items.push(mesh);
        Handle::Stored(i)
    }
}

impl Assets<StandardMaterial> {
    /// Interns `material` and returns its handle: that of the entry equal to
    /// it where there is one, that of a new last entry otherwise.
    pub fn add(&mut self, material: StandardMaterial) -> (handle: Handle)
        ensures
            final(self)@ == interned(old(self)@, material),
            handle == Handle::Stored(position(old(self)@, material) as usize),
            position(old(self)@, material) <= old(self)@.len(),
    {
        let mut i: usize = 0;
        while i < self.items.len()
            invariant
                *self == *old(self),
                i <= self.items.len(),
                forall|j: int| 0 <= j < i ==> self@[j] != material,
            decreases self.items.len() - i,
        {
            if self.items[i] == material {
                proof {
                    lemma_position_found(self@, material, i as int);
                }
                return Handle::Stored(i);
            }
            i = i + 1;
        }
        proof {
            lemma_position_absent(self@, material);
        }
        self.items.push(material);
        Handle::Stored(i)
    }
}

/// The catalogue of the assets that can be had by name.
pub struct AssetServer {
    names: Vec<String>,
}

impl View for AssetServer {
    type V = Seq<Seq<char>>;

    closed spec fn view(&self) -> Seq<Seq<char>> {
        self.names@.map_values(|name: String| name@)
    }
}

impl AssetServer {
    /// The empty catalogue.
    pub fn new() -> (server: AssetServer)
        ensures
            server@ == Seq::<Seq<char>>::empty(),
    {
        let server = AssetServer { names: Vec::new() };
        server
    }

    /// Enters an asset under `name`, unless the name is already taken, and
    /// returns the handle under which it can be had from now on.
    pub fn register(&mut self, name: &str) -> (handle: Handle)
        ensures
            final(self)@ == interned(old(self)@, name@),
            handle == Handle::Loaded(position(old(self)@, name@) as usize),
    {
        let owned = String::from_str(name);
        match self.load(name) {
            Some(handle) => handle,
            None => {
                let i = self.names.len();
                self.names.push(owned);
                Handle::Loaded(i)
            },
        }
    }

    /// The name under which the asset of `handle` was entered, if the
    /// handle is one of this catalogue.
    pub fn name(&self, handle: Handle) -> (name: Option<&str>)
        ensures
            match name {
                Some(text) => handle matches Handle::Loaded(i) && i < self@.len() && text@
                    == self@[i as int],
                None => !(handle matches Handle::Loaded(i) && i < self@.len()),
            },
    {
        match handle {
            Handle::Loaded(i) => {
                if i < self.names.len() {
                    Some(self.names[i].as_str())
                } else {
                    None
                }
            },
            _ => None,
        }
    }

    /// How many assets the catalogue holds.
    pub fn len(&self) -> (n: usize)
        ensures
            n == self@.len(),
    {
        self.names.len()
    }

    /// The handle of the asset entered under `name`, if there is one.
    pub fn load(&self, name: &str) -> (handle: Option<Handle>)
        ensures
            handle == if position(self@, name@) < self@.len() {
                Some(Handle::Loaded(position(self@, name@) as usize))
            } else {
                None
            },
    {
        let owned = String::from_str(name);
        let mut i: usize = 0;
        while i < self.names.len()
            invariant
                i <= self.names.len(),
                owned@ == name@,
                self@.len() == self.names.len(),
                forall|j: int| 0 <= j < i ==> self@[j] != name@,
            decreases self.names.len() - i,
        {
            if self.names[i] == owned {
                proof {
                    lemma_position_found(self@, name@, i as int);
                }
                return Some(Handle::Loaded(i));
            }
            i = i + 1;
        }
        proof {
            lemma_position_absent(self@, name@);
        }
        None
    }
}

/// The asset cache as contracts see it.
pub struct MMAView {
    pub meshs: Seq<Mesh>,
    pub mats: Seq<StandardMaterial>,
    pub ass: Seq<Seq<char>>,
}

impl MMAView {
    /// Whether this cache holds everything that `earlier` holds, under the
    /// same handles.
    pub open spec fn extends(self, earlier: MMAView) -> bool {
        &&& extends(self.meshs, earlier.meshs)
        &&& extends(self.mats, earlier.mats)
        &&& self.ass == earlier.ass
    }

    /// To extend is transitive.
    pub proof fn lemma_extends_transitive(self, middle: MMAView, earlier: MMAView)
        requires
            self.extends(middle),
            middle.extends(earlier),
        ensures
            self.extends(earlier),
    {
        assert(self.meshs.take(earlier.meshs.len() as int) =~= middle.meshs.take(
            earlier.meshs.len() as int,
        ));
        assert(self.mats.take(earlier.mats.len() as int) =~= middle.mats.take(
            earlier.mats.len() as int,
        ));
    }
}

/// The asset cache that every stamping is handed: generated meshes,
/// materials, and the catalogue of named assets.
pub struct MMA {
    pub meshs: Assets<Mesh>,
    pub mats: Assets<StandardMaterial>,
    pub ass: AssetServer,
}

impl View for MMA {
    type V = MMAView;

    open spec fn view(&self) -> MMAView {
        MMAView { meshs: self.meshs@, mats: self.mats@, ass: self.ass@ }
    }
}

impl MMA {
    /// The cache that holds nothing.
    pub fn new() -> (mma: MMA)
        ensures
            mma@ == (MMAView {
                meshs: Seq::<Mesh>::empty(),
                mats: Seq::<StandardMaterial>::empty(),
                ass: Seq::<Seq<char>>::empty(),
            }),
    {
        MMA { meshs: Assets::new(), mats: Assets::new(), ass: AssetServer::new() }
    }
}

} // verus!
