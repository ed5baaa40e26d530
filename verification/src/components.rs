//! The components that hydrated bundles are made of: a name, what is drawn
//! and how the physics sees an object.

use vstd::prelude::*;
use vstd::string::StringExecFns;
use crate::global::assets::Handle;
use crate::math::Transform;

verus! {

/// The name of an entity, for people to read.
#[derive(Debug)]
pub struct Name {
    text: String,
}

impl View for Name {
    type V = Seq<char>;

    closed spec fn view(&self) -> Seq<char> {
        self.text@
    }
}

impl Name {
    /// The name that reads `text`.
    pub fn new(text: String) -> (name: Name)
        ensures
            name@ == text@,
    {
        Name { text }
    }

    /// What the name reads.
    pub fn as_str(&self) -> (text: &str)
        ensures
            text@ == self@,
    {
        self.text.as_str()
    }
}

impl Clone for Name {
    fn clone(&self) -> (name: Name)
        ensures
            name@ == self@,
    {
        Name { text: self.text.clone() }
    }
}

/// What is drawn for an entity, and where.
#[derive(Clone, Copy, Debug, PartialEq, Eq, Structural)]
pub struct PbrBundle {
    pub transform: Transform,
    pub mesh: Handle,
    pub material: Handle,
}

/// How a collision shape is made from a mesh once the mesh is there.
#[derive(Clone, Copy, Debug, PartialEq, Eq, Structural)]
pub enum ComputedCollider {
    /// The triangles of the mesh themselves.
    TriMesh,
    /// The smallest convex shape around the mesh.
    ConvexHull,
}

/// Asks for a collision shape to be made from the entity's mesh.
#[derive(Clone, Copy, Debug, PartialEq, Eq, Structural)]
pub struct AsyncCollider(pub ComputedCollider);

impl Default for AsyncCollider {
    fn default() -> (collider: AsyncCollider)
        ensures
            collider == AsyncCollider(ComputedCollider::TriMesh),
    {
        AsyncCollider(ComputedCollider::TriMesh)
    }
}

/// How the physics moves a body.
#[derive(Clone, Copy, Debug, PartialEq, Eq, Structural)]
pub enum RigidBody {
    /// Moved by forces and contacts.
    Dynamic,
    /// Never moved.
    Static,
    /// Moved by its velocity alone.
    Kinematic,
}

/// The identifier that the network gives a connected client.
#[derive(Clone, Copy, Debug, PartialEq, Eq, Hash, Structural)]
pub struct ClientId {
    raw: u64,
}

impl ClientId {
    /// The number of the identifier.
    pub closed spec fn spec_raw(self) -> u64 {
        self.raw
    }

    /// The identifier with the number `raw`.
    pub closed spec fn spec_from_raw(raw: u64) -> ClientId {
        ClientId { raw }
    }

    /// The identifier with the number `raw`.
    #[verifier::when_used_as_spec(spec_from_raw)]
    pub fn from_raw(raw: u64) -> (id: ClientId)
        ensures
            id == ClientId::spec_from_raw(raw),
            id.spec_raw() == raw,
    {
        ClientId { raw }
    }

    /// The number of the identifier.
    #[verifier::when_used_as_spec(spec_raw)]
    pub fn raw(self) -> (raw: u64)
        ensures
            raw == self.spec_raw(),
    {
        self.raw
    }
}

/// An identifier is its number: two identifiers with the same number are
/// the same identifier, and the identifier made of a number has that
/// number.
pub proof fn lemma_client_id_by_raw(a: ClientId, b: ClientId)
    ensures
        a.spec_raw() == b.spec_raw() <==> a == b,
        ClientId::spec_from_raw(a.spec_raw()) == a,
        forall|raw: u64| #[trigger] ClientId::spec_from_raw(raw).spec_raw() == raw,
{
}

/// The one character that stands for the digit `d`.
pub open spec fn digit_char(d: nat) -> char
    recommends
        d < 10,
{
    if d == 0 {
        '0'
    } else if d == 1 {
        '1'
    } else if d == 2 {
        '2'
    } else if d == 3 {
        '3'
    } else if d == 4 {
        '4'
    } else if d == 5 {
        '5'
    } else if d == 6 {
        '6'
    } else if d == 7 {
        '7'
    } else if d == 8 {
        '8'
    } else {
        '9'
    }
}

/// The decimal numeral of `n`, without leading zeros.
pub open spec fn decimal(n: nat) -> Seq<char>
    decreases n,
{
    if n < 10 {
        seq![digit_char(n)]
    } else {
        decimal(n / 10).push(digit_char(n % 10))
    }
}

fn digit_str(d: u64) -> (s: &'static str)
    requires
        d < 10,
    ensures
        s@ == seq![digit_char(d as nat)],
{
    proof {
        reveal_strlit("0");
        reveal_strlit("1");
        reveal_strlit("2");
        reveal_strlit("3");
        reveal_strlit("4");
        reveal_strlit("5");
        reveal_strlit("6");
        reveal_strlit("7");
        reveal_strlit("8");
        reveal_strlit("9");
    }
    let s = if d == 0 {
        "0"
    } else if d == 1 {
        "1"
    } else if d == 2 {
        "2"
    } else if d == 3 {
        "3"
    } else if d == 4 {
        "4"
    } else if d == 5 {
        "5"
    } else if d == 6 {
        "6"
    } else if d == 7 {
        "7"
    } else if d == 8 {
        "8"
    } else {
        "9"
    };
    s
}

/// Writes `n` as a decimal numeral, without leading zeros.
pub fn decimal_string(n: u64) -> (s: String)
    ensures
        s@ == decimal(n as nat),
    decreases n,
{
    if n < 10 {
        String::from_str(digit_str(n))
    } else {
        let mut s = decimal_string(n / 10);
        s.append(digit_str(n % 10));
        s
    }
}

} // verus!
