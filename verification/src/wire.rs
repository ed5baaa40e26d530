//! The shape in which blueprints go over the wire: a row of 32-bit words.
//! A blueprint is written as its fields, one after the other; a variant is
//! a tag and then its fields; a text or a list is its length and then its
//! elements. How the words become bytes is the business of whoever carries
//! them.
//!
//! Reading is the inverse of writing: what was written is read back as it
//! was, whatever follows it. What was not written by these rules is
//! refused.

use vstd::prelude::*;
use vstd::utf8::is_scalar;
use crate::blocks::structure_block::StructureBlock;
use crate::blocks::{BlockBlueprint, BlockBlueprintView, OptimizableMaterial, OptimizableMesh, OptimizableMeshView};
use crate::components::{lemma_client_id_by_raw, ClientId};
use crate::math::{Color, Quat, Transform, Vec3};
use crate::players::player::{PlayerBlueprint, PlayerBlueprintView};
use crate::players::spawn_points::SpawnPointBlueprint;
use crate::players::thruster_block::ThrusterBlock;
use crate::text::{chars_of, string_from_chars};

verus! {

/// Two to the thirty-second.
pub const WORD: u64 = 0x1_0000_0000;

/// Reads a word as a character with `char::from_u32`: the character with
/// that number, where the number is that of a character at all.
#[verifier::external_body]
fn char_from_word(word: u32) -> (c: Option<char>)
    ensures
        c == if is_scalar(word) {
            Some(word as char)
        } else {
            None
        },
{
    char::from_u32(word)
}

/// What reading gives: the value, and the words behind it.
pub type Read<V> = Option<(V, Seq<u32>)>;

/// A number of 64 bits: the low word, then the high word.
pub open spec fn words_of_u64(v: u64) -> Seq<u32> {
    seq![(v % WORD) as u32, (v / WORD) as u32]
}

/// Reads a number of 64 bits off the front of `words`.
pub open spec fn read_u64(words: Seq<u32>) -> Read<u64> {
    if words.len() >= 2 {
        Some(((words[0] as u64 + words[1] as u64 * WORD) as u64, words.skip(2)))
    } else {
        None
    }
}

/// A number that was written is read back as it was, whatever
/// follows.
pub proof fn lemma_u64(v: u64, rest: Seq<u32>)
    ensures
        read_u64(words_of_u64(v) + rest) == Some((v, rest)),
{
    let words = words_of_u64(v) + rest;
    assert(words.skip(2) =~= rest);
    assert(words[0] == (v % WORD) as u32);
    assert(words[1] == (v / WORD) as u32);
}

/// Three scalars, in the order x, y, z.
pub open spec fn words_of_vec3(v: Vec3) -> Seq<u32> {
    seq![v.x, v.y, v.z]
}

/// Reads three scalars off the front of `words`.
pub open spec fn read_vec3(words: Seq<u32>) -> Read<Vec3> {
    if words.len() >= 3 {
        Some((Vec3 { x: words[0], y: words[1], z: words[2] }, words.skip(3)))
    } else {
        None
    }
}

/// A vector that was written is read back as it was, whatever
/// follows.
pub proof fn lemma_vec3(v: Vec3, rest: Seq<u32>)
    ensures
        read_vec3(words_of_vec3(v) + rest) == Some((v, rest)),
{
}

/// Four scalars, in the order x, y, z, w.
pub open spec fn words_of_four(x: u32, y: u32, z: u32, w: u32) -> Seq<u32> {
    seq![x, y, z, w]
}

/// Reads four scalars off the front of `words`.
pub open spec fn read_four(words: Seq<u32>) -> Read<(u32, u32, u32, u32)> {
    if words.len() >= 4 {
        Some(((words[0], words[1], words[2], words[3]), words.skip(4)))
    } else {
        None
    }
}

/// Four scalars that were written are read back as they were, whatever
/// follows.
pub proof fn lemma_four(x: u32, y: u32, z: u32, w: u32, rest: Seq<u32>)
    ensures
        read_four(words_of_four(x, y, z, w) + rest) == Some(((x, y, z, w), rest)),
{
}

/// A placement: translation, rotation, scale.
pub open spec fn words_of_transform(t: Transform) -> Seq<u32> {
    words_of_vec3(t.translation) + words_of_four(
        t.rotation.x,
        t.rotation.y,
        t.rotation.z,
        t.rotation.w,
    ) + words_of_vec3(t.scale)
}

/// Reads a placement off the front of `words`.
pub open spec fn read_transform(words: Seq<u32>) -> Read<Transform> {
    match read_vec3(words) {
        Some((translation, rest)) => match read_four(rest) {
            Some((r, rest)) => match read_vec3(rest) {
                Some((scale, rest)) => Some(
                    (
                        Transform {
                            translation,
                            rotation: Quat { x: r.0, y: r.1, z: r.2, w: r.3 },
                            scale,
                        },
                        rest,
                    ),
                ),
                None => None,
            },
            None => None,
        },
        None => None,
    }
}

/// A placement that was written is read back as it was, whatever
/// follows.
pub proof fn lemma_transform(t: Transform, rest: Seq<u32>)
    ensures
        read_transform(words_of_transform(t) + rest) == Some((t, rest)),
{
    let r = t.rotation;
    let tail = words_of_vec3(t.scale) + rest;
    let middle = words_of_four(r.x, r.y, r.z, r.w) + tail;
    lemma_vec3(t.translation, middle);
    lemma_four(r.x, r.y, r.z, r.w, tail);
    lemma_vec3(t.scale, rest);
}

/// A text: its length in characters, then the number of each character.
pub open spec fn words_of_text(text: Seq<char>) -> Seq<u32> {
    words_of_u64(text.len() as u64) + text.map_values(|c: char| c as u32)
}

/// Reads a text off the front of `words`: the length, and then as many
/// characters. A word that is the number of no character is refused.
pub open spec fn read_text(words: Seq<u32>) -> Read<Seq<char>> {
    match read_u64(words) {
        Some((n, rest)) => if n <= rest.len() && forall|i: int| 0 <= i < n ==> is_scalar(#[trigger] rest[i]) {
            Some((rest.take(n as int).map_values(|w: u32| w as char), rest.skip(n as int)))
        } else {
            None
        },
        None => None,
    }
}

/// A text that was written is read back as it was, whatever
/// follows.
pub proof fn lemma_text(text: Seq<char>, rest: Seq<u32>)
    requires
        text.len() <= u64::MAX,
    ensures
        read_text(words_of_text(text) + rest) == Some((text, rest)),
{
    let numbers = text.map_values(|c: char| c as u32);
    let tail = numbers + rest;
    assert(words_of_text(text) + rest =~= words_of_u64(text.len() as u64) + tail);
    lemma_u64(text.len() as u64, tail);
    assert(tail.take(text.len() as int) =~= numbers);
    assert forall|i: int| 0 <= i < text.len() implies is_scalar(#[trigger] tail[i]) by {
        vstd::utf8::char_is_scalar(text[i]);
    }
    assert(numbers.map_values(|w: u32| w as char) =~= text) by {
        assert forall|i: int| 0 <= i < text.len() implies numbers.map_values(|w: u32| w as char)[i]
            == text[i] by {
            vstd::utf8::char_u32_cast(text[i], numbers[i]);
        }
    }
}

/// Writes a number of 64 bits.
pub fn write_u64(v: u64, out: &mut Vec<u32>)
    ensures
        final(out)@ == old(out)@ + words_of_u64(v),
{
    out.push((v % WORD) as u32);
    out.push((v / WORD) as u32);
    assert(out@ =~= old(out)@ + words_of_u64(v));
}

/// Reads a number of 64 bits at place `at`.
pub fn take_u64(words: &Vec<u32>, at: usize) -> (found: Option<(u64, usize)>)
    requires
        at <= words.len(),
    ensures
        match found {
            Some((v, next)) => at <= next <= words.len() && read_u64(words@.skip(at as int)) == Some(
                (v, words@.skip(next as int)),
            ),
            None => read_u64(words@.skip(at as int)) is None,
        },
{
    if words.len() - at < 2 {
        return None;
    }
    let v = words[at] as u64 + words[at + 1] as u64 * WORD;
    assert(words@.skip(at as int).skip(2) =~= words@.skip(at as int + 2));
    Some((v, at + 2))
}

/// Writes three scalars.
pub fn write_vec3(v: Vec3, out: &mut Vec<u32>)
    ensures
        final(out)@ == old(out)@ + words_of_vec3(v),
{
    out.push(v.x);
    out.push(v.y);
    out.push(v.z);
    assert(out@ =~= old(out)@ + words_of_vec3(v));
}

/// Reads three scalars at place `at`.
pub fn take_vec3(words: &Vec<u32>, at: usize) -> (found: Option<(Vec3, usize)>)
    requires
        at <= words.len(),
    ensures
        match found {
            Some((v, next)) => at <= next <= words.len() && read_vec3(words@.skip(at as int)) == Some(
                (v, words@.skip(next as int)),
            ),
            None => read_vec3(words@.skip(at as int)) is None,
        },
{
    if words.len() - at < 3 {
        return None;
    }
    assert(words@.skip(at as int).skip(3) =~= words@.skip(at as int + 3));
    Some((Vec3 { x: words[at], y: words[at + 1], z: words[at + 2] }, at + 3))
}

/// Writes four scalars.
pub fn write_four(x: u32, y: u32, z: u32, w: u32, out: &mut Vec<u32>)
    ensures
        final(out)@ == old(out)@ + words_of_four(x, y, z, w),
{
    out.push(x);
    out.push(y);
    out.push(z);
    out.push(w);
}

/// Reads four scalars at place `at`.
pub fn take_four(words: &Vec<u32>, at: usize) -> (found: Option<((u32, u32, u32, u32), usize)>)
    requires
        at <= words.len(),
    ensures
        match found {
            Some((v, next)) => at <= next <= words.len() && read_four(words@.skip(at as int)) == Some(
                (v, words@.skip(next as int)),
            ),
            None => read_four(words@.skip(at as int)) is None,
        },
{
    if words.len() - at < 4 {
        return None;
    }
    Some(((words[at], words[at + 1], words[at + 2], words[at + 3]), at + 4))
}

/// Writes a placement.
pub fn write_transform(t: &Transform, out: &mut Vec<u32>)
    ensures
        final(out)@ == old(out)@ + words_of_transform(*t),
{
    write_vec3(t.translation, out);
    write_four(t.rotation.x, t.rotation.y, t.rotation.z, t.rotation.w, out);
    write_vec3(t.scale, out);
}

/// Reads a placement at place `at`.
pub fn take_transform(words: &Vec<u32>, at: usize) -> (found: Option<(Transform, usize)>)
    requires
        at <= words.len(),
    ensures
        match found {
            Some((v, next)) => at <= next <= words.len() && read_transform(words@.skip(at as int))
                == Some((v, words@.skip(next as int))),
            None => read_transform(words@.skip(at as int)) is None,
        },
{
    let (translation, at) = match take_vec3(words, at) {
        Some(found) => found,
        None => {
            return None;
        },
    };
    let (r, at) = match take_four(words, at) {
        Some(found) => found,
        None => {
            return None;
        },
    };
    let (scale, at) = match take_vec3(words, at) {
        Some(found) => found,
        None => {
            return None;
        },
    };
    Some((Transform { translation, rotation: Quat { x: r.0, y: r.1, z: r.2, w: r.3 }, scale }, at))
}

/// Writes a text.
pub fn write_text(text: &str, out: &mut Vec<u32>)
    ensures
        final(out)@ == old(out)@ + words_of_text(text@),
        text@.len() <= u64::MAX,
{
    let chars = chars_of(text);
    write_u64(chars.len() as u64, out);
    let ghost started = out@;
    let mut i: usize = 0;
    while i < chars.len()
        invariant
            i <= chars.len(),
            out@ == started + chars@.take(i as int).map_values(|c: char| c as u32),
        decreases chars.len() - i,
    {
        out.push(chars[i] as u32);
        assert(chars@.take(i as int + 1).map_values(|c: char| c as u32) =~= chars@.take(
            i as int,
        ).map_values(|c: char| c as u32).push(chars@[i as int] as u32));
        i = i + 1;
    }
    assert(chars@.take(chars.len() as int) == chars@);
    assert(out@ =~= old(out)@ + words_of_text(text@));
}

/// Reads a text at place `at`.
pub fn take_text(words: &Vec<u32>, at: usize) -> (found: Option<(String, usize)>)
    requires
        at <= words.len(),
    ensures
        match found {
            Some((v, next)) => at <= next <= words.len() && read_text(words@.skip(at as int)) == Some(
                (v@, words@.skip(next as int)),
            ),
            None => read_text(words@.skip(at as int)) is None,
        },
{
    let (n, start) = match take_u64(words, at) {
        Some(found) => found,
        None => {
            return None;
        },
    };
    let ghost rest = words@.skip(start as int);
    if n > (words.len() - start) as u64 {
        return None;
    }
    let n = n as usize;
    let mut chars: Vec<char> = Vec::new();
    let mut i: usize = 0;
    while i < n
        invariant
            i <= n,
            start + n <= words.len(),
            rest == words@.skip(start as int),
            read_u64(words@.skip(at as int)) == Some((n as u64, rest)),
            forall|k: int| 0 <= k < i ==> is_scalar(#[trigger] rest[k]),
            chars@ == rest.take(i as int).map_values(|w: u32| w as char),
        decreases n - i,
    {
        match char_from_word(words[start + i]) {
            Some(c) => {
                chars.push(c);
                assert(rest.take(i as int + 1).map_values(|w: u32| w as char) =~= rest.take(
                    i as int,
                ).map_values(|w: u32| w as char).push(rest[i as int] as char));
            },
            None => {
                return None;
            },
        }
        i = i + 1;
    }
    assert(rest.skip(n as int) =~= words@.skip(start + n));
    Some((string_from_chars(&chars), start + n))
}

/// The description of a mesh: a tag, and then what the variant holds.
pub open spec fn words_of_mesh(mesh: OptimizableMeshView) -> Seq<u32> {
    match mesh {
        OptimizableMeshView::StandardBlock => seq![0u32],
        OptimizableMeshView::CustomRectangularPrism { size } => seq![1u32] + words_of_vec3(size),
        OptimizableMeshView::FromAsset(name) => seq![2u32] + words_of_text(name),
    }
}

/// Reads the description of a mesh off the front of `words`. A tag that no
/// variant has is refused.
pub open spec fn read_mesh(words: Seq<u32>) -> Read<OptimizableMeshView> {
    if words.len() == 0 {
        None
    } else if words[0] == 0 {
        Some((OptimizableMeshView::StandardBlock, words.skip(1)))
    } else if words[0] == 1 {
        match read_vec3(words.skip(1)) {
            Some((size, rest)) => Some((OptimizableMeshView::CustomRectangularPrism { size }, rest)),
            None => None,
        }
    } else if words[0] == 2 {
        match read_text(words.skip(1)) {
            Some((name, rest)) => Some((OptimizableMeshView::FromAsset(name), rest)),
            None => None,
        }
    } else {
        None
    }
}

/// Whether the description can be written: a name is no longer than a
/// length can say. Every description that a program holds can.
pub open spec fn mesh_fits(mesh: OptimizableMeshView) -> bool {
    mesh matches OptimizableMeshView::FromAsset(name) ==> name.len() <= u64::MAX
}

/// The description of a mesh that was written is read back as it was, whatever
/// follows.
pub proof fn lemma_mesh(mesh: OptimizableMeshView, rest: Seq<u32>)
    requires
        mesh_fits(mesh),
    ensures
        read_mesh(words_of_mesh(mesh) + rest) == Some((mesh, rest)),
{
    let words = words_of_mesh(mesh) + rest;
    match mesh {
        OptimizableMeshView::StandardBlock => {
            assert(words.skip(1) =~= rest);
        },
        OptimizableMeshView::CustomRectangularPrism { size } => {
            assert(words.skip(1) =~= words_of_vec3(size) + rest);
            lemma_vec3(size, rest);
        },
        OptimizableMeshView::FromAsset(name) => {
            assert(words.skip(1) =~= words_of_text(name) + rest);
            lemma_text(name, rest);
        },
    }
}

/// Writes the description of a mesh.
pub fn write_mesh(mesh: &OptimizableMesh, out: &mut Vec<u32>)
    ensures
        final(out)@ == old(out)@ + words_of_mesh(mesh@),
        mesh_fits(mesh@),
{
    match mesh {
        OptimizableMesh::StandardBlock => {
            out.push(0);
        },
        OptimizableMesh::CustomRectangularPrism { size } => {
            out.push(1);
            write_vec3(*size, out);
        },
        OptimizableMesh::FromAsset(name) => {
            out.push(2);
            write_text(name.as_str(), out);
        },
    }
    assert(out@ =~= old(out)@ + words_of_mesh(mesh@));
}

/// Reads the description of a mesh at place `at`.
pub fn take_mesh(words: &Vec<u32>, at: usize) -> (found: Option<(OptimizableMesh, usize)>)
    requires
        at <= words.len(),
    ensures
        match found {
            Some((v, next)) => at <= next <= words.len() && read_mesh(words@.skip(at as int)) == Some(
                (v@, words@.skip(next as int)),
            ),
            None => read_mesh(words@.skip(at as int)) is None,
        },
{
    if at >= words.len() {
        return None;
    }
    let tag = words[at];
    assert(words@.skip(at as int).skip(1) =~= words@.skip(at as int + 1));
    if tag == 0 {
        Some((OptimizableMesh::StandardBlock, at + 1))
    } else if tag == 1 {
        match take_vec3(words, at + 1) {
            Some((size, next)) => Some((OptimizableMesh::CustomRectangularPrism { size }, next)),
            None => None,
        }
    } else if tag == 2 {
        match take_text(words, at + 1) {
            Some((name, next)) => Some((OptimizableMesh::FromAsset(name), next)),
            None => None,
        }
    } else {
        None
    }
}

/// The description of a material: a tag, and then the colour.
pub open spec fn words_of_material(material: OptimizableMaterial) -> Seq<u32> {
    match material {
        OptimizableMaterial::OpaqueColour(c) => seq![0u32] + words_of_four(c.r, c.g, c.b, c.a),
    }
}

/// Reads the description of a material off the front of `words`.
pub open spec fn read_material(words: Seq<u32>) -> Read<OptimizableMaterial> {
    if words.len() > 0 && words[0] == 0 {
        match read_four(words.skip(1)) {
            Some((c, rest)) => Some(
                (OptimizableMaterial::OpaqueColour(Color { r: c.0, g: c.1, b: c.2, a: c.3 }), rest),
            ),
            None => None,
        }
    } else {
        None
    }
}

/// The description of a material that was written is read back as it was, whatever
/// follows.
pub proof fn lemma_material(material: OptimizableMaterial, rest: Seq<u32>)
    ensures
        read_material(words_of_material(material) + rest) == Some((material, rest)),
{
    match material {
        OptimizableMaterial::OpaqueColour(c) => {
            assert((words_of_material(material) + rest).skip(1) =~= words_of_four(c.r, c.g, c.b, c.a)
                + rest);
            lemma_four(c.r, c.g, c.b, c.a, rest);
        },
    }
}

/// Writes the description of a material.
pub fn write_material(material: OptimizableMaterial, out: &mut Vec<u32>)
    ensures
        final(out)@ == old(out)@ + words_of_material(material),
{
    match material {
        OptimizableMaterial::OpaqueColour(c) => {
            out.push(0);
            write_four(c.r, c.g, c.b, c.a, out);
        },
    }
    assert(out@ =~= old(out)@ + words_of_material(material));
}

/// Reads the description of a material at place `at`.
pub fn take_material(words: &Vec<u32>, at: usize) -> (found: Option<(OptimizableMaterial, usize)>)
    requires
        at <= words.len(),
    ensures
        match found {
            Some((v, next)) => at <= next <= words.len() && read_material(words@.skip(at as int))
                == Some((v, words@.skip(next as int))),
            None => read_material(words@.skip(at as int)) is None,
        },
{
    if at >= words.len() {
        return None;
    }
    assert(words@.skip(at as int).skip(1) =~= words@.skip(at as int + 1));
    if words[at] != 0 {
        return None;
    }
    match take_four(words, at + 1) {
        Some((c, next)) => Some(
            (OptimizableMaterial::OpaqueColour(Color { r: c.0, g: c.1, b: c.2, a: c.3 }), next),
        ),
        None => None,
    }
}

/// What marks the kind of a block, and goes over the wire as a tag.
pub trait Marker: Copy + Sized {
    /// The tag of the mark.
    spec fn tag(self) -> u32;

    /// The mark with the given tag, if there is one.
    spec fn of_tag(tag: u32) -> Option<Self>;

    /// A mark is found again by its tag.
    proof fn lemma_tag(self)
        ensures
            Self::of_tag(self.tag()) == Some(self),
    ;

    /// The tag of the mark.
    fn to_tag(&self) -> (tag: u32)
        ensures
            tag == self.tag(),
    ;

    /// The mark with the given tag, if there is one.
    fn from_tag(tag: u32) -> (mark: Option<Self>)
        ensures
            mark == Self::of_tag(tag),
    ;
}

impl Marker for StructureBlock {
    open spec fn tag(self) -> u32 {
        match self {
            StructureBlock::Aluminum => 0,
        }
    }

    open spec fn of_tag(tag: u32) -> Option<StructureBlock> {
        if tag == 0 {
            Some(StructureBlock::Aluminum)
        } else {
            None
        }
    }

    proof fn lemma_tag(self) {
    }

    fn to_tag(&self) -> (tag: u32) {
        match self {
            StructureBlock::Aluminum => 0,
        }
    }

    fn from_tag(tag: u32) -> (mark: Option<StructureBlock>) {
        if tag == 0 {
            Some(StructureBlock::Aluminum)
        } else {
            None
        }
    }
}

impl Marker for ThrusterBlock {
    open spec fn tag(self) -> u32 {
        0
    }

    open spec fn of_tag(tag: u32) -> Option<ThrusterBlock> {
        if tag == 0 {
            Some(ThrusterBlock)
        } else {
            None
        }
    }

    proof fn lemma_tag(self) {
    }

    fn to_tag(&self) -> (tag: u32) {
        0
    }

    fn from_tag(tag: u32) -> (mark: Option<ThrusterBlock>) {
        if tag == 0 {
            Some(ThrusterBlock)
        } else {
            None
        }
    }
}

/// The blueprint of a block: placement, mesh, material, and the tag of its
/// mark.
pub open spec fn words_of_block<T: Marker>(block: BlockBlueprintView<T>) -> Seq<u32> {
    words_of_transform(block.transform) + words_of_mesh(block.mesh) + words_of_material(
        block.material,
    ) + seq![block.specific_marker.tag()]
}

/// Reads the blueprint of a block off the front of `words`.
pub open spec fn read_block<T: Marker>(words: Seq<u32>) -> Read<BlockBlueprintView<T>> {
    match read_transform(words) {
        Some((transform, rest)) => match read_mesh(rest) {
            Some((mesh, rest)) => match read_material(rest) {
                Some((material, rest)) => if rest.len() > 0 {
                    match T::of_tag(rest[0]) {
                        Some(specific_marker) => Some(
                            (
                                BlockBlueprintView { transform, mesh, material, specific_marker },
                                rest.skip(1),
                            ),
                        ),
                        None => None,
                    }
                } else {
                    None
                },
                None => None,
            },
            None => None,
        },
        None => None,
    }
}

/// The blueprint of a block that was written is read back as it was, whatever
/// follows.
pub proof fn lemma_block<T: Marker>(block: BlockBlueprintView<T>, rest: Seq<u32>)
    requires
        mesh_fits(block.mesh),
    ensures
        read_block::<T>(words_of_block(block) + rest) == Some((block, rest)),
{
    let last = seq![block.specific_marker.tag()] + rest;
    let after_mesh = words_of_material(block.material) + last;
    let after_transform = words_of_mesh(block.mesh) + after_mesh;
    assert(words_of_block(block) + rest =~= words_of_transform(block.transform) + after_transform);
    lemma_transform(block.transform, after_transform);
    lemma_mesh(block.mesh, after_mesh);
    lemma_material(block.material, last);
    block.specific_marker.lemma_tag();
    assert(last.skip(1) =~= rest);
}

/// Writes the blueprint of a block.
pub fn write_block<T: Marker>(block: &BlockBlueprint<T>, out: &mut Vec<u32>)
    ensures
        final(out)@ == old(out)@ + words_of_block(block@),
        mesh_fits(block@.mesh),
{
    write_transform(&block.transform, out);
    write_mesh(&block.mesh, out);
    write_material(block.material, out);
    out.push(block.specific_marker.to_tag());
    assert(out@ =~= old(out)@ + words_of_block(block@));
}

/// Reads the blueprint of a block at place `at`.
pub fn take_block<T: Marker>(words: &Vec<u32>, at: usize) -> (found: Option<(BlockBlueprint<T>, usize)>)
    requires
        at <= words.len(),
    ensures
        match found {
            Some((v, next)) => at <= next <= words.len() && read_block::<T>(words@.skip(at as int))
                == Some((v@, words@.skip(next as int))),
            None => read_block::<T>(words@.skip(at as int)) is None,
        },
{
    let (transform, at) = match take_transform(words, at) {
        Some(found) => found,
        None => {
            return None;
        },
    };
    let (mesh, at) = match take_mesh(words, at) {
        Some(found) => found,
        None => {
            return None;
        },
    };
    let (material, at) = match take_material(words, at) {
        Some(found) => found,
        None => {
            return None;
        },
    };
    if at >= words.len() {
        return None;
    }
    assert(words@.skip(at as int).skip(1) =~= words@.skip(at as int + 1));
    match T::from_tag(words[at]) {
        Some(specific_marker) => Some(
            (BlockBlueprint { transform, mesh, material, specific_marker }, at + 1),
        ),
        None => None,
    }
}

/// Who stands on a spawn point: a tag, and behind the tag `1` the number
/// of the client.
pub open spec fn words_of_occupation(occupation: Option<ClientId>) -> Seq<u32> {
    match occupation {
        None => seq![0u32],
        Some(id) => seq![1u32] + words_of_u64(id.spec_raw()),
    }
}

/// Reads who stands on a spawn point off the front of `words`.
pub open spec fn read_occupation(words: Seq<u32>) -> Read<Option<ClientId>> {
    if words.len() == 0 {
        None
    } else if words[0] == 0 {
        Some((None, words.skip(1)))
    } else if words[0] == 1 {
        match read_u64(words.skip(1)) {
            Some((raw, rest)) => Some((Some(ClientId::spec_from_raw(raw)), rest)),
            None => None,
        }
    } else {
        None
    }
}

/// Who stands on a spawn point that was written is read back as it was, whatever
/// follows.
pub proof fn lemma_occupation(occupation: Option<ClientId>, rest: Seq<u32>)
    ensures
        read_occupation(words_of_occupation(occupation) + rest) == Some((occupation, rest)),
{
    let words = words_of_occupation(occupation) + rest;
    match occupation {
        None => {
            assert(words.skip(1) =~= rest);
        },
        Some(id) => {
            assert(words.skip(1) =~= words_of_u64(id.spec_raw()) + rest);
            lemma_u64(id.spec_raw(), rest);
            lemma_client_id_by_raw(id, id);
        },
    }
}

/// The blueprint of a spawn point: placement, size, and who stands on it.
pub open spec fn words_of_spawn_point(blueprint: SpawnPointBlueprint) -> Seq<u32> {
    words_of_transform(blueprint.at) + seq![blueprint.size] + words_of_occupation(
        blueprint.initial_occupation,
    )
}

/// Reads the blueprint of a spawn point off the front of `words`.
pub open spec fn read_spawn_point(words: Seq<u32>) -> Read<SpawnPointBlueprint> {
    match read_transform(words) {
        Some((at, rest)) => if rest.len() > 0 {
            match read_occupation(rest.skip(1)) {
                Some((initial_occupation, after)) => Some(
                    (SpawnPointBlueprint { at, size: rest[0], initial_occupation }, after),
                ),
                None => None,
            }
        } else {
            None
        },
        None => None,
    }
}

/// The blueprint of a spawn point that was written is read back as it was, whatever
/// follows.
pub proof fn lemma_spawn_point(blueprint: SpawnPointBlueprint, rest: Seq<u32>)
    ensures
        read_spawn_point(words_of_spawn_point(blueprint) + rest) == Some((blueprint, rest)),
{
    let last = words_of_occupation(blueprint.initial_occupation) + rest;
    let after_transform = seq![blueprint.size] + last;
    assert(words_of_spawn_point(blueprint) + rest =~= words_of_transform(blueprint.at)
        + after_transform);
    lemma_transform(blueprint.at, after_transform);
    assert(after_transform.skip(1) =~= last);
    lemma_occupation(blueprint.initial_occupation, rest);
}

/// The blueprints of some blocks, one after the other.
pub open spec fn words_of_blocks<T: Marker>(blocks: Seq<BlockBlueprintView<T>>) -> Seq<u32>
    decreases blocks.len(),
{
    if blocks.len() == 0 {
        Seq::empty()
    } else {
        words_of_block(blocks[0]) + words_of_blocks(blocks.drop_first())
    }
}

/// Reads the blueprints of `n` blocks off the front of `words`.
pub open spec fn read_blocks<T: Marker>(words: Seq<u32>, n: nat) -> Read<Seq<BlockBlueprintView<T>>>
    decreases n,
{
    if n == 0 {
        Some((Seq::empty(), words))
    } else {
        match read_block::<T>(words) {
            Some((block, rest)) => match read_blocks::<T>(rest, (n - 1) as nat) {
                Some((blocks, rest)) => Some((seq![block] + blocks, rest)),
                None => None,
            },
            None => None,
        }
    }
}

/// Whether each of the blueprints can be written.
pub open spec fn blocks_fit<T>(blocks: Seq<BlockBlueprintView<T>>) -> bool {
    forall|i: int| 0 <= i < blocks.len() ==> mesh_fits(#[trigger] blocks[i].mesh)
}

/// The blueprints of some blocks that were written are read back as they were, whatever
/// follows.
pub proof fn lemma_blocks<T: Marker>(blocks: Seq<BlockBlueprintView<T>>, rest: Seq<u32>)
    requires
        blocks_fit(blocks),
    ensures
        read_blocks::<T>(words_of_blocks(blocks) + rest, blocks.len()) == Some((blocks, rest)),
    decreases blocks.len(),
{
    if blocks.len() > 0 {
        let tail = blocks.drop_first();
        let behind = words_of_blocks(tail) + rest;
        assert(words_of_blocks(blocks) + rest =~= words_of_block(blocks[0]) + behind);
        assert(mesh_fits(blocks[0].mesh));
        lemma_block(blocks[0], behind);
        assert(blocks_fit(tail));
        lemma_blocks(tail, rest);
    }
}

/// Writing one more block behind the others adds its words behind theirs.
pub proof fn lemma_words_of_blocks_push<T: Marker>(
    blocks: Seq<BlockBlueprintView<T>>,
    block: BlockBlueprintView<T>,
)
    ensures
        words_of_blocks(blocks.push(block)) == words_of_blocks(blocks) + words_of_block(block),
    decreases blocks.len(),
{
    let longer = blocks.push(block);
    if blocks.len() == 0 {
        assert(words_of_blocks(longer.drop_first()) =~= Seq::<u32>::empty());
    } else {
        assert(longer.drop_first() =~= blocks.drop_first().push(block));
        lemma_words_of_blocks_push(blocks.drop_first(), block);
    }
}

/// The views of the blueprints.
pub open spec fn block_views<T>(blocks: Seq<BlockBlueprint<T>>) -> Seq<BlockBlueprintView<T>> {
    blocks.map_values(|b: BlockBlueprint<T>| b@)
}

/// Writes the blueprints of some blocks: how many, and then each.
pub fn write_blocks<T: Marker>(blocks: &Vec<BlockBlueprint<T>>, out: &mut Vec<u32>)
    ensures
        final(out)@ == old(out)@ + words_of_u64(blocks@.len() as u64) + words_of_blocks(
            block_views(blocks@),
        ),
        blocks_fit(block_views(blocks@)),
{
    write_u64(blocks.len() as u64, out);
    let ghost started = out@;
    let mut i: usize = 0;
    while i < blocks.len()
        invariant
            i <= blocks.len(),
            out@ == started + words_of_blocks(block_views(blocks@).take(i as int)),
            blocks_fit(block_views(blocks@).take(i as int)),
        decreases blocks.len() - i,
    {
        let ghost before = block_views(blocks@).take(i as int);
        write_block(&blocks[i], out);
        proof {
            let longer = block_views(blocks@).take(i as int + 1);
            assert(longer =~= before.push(blocks@[i as int]@));
            lemma_words_of_blocks_push(before, blocks@[i as int]@);
        }
        i = i + 1;
    }
    assert(block_views(blocks@).take(blocks.len() as int) == block_views(blocks@));
}

/// Reads the blueprints of `n` blocks at place `at`.
#[verifier::rlimit(40)]
pub fn take_blocks<T: Marker>(words: &Vec<u32>, at: usize, n: u64) -> (found: Option<
    (Vec<BlockBlueprint<T>>, usize),
>)
    requires
        at <= words.len(),
    ensures
        match found {
            Some((v, next)) => at <= next <= words.len() && read_blocks::<T>(
                words@.skip(at as int),
                n as nat,
            ) == Some((block_views(v@), words@.skip(next as int))),
            None => read_blocks::<T>(words@.skip(at as int), n as nat) is None,
        },
{
    let mut blocks: Vec<BlockBlueprint<T>> = Vec::new();
    let mut place = at;
    let mut i: u64 = 0;
    assert(block_views(blocks@) =~= Seq::empty());
    while i < n
        invariant
            i <= n,
            at <= place <= words.len(),
            read_blocks::<T>(words@.skip(at as int), n as nat) == match read_blocks::<T>(
                words@.skip(place as int),
                (n - i) as nat,
            ) {
                Some((more, rest)) => Some((block_views(blocks@) + more, rest)),
                None => None,
            },
        decreases n - i,
    {
        let ghost before = block_views(blocks@);
        match take_block::<T>(words, place) {
            Some((block, next)) => {
                proof {
                    let rest = words@.skip(next as int);
                    match read_blocks::<T>(rest, (n - i - 1) as nat) {
                        Some((more, behind)) => {
                            assert(before.push(block@) + more =~= before + (seq![block@] + more));
                        },
                        None => {},
                    }
                }
                blocks.push(block);
                assert(block_views(blocks@) =~= before.push(block@));
                place = next;
            },
            None => {
                return None;
            },
        }
        i = i + 1;
    }
    assert(block_views(blocks@) + Seq::empty() =~= block_views(blocks@));
    Some((blocks, place))
}

/// The blueprint of a player: the number of its client, its placement, and
/// its blocks, the structural ones before the thrusters, each list behind
/// its length.
pub open spec fn words_of_player(blueprint: PlayerBlueprintView) -> Seq<u32> {
    words_of_u64(blueprint.network_id.spec_raw()) + words_of_transform(blueprint.transform)
        + words_of_u64(blueprint.structure_children.len() as u64) + words_of_blocks(
        blueprint.structure_children,
    ) + words_of_u64(blueprint.thruster_children.len() as u64) + words_of_blocks(
        blueprint.thruster_children,
    )
}

/// Reads the blueprint of a player off the front of `words`.
pub open spec fn read_player(words: Seq<u32>) -> Read<PlayerBlueprintView> {
    match read_u64(words) {
        Some((raw, rest)) => match read_transform(rest) {
            Some((transform, rest)) => match read_u64(rest) {
                Some((many, rest)) => match read_blocks::<StructureBlock>(rest, many as nat) {
                    Some((structure_children, rest)) => match read_u64(rest) {
                        Some((some, rest)) => match read_blocks::<ThrusterBlock>(rest, some as nat) {
                            Some((thruster_children, rest)) => Some(
                                (
                                    PlayerBlueprintView {
                                        network_id: ClientId::spec_from_raw(raw),
                                        transform,
                                        structure_children,
                                        thruster_children,
                                    },
                                    rest,
                                ),
                            ),
                            None => None,
                        },
                        None => None,
                    },
                    None => None,
                },
                None => None,
            },
            None => None,
        },
        None => None,
    }
}

/// Whether the blueprint can be written: its lists are no longer than a
/// length can say, and each of its blocks can be written. Every blueprint
/// that a program holds can.
pub open spec fn player_fits(blueprint: PlayerBlueprintView) -> bool {
    &&& blueprint.structure_children.len() <= u64::MAX
    &&& blueprint.thruster_children.len() <= u64::MAX
    &&& blocks_fit(blueprint.structure_children)
    &&& blocks_fit(blueprint.thruster_children)
}

/// The blueprint of a player that was written is read back as it was, whatever
/// follows.
#[verifier::rlimit(40)]
pub proof fn lemma_player(blueprint: PlayerBlueprintView, rest: Seq<u32>)
    requires
        player_fits(blueprint),
    ensures
        read_player(words_of_player(blueprint) + rest) == Some((blueprint, rest)),
{
    let raw = blueprint.network_id.spec_raw();
    let many = blueprint.structure_children.len() as u64;
    let some = blueprint.thruster_children.len() as u64;
    let a1 = words_of_u64(raw);
    let a2 = words_of_transform(blueprint.transform);
    let a3 = words_of_u64(many);
    let a4 = words_of_blocks(blueprint.structure_children);
    let a5 = words_of_u64(some);
    let a6 = words_of_blocks(blueprint.thruster_children);
    let w6 = a6 + rest;
    let w5 = a5 + w6;
    let w4 = a4 + w5;
    let w3 = a3 + w4;
    let w2 = a2 + w3;
    let w1 = a1 + w2;
    assert(words_of_player(blueprint) + rest == w1) by {
        assert(a1 + a2 + a3 + a4 + a5 + a6 + rest =~= a1 + a2 + a3 + a4 + a5 + w6);
        assert(a1 + a2 + a3 + a4 + a5 + w6 =~= a1 + a2 + a3 + a4 + w5);
        assert(a1 + a2 + a3 + a4 + w5 =~= a1 + a2 + a3 + w4);
        assert(a1 + a2 + a3 + w4 =~= a1 + a2 + w3);
        assert(a1 + a2 + w3 =~= a1 + w2);
    }
    assert(read_u64(w1) == Some((raw, w2))) by {
        lemma_u64(raw, w2);
    }
    assert(read_transform(w2) == Some((blueprint.transform, w3))) by {
        lemma_transform(blueprint.transform, w3);
    }
    assert(read_u64(w3) == Some((many, w4))) by {
        lemma_u64(many, w4);
    }
    assert(read_blocks::<StructureBlock>(w4, many as nat) == Some((blueprint.structure_children, w5)))
        by {
        lemma_blocks(blueprint.structure_children, w5);
    }
    assert(read_u64(w5) == Some((some, w6))) by {
        lemma_u64(some, w6);
    }
    assert(read_blocks::<ThrusterBlock>(w6, some as nat) == Some((blueprint.thruster_children, rest)))
        by {
        lemma_blocks(blueprint.thruster_children, rest);
    }
    assert(ClientId::spec_from_raw(raw) == blueprint.network_id) by {
        lemma_client_id_by_raw(blueprint.network_id, blueprint.network_id);
    }
}

/// What reading gives where nothing may follow: the value, if the words
/// hold it and nothing behind it.
pub open spec fn whole<V>(read: Read<V>) -> Option<V> {
    match read {
        Some((value, rest)) => if rest.len() == 0 {
            Some(value)
        } else {
            None
        },
        None => None,
    }
}

/// A blueprint that goes over the wire.
pub trait Wire: View + Sized {
    /// The words that the blueprint is written as.
    spec fn words_of(blueprint: Self::V) -> Seq<u32>;

    /// What reading a blueprint off the front of `words` gives.
    spec fn read(words: Seq<u32>) -> Read<Self::V>;

    /// Whether the blueprint can be written. Every blueprint that a
    /// program holds can.
    spec fn fits(blueprint: Self::V) -> bool;

    /// What was written is read back as it was, whatever follows it.
    proof fn lemma_read_back(blueprint: Self::V, rest: Seq<u32>)
        requires
            Self::fits(blueprint),
        ensures
            Self::read(Self::words_of(blueprint) + rest) == Some((blueprint, rest)),
    ;

    /// Writes the blueprint.
    fn encode(&self) -> (words: Vec<u32>)
        ensures
            words@ == Self::words_of(self@),
            Self::fits(self@),
    ;

    /// Reads a blueprint. The words have to hold it and nothing else.
    fn decode(words: &Vec<u32>) -> (blueprint: Option<Self>)
        ensures
            match blueprint {
                Some(blueprint) => whole(Self::read(words@)) == Some(blueprint@),
                None => whole(Self::read(words@)) is None,
            },
    ;
}

impl<T: Marker> Wire for BlockBlueprint<T> {
    open spec fn words_of(blueprint: BlockBlueprintView<T>) -> Seq<u32> {
        words_of_block(blueprint)
    }

    open spec fn read(words: Seq<u32>) -> Read<BlockBlueprintView<T>> {
        read_block::<T>(words)
    }

    open spec fn fits(blueprint: BlockBlueprintView<T>) -> bool {
        mesh_fits(blueprint.mesh)
    }

    proof fn lemma_read_back(blueprint: BlockBlueprintView<T>, rest: Seq<u32>) {
        lemma_block(blueprint, rest);
    }

    fn encode(&self) -> (words: Vec<u32>) {
        let mut words: Vec<u32> = Vec::new();
        write_block(self, &mut words);
        assert(Seq::<u32>::empty() + words_of_block(self@) =~= words_of_block(self@));
        words
    }

    fn decode(words: &Vec<u32>) -> (blueprint: Option<BlockBlueprint<T>>) {
        assert(words@.skip(0) =~= words@);
        match take_block::<T>(words, 0) {
            Some((blueprint, next)) => if next == words.len() {
                Some(blueprint)
            } else {
                None
            },
            None => None,
        }
    }
}

impl Wire for SpawnPointBlueprint {
    open spec fn words_of(blueprint: SpawnPointBlueprint) -> Seq<u32> {
        words_of_spawn_point(blueprint)
    }

    open spec fn read(words: Seq<u32>) -> Read<SpawnPointBlueprint> {
        read_spawn_point(words)
    }

    open spec fn fits(blueprint: SpawnPointBlueprint) -> bool {
        true
    }

    proof fn lemma_read_back(blueprint: SpawnPointBlueprint, rest: Seq<u32>) {
        lemma_spawn_point(blueprint, rest);
    }

    fn encode(&self) -> (words: Vec<u32>) {
        let mut words: Vec<u32> = Vec::new();
        write_transform(&self.at, &mut words);
        words.push(self.size);
        match self.initial_occupation {
            None => {
                words.push(0);
            },
            Some(id) => {
                words.push(1);
                write_u64(id.raw(), &mut words);
            },
        }
        words
    }

    fn decode(words: &Vec<u32>) -> (blueprint: Option<SpawnPointBlueprint>) {
        assert(words@.skip(0) =~= words@);
        let (at, place) = match take_transform(words, 0) {
            Some(found) => found,
            None => {
                return None;
            },
        };
        if words.len() - place < 2 {
            proof {
                let rest = words@.skip(place as int);
                if rest.len() > 0 {
                    assert(rest.skip(1).len() == 0);
                }
            }
            return None;
        }
        let size = words[place];
        let tag = words[place + 1];
        proof {
            let rest = words@.skip(place as int);
            assert(rest.skip(1).skip(1) =~= words@.skip(place as int + 2));
        }
        let (initial_occupation, next) = if tag == 0 {
            (None, place + 2)
        } else if tag == 1 {
            match take_u64(words, place + 2) {
                Some((raw, next)) => (Some(ClientId::from_raw(raw)), next),
                None => {
                    return None;
                },
            }
        } else {
            return None;
        };
        if next == words.len() {
            Some(SpawnPointBlueprint { at, size, initial_occupation })
        } else {
            None
        }
    }
}

impl Wire for PlayerBlueprint {
    open spec fn words_of(blueprint: PlayerBlueprintView) -> Seq<u32> {
        words_of_player(blueprint)
    }

    open spec fn read(words: Seq<u32>) -> Read<PlayerBlueprintView> {
        read_player(words)
    }

    open spec fn fits(blueprint: PlayerBlueprintView) -> bool {
        player_fits(blueprint)
    }

    proof fn lemma_read_back(blueprint: PlayerBlueprintView, rest: Seq<u32>) {
        lemma_player(blueprint, rest);
    }

    fn encode(&self) -> (words: Vec<u32>) {
        let mut words: Vec<u32> = Vec::new();
        write_u64(self.network_id.raw(), &mut words);
        write_transform(&self.transform, &mut words);
        write_blocks(&self.structure_children, &mut words);
        write_blocks(&self.thruster_children, &mut words);
        assert(self@.structure_children.len() == self.structure_children.len());
        assert(self@.thruster_children.len() == self.thruster_children.len());
        words
    }

    fn decode(words: &Vec<u32>) -> (blueprint: Option<PlayerBlueprint>) {
        let (raw, place) = match take_u64(words, 0) {
            Some(found) => found,
            None => {
                return None;
            },
        };
        let (transform, place) = match take_transform(words, place) {
            Some(found) => found,
            None => {
                return None;
            },
        };
        let (many, place) = match take_u64(words, place) {
            Some(found) => found,
            None => {
                return None;
            },
        };
        let (structure_children, place) = match take_blocks::<StructureBlock>(words, place, many) {
            Some(found) => found,
            None => {
                return None;
            },
        };
        let (some, place) = match take_u64(words, place) {
            Some(found) => found,
            None => {
                return None;
            },
        };
        let (thruster_children, place) = match take_blocks::<ThrusterBlock>(words, place, some) {
            Some(found) => found,
            None => {
                return None;
            },
        };
        if place == words.len() {
            let blueprint = PlayerBlueprint {
                network_id: ClientId::from_raw(raw),
                transform,
                structure_children,
                thruster_children,
            };
            Some(blueprint)
        } else {
            None
        }
    }
}

/// What was written is read back as it was.
pub proof fn lemma_round_trip<B: Wire>(blueprint: B::V)
    requires
        B::fits(blueprint),
    ensures
        whole(B::read(B::words_of(blueprint))) == Some(blueprint),
{
    B::lemma_read_back(blueprint, Seq::empty());
}

} // verus!
