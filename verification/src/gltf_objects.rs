use vstd::prelude::*;

use crate::animations::AnimationSet;
use crate::renpy_interop::{NodeID, SceneTree};
use crate::utils::DecomposedTransform;

verus! {

/// Identifier an object carries from the source asset.
pub type ObjectId = usize;

/// Key-value metadata attached to an object or scene.
pub type Properties = Vec<Property>;

/// A basic key-value pair for any kind of metadata.
#[derive(Clone, Debug, PartialEq)]
pub struct Property {
    /// The key
    pub name: String,
    /// The value
    pub value: String,
}

impl Property {
    /// Turn decoded extra-metadata entries into properties, one per entry,
    /// keeping their order; no entries yield no properties.
    pub fn load(data: Option<Vec<(String, String)>>) -> (r: Properties)
        ensures
            match data {
                Option::None => r@.len() == 0,
                Option::Some(entries) => {
                    &&& r@.len() == entries@.len()
                    &&& forall|i: int|
                        0 <= i < entries@.len() ==> (#[trigger] r@[i]).name@ == entries@[i].0@
                            && r@[i].value@ == entries@[i].1@
                },
            },
    {
        let mut r: Vec<Property> = Vec::new();
        match data {
            Option::None => r,
            Option::Some(entries) => {
                let mut i: usize = 0;
                while i < entries.len()
                    invariant
                        i <= entries@.len(),
                        r@.len() == i,
                        forall|q: int|
                            0 <= q < i ==> (#[trigger] r@[q]).name@ == entries@[q].0@
                                && r@[q].value@ == entries@[q].1@,
                    decreases entries@.len() - i,
                {
                    let name = entries[i].0.clone();
                    let value = entries[i].1.clone();
                    r.push(Property { name, value });
                    i += 1;
                }
                r
            },
        }
    }
}

/// A point object with no model: a way to describe a place in space along
/// with scale and rotation.
#[derive(Clone, Debug)]
pub struct Empty {
    /// Identifier from the source asset
    pub id: ObjectId,
    /// Qualified name
    pub name: String,
    /// Rest-pose transform, already in the target engine's convention
    pub transform: DecomposedTransform,
    /// Animations targeting this object
    pub animations: Vec<AnimationSet>,
    /// Extra metadata
    pub properties: Properties,
}

/// A mesh object's decoded geometry and animation payload. Texture and
/// skeleton payloads are carried by the extraction and serialization
/// layers around this crate; here the mesh holds what the scene logic
/// itself reads, with scalars as their encodings.
#[derive(Clone, Debug)]
pub struct Mesh {
    /// Qualified name
    pub name: String,
    /// Identifier from the source asset
    pub id: ObjectId,
    /// Vertex positions, three encoded components per vertex
    pub vertexes: Vec<u32>,
    /// Triangle vertex indices
    pub triangles: Vec<u32>,
    /// Rest-pose transform
    pub default_transform: DecomposedTransform,
    /// Bone indices, four per vertex
    pub bone_indexes: Vec<u16>,
    /// Encoded bone weights, four per vertex
    pub bone_weights: Vec<u32>,
    /// Encoded rest-pose morph-target weights
    pub morph_weights: Vec<u32>,
    /// Encoded texture coordinates, two per vertex
    pub uvs: Vec<u32>,
    /// Animations targeting this object
    pub animations: Vec<AnimationSet>,
    /// Extra metadata
    pub properties: Properties,
}

/// An object of the scene: the ids associated with the object (for fast
/// id checking) and the object itself.
#[derive(Clone, Debug)]
pub enum GltfObject {
    /// A point object
    Empty(Vec<ObjectId>, Box<Empty>),
    /// A mesh object
    Mesh(Vec<ObjectId>, Box<Mesh>),
}

impl GltfObject {
    /// The identifier of the object itself.
    pub open spec fn spec_id(self) -> ObjectId {
        match self {
            GltfObject::Empty(_, e) => e.id,
            GltfObject::Mesh(_, m) => m.id,
        }
    }

    /// Does this object carry the given source-asset identifier?
    pub fn is_same_id(&self, other_id: usize) -> (r: bool)
        ensures
            r == (self.spec_id() == other_id),
    {
        match self {
            GltfObject::Empty(_, e) => e.id == other_id,
            GltfObject::Mesh(_, m) => m.id == other_id,
        }
    }
}

/// One whole scene prepared for the target engine. The objects are stored
/// as a tree because that makes applying transforms during animation
/// straightforward.
#[derive(Clone, Debug)]
pub struct RenpyScene {
    /// Scene name
    pub name: String,
    /// The scene's objects, as a tree
    pub objects: SceneTree,
    /// Scene-level metadata
    pub properties: Properties,
    /// Tree indices of the mesh objects
    pub mesh_indexes: Vec<NodeID>,
    /// Tree indices of the point objects
    pub empty_indexes: Vec<NodeID>,
}

} // verus!
