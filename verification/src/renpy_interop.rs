use vstd::prelude::*;

use crate::animation::vec_index_mut;
use crate::gltf_objects::GltfObject;
use crate::ResultCode;

verus! {

/// Index of a node inside a [`SceneTree`].
pub type NodeID = u32;

/// An owned, possibly absent value. The embedding layer represents this
/// as a nullable pointer at its language boundary; here it is modeled as
/// the value itself, present or not.
#[derive(Clone, Debug)]
pub struct Nullable<T> {
    /// The held value, if any
    pub value: Option<T>,
}

impl<T> Nullable<T> {
    /// Wrap an owned value.
    pub fn new(obj: T) -> (r: Self)
        ensures
            r.value == Some(obj),
    {
        Nullable { value: Some(obj) }
    }

    /// The absent value.
    pub fn null() -> (r: Self)
        ensures
            r.value is None,
    {
        Nullable { value: None }
    }

    /// Whether no value is held.
    pub fn is_null(&self) -> (r: bool)
        ensures
            r == (self.value is None),
    {
        matches!(self.value, None)
    }
}

/// An immutable list handed across the embedding boundary. The length is
/// stored beside the contents, as the boundary's layout wants it, and a
/// well-formed list keeps the two in step.
#[derive(Clone, Debug)]
pub struct ImmutableRenpyList<T> {
    /// The elements
    pub content: Vec<T>,
    /// How many elements `content` holds
    pub len: usize,
}

impl<T> ImmutableRenpyList<T> {
    /// The stored length names the number of elements.
    pub open spec fn well_formed(self) -> bool {
        self.len == self.content@.len()
    }

    /// Wrap an owned vector of elements.
    pub fn new(content: Vec<T>) -> (r: Self)
        ensures
            r.well_formed(),
            r.content@ == content@,
    {
        let len = content.len();
        ImmutableRenpyList { content, len }
    }

    /// The empty list.
    pub fn empty() -> (r: Self)
        ensures
            r.well_formed(),
            r.content@.len() == 0,
    {
        ImmutableRenpyList { content: Vec::new(), len: 0 }
    }

    /// Take ownership of a vector's elements.
    pub fn from(list: Vec<T>) -> (r: Self)
        ensures
            r.well_formed(),
            r.content@ == list@,
    {
        Self::new(list)
    }

    /// Copy a borrowed run of elements.
    pub fn from_slice(list: &[T]) -> (r: Self)
        where T: Copy,
        ensures
            r.well_formed(),
            r.content@ == list@,
    {
        let mut content: Vec<T> = Vec::new();
        let mut i: usize = 0;
        while i < list.len()
            invariant
                i <= list@.len(),
                content@ == list@.subrange(0, i as int),
            decreases list@.len() - i,
        {
            content.push(list[i]);
            i += 1;
        }
        proof {
            assert(content@ =~= list@);
        }
        Self::new(content)
    }
}

/// A generic container for data sent back to the embedding layer: an
/// outcome code, a description of the error if any, and the data itself.
#[derive(Clone, Debug)]
pub struct GLTFResult<T> {
    /// What happened
    pub result_type: ResultCode,
    /// Description of the failure, empty on success
    pub error_description: String,
    /// The data, absent on failure
    pub content: Nullable<T>,
}

impl<T> GLTFResult<T> {
    /// Compose an outcome from its parts.
    pub fn new(result_type: ResultCode, description: String, content: T) -> (r: Self)
        ensures
            r.result_type == result_type,
            r.error_description == description,
            r.content.value == Some(content),
    {
        GLTFResult { result_type, error_description: description, content: Nullable::new(content) }
    }

    /// A successful outcome carrying `content`.
    pub fn ok(content: T) -> (r: Self)
        ensures
            r.result_type == ResultCode::Success,
            r.error_description@ == Seq::<char>::empty(),
            r.content.value == Some(content),
    {
        GLTFResult {
            result_type: ResultCode::Success,
            error_description: String::new(),
            content: Nullable::new(content),
        }
    }

    /// A failed outcome with its code and description.
    pub fn error(result_type: ResultCode, description: String) -> (r: Self)
        ensures
            r.result_type == result_type,
            r.error_description == description,
            r.content.value is None,
    {
        GLTFResult { result_type, error_description: description, content: Nullable::null() }
    }

    /// Whether the outcome is a success.
    pub fn is_ok(&self) -> (r: bool)
        ensures
            r == (self.result_type == ResultCode::Success),
    {
        self.result_type == ResultCode::Success
    }
}

/// The object tree of one scene, laid out as the serialization schema
/// wants it: all nodes in one list, each naming its children by index,
/// with the roots listed separately.
#[derive(Clone, Debug)]
pub struct SceneTree {
    /// All nodes of the tree
    pub nodes: Vec<SceneNode>,
    /// Indices of the root nodes
    pub roots: Vec<NodeID>,
}

/// The error of a tree lookup that named no node.
#[derive(Clone, Copy, Debug, PartialEq, Eq, Structural)]
pub struct NodeNotFoundInTree;

impl NodeNotFoundInTree {
    /// A human-readable description of the error.
    pub fn message(&self) -> (s: &'static str)
        ensures
            s@ == "Node was not found in the tree"@,
    {
        "Node was not found in the tree"
    }
}

/// One node of a [`SceneTree`]: its children's indices and its object.
#[derive(Clone, Debug)]
pub struct SceneNode {
    /// Indices of this node's children
    pub children: Vec<NodeID>,
    /// The object this node holds
    pub value: GltfObject,
}

impl SceneNode {
    /// A childless node holding `value`.
    pub fn new(value: GltfObject) -> (r: Self)
        ensures
            r.children@.len() == 0,
            r.value == value,
    {
        SceneNode { children: Vec::new(), value }
    }
}

impl SceneTree {
    /// The empty tree.
    pub fn new() -> (r: Self)
        ensures
            r.nodes@.len() == 0,
            r.roots@.len() == 0,
    {
        SceneTree { nodes: Vec::new(), roots: Vec::new() }
    }

    /// Append a new childless node holding `value` and list it as a root;
    /// its index is returned.
    pub fn push_root(&mut self, value: GltfObject) -> (r: NodeID)
        requires
            old(self).nodes@.len() < u32::MAX,
        ensures
            r == old(self).nodes@.len(),
            final(self).nodes@.len() == old(self).nodes@.len() + 1,
            forall|j: int|
                0 <= j < old(self).nodes@.len() ==> final(self).nodes@[j] == old(self).nodes@[j],
            final(self).nodes@.last().value == value,
            final(self).nodes@.last().children@.len() == 0,
            final(self).roots@ == old(self).roots@.push(r),
    {
        let new_index = self.nodes.len();
        self.nodes.push(SceneNode::new(value));
        self.roots.push(new_index as NodeID);
        new_index as NodeID
    }

    /// The node at `node`, if the tree has one.
    pub fn get_node(&self, node: NodeID) -> (r: Option<&SceneNode>)
        ensures
            match r {
                Option::Some(n) => node < self.nodes@.len() && *n == self.nodes@[node as int],
                Option::None => node >= self.nodes@.len(),
            },
    {
        if (node as usize) < self.nodes.len() {
            Some(&self.nodes[node as usize])
        } else {
            None
        }
    }

    /// The object held at `node`, if the tree has such a node.
    pub fn get_value(&self, node: NodeID) -> (r: Option<&GltfObject>)
        ensures
            match r {
                Option::Some(v) => node < self.nodes@.len() && *v == self.nodes@[node as int].value,
                Option::None => node >= self.nodes@.len(),
            },
    {
        match self.get_node(node) {
            Option::Some(n) => Some(&n.value),
            Option::None => None,
        }
    }

    /// Find the first node whose object carries the given source-asset
    /// identifier.
    pub fn find_node(&self, find_id: usize) -> (r: Result<NodeID, NodeNotFoundInTree>)
        requires
            self.nodes@.len() <= u32::MAX,
        ensures
            match r {
                Result::Ok(id) => {
                    &&& id < self.nodes@.len()
                    &&& self.nodes@[id as int].value.spec_id() == find_id
                    &&& forall|j: int|
                        0 <= j < id ==> (#[trigger] self.nodes@[j]).value.spec_id() != find_id
                },
                Result::Err(_) => forall|j: int|
                    0 <= j < self.nodes@.len() ==> (#[trigger] self.nodes@[j]).value.spec_id()
                        != find_id,
            },
    {
        let mut id: usize = 0;
        while id < self.nodes.len()
            invariant
                id <= self.nodes@.len(),
                self.nodes@.len() <= u32::MAX,
                forall|j: int|
                    0 <= j < id ==> (#[trigger] self.nodes@[j]).value.spec_id() != find_id,
            decreases self.nodes@.len() - id,
        {
            if self.nodes[id].value.is_same_id(find_id) {
                proof {
                    assert(id < self.nodes@.len());
                    assert(id as int <= u32::MAX as int);
                    assert((id as NodeID) as int == id as int);
                }
                return Ok(id as NodeID);
            }
            id += 1;
        }
        Err(NodeNotFoundInTree)
    }

    /// Append a new childless node holding `value` and attach it as a
    /// child of `root_node`. The node is appended first, so when
    /// `root_node` names no node the new node stays in the list, orphaned,
    /// and the error is reported.
    pub fn push(&mut self, root_node: NodeID, value: GltfObject) -> (r: Result<
        NodeID,
        NodeNotFoundInTree,
    >)
        requires
            old(self).nodes@.len() < u32::MAX,
        ensures
            final(self).roots@ == old(self).roots@,
            final(self).nodes@.len() == old(self).nodes@.len() + 1,
            ({
                let n = old(self).nodes@.len() as int;
                if root_node < n {
                    &&& r == Ok::<NodeID, NodeNotFoundInTree>(n as NodeID)
                    &&& forall|j: int|
                        0 <= j < n && j != root_node ==> final(self).nodes@[j] == old(
                            self,
                        ).nodes@[j]
                    &&& final(self).nodes@[n].value == value
                    &&& final(self).nodes@[n].children@.len() == 0
                    &&& final(self).nodes@[root_node as int].value == old(
                        self,
                    ).nodes@[root_node as int].value
                    &&& final(self).nodes@[root_node as int].children@ == old(
                        self,
                    ).nodes@[root_node as int].children@.push(n as NodeID)
                } else if root_node == n {
                    &&& r == Ok::<NodeID, NodeNotFoundInTree>(n as NodeID)
                    &&& forall|j: int|
                        0 <= j < n ==> final(self).nodes@[j] == old(self).nodes@[j]
                    &&& final(self).nodes@[n].value == value
                    &&& final(self).nodes@[n].children@ == Seq::<NodeID>::empty().push(
                        n as NodeID,
                    )
                } else {
                    &&& r == Err::<NodeID, NodeNotFoundInTree>(NodeNotFoundInTree)
                    &&& forall|j: int|
                        0 <= j < n ==> final(self).nodes@[j] == old(self).nodes@[j]
                    &&& final(self).nodes@[n].value == value
                    &&& final(self).nodes@[n].children@.len() == 0
                }
            }),
    {
        let new_index = self.nodes.len();
        self.nodes.push(SceneNode::new(value));
        if (root_node as usize) < self.nodes.len() {
            let parent = vec_index_mut(&mut self.nodes, root_node as usize);
            parent.children.push(new_index as NodeID);
            Ok(new_index as NodeID)
        } else {
            Err(NodeNotFoundInTree)
        }
    }
}

} // verus!
