use gltf_for_renpy::gltf_objects::{Empty, GltfObject, Property, RenpyScene};
use gltf_for_renpy::renpy_interop::{
    GLTFResult, ImmutableRenpyList, NodeNotFoundInTree, Nullable, SceneNode, SceneTree,
};
use gltf_for_renpy::utils::DecomposedTransform;
use gltf_for_renpy::ResultCode;

fn empty_object(id: usize) -> GltfObject {
    GltfObject::Empty(
        vec![id],
        Box::new(Empty {
            id,
            name: format!("scene:object{id}"),
            transform: DecomposedTransform::default(),
            animations: Vec::new(),
            properties: Vec::new(),
        }),
    )
}

#[test]
fn asad() {}

#[test]
fn nullable_wraps_and_detects_absence() {
    let full = Nullable::new(42u32);
    let nothing: Nullable<u32> = Nullable::null();
    assert!(!full.is_null());
    assert!(nothing.is_null());
    assert_eq!(full.value, Some(42));
    assert_eq!(nothing.value, None);
}

#[test]
fn immutable_list_keeps_its_contents() {
    let from_vec = ImmutableRenpyList::from(vec![1u8, 2, 3]);
    assert_eq!(from_vec.content, vec![1, 2, 3]);
    assert_eq!(from_vec.len, 3);

    let from_slice = ImmutableRenpyList::from_slice(&[9u32, 8]);
    assert_eq!(from_slice.content, vec![9, 8]);
    assert_eq!(from_slice.len, 2);

    let empty: ImmutableRenpyList<u64> = ImmutableRenpyList::empty();
    assert_eq!(empty.len, 0);
    assert!(empty.content.is_empty());

    let renamed = ImmutableRenpyList::new(vec![7i64]);
    assert_eq!(renamed.content, vec![7]);
    assert_eq!(renamed.len, 1);
}

#[test]
fn gltf_result_reports_outcomes() {
    let ok = GLTFResult::ok(5u8);
    assert!(ok.is_ok());
    assert_eq!(ok.result_type, ResultCode::Success);
    assert_eq!(ok.error_description, "");
    assert_eq!(ok.content.value, Some(5));

    let err: GLTFResult<u8> =
        GLTFResult::error(ResultCode::InvalidPath, "no such path".to_string());
    assert!(!err.is_ok());
    assert_eq!(err.result_type, ResultCode::InvalidPath);
    assert_eq!(err.error_description, "no such path");
    assert!(err.content.value.is_none());

    let built = GLTFResult::new(ResultCode::BadFileProcessing, "went wrong".to_string(), 1u8);
    assert_eq!(built.result_type, ResultCode::BadFileProcessing);
    assert_eq!(built.error_description, "went wrong");
    assert_eq!(built.content.value, Some(1));
}

#[test]
fn scene_tree_push_and_lookup() {
    let mut tree = SceneTree::new();
    let root = tree.push_root(empty_object(100));
    assert_eq!(root, 0);
    let child = tree.push(root, empty_object(200)).unwrap();
    assert_eq!(child, 1);
    let grandchild = tree.push(child, empty_object(300)).unwrap();
    assert_eq!(grandchild, 2);

    assert_eq!(tree.roots, vec![0]);
    assert_eq!(tree.get_node(root).unwrap().children, vec![1]);
    assert_eq!(tree.get_node(child).unwrap().children, vec![2]);
    assert!(tree.get_node(99).is_none());

    match tree.get_value(grandchild).unwrap() {
        GltfObject::Empty(_, e) => assert_eq!(e.id, 300),
        GltfObject::Mesh(..) => panic!("expected an empty object"),
    }
    assert!(tree.get_value(99).is_none());
}

#[test]
fn scene_tree_find_node_by_asset_id() {
    let mut tree = SceneTree::new();
    tree.push_root(empty_object(100));
    let second = tree.push(0, empty_object(200)).unwrap();
    assert_eq!(tree.find_node(200).unwrap(), second);
    assert_eq!(tree.find_node(100).unwrap(), 0);
    assert_eq!(tree.find_node(12345).unwrap_err(), NodeNotFoundInTree);
}

#[test]
fn scene_tree_push_under_missing_parent_reports_error() {
    let mut tree = SceneTree::new();
    tree.push_root(empty_object(1));
    let r = tree.push(500, empty_object(2));
    assert_eq!(r.unwrap_err(), NodeNotFoundInTree);
    // The node was appended before the parent lookup failed, as the
    // embedding layer expects.
    assert_eq!(tree.nodes.len(), 2);
}

#[test]
fn node_not_found_message() {
    assert_eq!(NodeNotFoundInTree.message(), "Node was not found in the tree");
}

#[test]
fn property_load_keeps_entries_in_order() {
    let entries = vec![
        ("author".to_string(), "someone".to_string()),
        ("license".to_string(), "free".to_string()),
    ];
    let props = Property::load(Some(entries));
    assert_eq!(props.len(), 2);
    assert_eq!(props[0].name, "author");
    assert_eq!(props[0].value, "someone");
    assert_eq!(props[1].name, "license");
    assert_eq!(props[1].value, "free");

    let none = Property::load(None);
    assert!(none.is_empty());
}

#[test]
fn scene_nodes_report_their_ids() {
    let obj = empty_object(55);
    assert!(obj.is_same_id(55));
    assert!(!obj.is_same_id(56));
    let node = SceneNode::new(empty_object(7));
    assert!(node.children.is_empty());
}

#[test]
fn renpy_scene_holds_its_parts() {
    let mut tree = SceneTree::new();
    let root = tree.push_root(empty_object(1));
    let scene = RenpyScene {
        name: "main".to_string(),
        objects: tree,
        properties: Property::load(None),
        mesh_indexes: Vec::new(),
        empty_indexes: vec![root],
    };
    assert_eq!(scene.name, "main");
    assert_eq!(scene.objects.nodes.len(), 1);
    assert_eq!(scene.empty_indexes, vec![0]);
    assert!(scene.mesh_indexes.is_empty());
    assert!(scene.properties.is_empty());
}
