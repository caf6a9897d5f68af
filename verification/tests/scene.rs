use vtrace::matrix::{Matrix4, ONE_BITS};
use vtrace::render::TextureHandle;
use vtrace::scene::SceneGraph;

fn tagged(tag: u32) -> Matrix4 {
    let mut m = Matrix4::identity();
    m.columns[3][0] = tag;
    m
}

fn leaf(tag: u32, id: u32) -> SceneGraph {
    SceneGraph::new_child(tagged(tag), TextureHandle { id })
}

fn group(tag: u32, children: Vec<SceneGraph>) -> SceneGraph {
    let mut node = SceneGraph::new();
    *node.get_model_mut() = tagged(tag);
    for child in children {
        node.add_child(child);
    }
    node
}

fn flatten(scene: SceneGraph) -> Vec<(Vec<u32>, u32)> {
    let mut walk = scene.into_iter();
    let mut out = Vec::new();
    while let Some((path, handle)) = walk.next() {
        out.push((path.iter().map(|m| m.columns[3][0]).collect(), handle.id));
    }
    assert!(walk.next().is_none());
    out
}

#[test]
fn identity_has_ones_on_the_diagonal() {
    let m = Matrix4::identity();
    for column in 0..4 {
        for row in 0..4 {
            let expected = if column == row { ONE_BITS } else { 0 };
            assert_eq!(m.columns[column][row], expected);
        }
    }
    assert_eq!(ONE_BITS, 1.0f32.to_bits());
}

#[test]
fn new_scene_is_an_empty_parent_under_the_identity() {
    let scene = SceneGraph::new();
    assert_eq!(scene.num_total_children(), 0);
    assert_eq!(*scene.get_model(), Matrix4::identity());
    match &scene {
        SceneGraph::Parent { children, total_children, .. } => {
            assert!(children.is_empty());
            assert_eq!(*total_children, 0);
        }
        SceneGraph::Child { .. } => panic!("a new scene is a parent"),
    }
    assert!(flatten(scene).is_empty());
}

#[test]
fn new_child_is_a_leaf_counting_one() {
    let scene = leaf(7, 3);
    assert_eq!(scene.num_total_children(), 1);
    assert_eq!(*scene.get_model(), tagged(7));
    assert_eq!(flatten(scene), vec![(vec![7], 3)]);
}

#[test]
fn get_model_mut_changes_only_the_model() {
    let mut scene = group(1, vec![leaf(2, 0), leaf(3, 1)]);
    *scene.get_model_mut() = tagged(9);
    assert_eq!(*scene.get_model(), tagged(9));
    assert_eq!(scene.num_total_children(), 2);
    assert_eq!(flatten(scene), vec![(vec![9, 2], 0), (vec![9, 3], 1)]);

    let mut single = leaf(4, 8);
    *single.get_model_mut() = tagged(5);
    assert_eq!(flatten(single), vec![(vec![5], 8)]);
}

#[test]
fn add_child_to_a_parent_appends_and_counts() {
    let mut scene = SceneGraph::new();
    scene.add_child(leaf(1, 10));
    assert_eq!(scene.num_total_children(), 1);
    scene.add_child(group(2, vec![leaf(3, 11), leaf(4, 12)]));
    assert_eq!(scene.num_total_children(), 3);
    scene.add_child(SceneGraph::new());
    assert_eq!(scene.num_total_children(), 3);
    match &scene {
        SceneGraph::Parent { children, .. } => assert_eq!(children.len(), 3),
        SceneGraph::Child { .. } => panic!("still a parent"),
    }
}

#[test]
fn add_child_to_a_leaf_makes_it_a_parent_of_two() {
    let mut scene = leaf(5, 20);
    scene.add_child(leaf(6, 21));
    assert_eq!(scene.num_total_children(), 2);
    assert_eq!(*scene.get_model(), tagged(5));
    match &scene {
        SceneGraph::Parent { children, total_children, model } => {
            assert_eq!(*total_children, 2);
            assert_eq!(*model, tagged(5));
            assert_eq!(children.len(), 2);
            match &children[0] {
                SceneGraph::Child { model, texture_handle } => {
                    assert_eq!(*model, Matrix4::identity());
                    assert_eq!(texture_handle.id, 20);
                }
                SceneGraph::Parent { .. } => panic!("the old leaf stays a leaf"),
            }
            match &children[1] {
                SceneGraph::Child { model, texture_handle } => {
                    assert_eq!(*model, tagged(6));
                    assert_eq!(texture_handle.id, 21);
                }
                SceneGraph::Parent { .. } => panic!("the new child is a leaf"),
            }
        }
        SceneGraph::Child { .. } => panic!("a leaf with a child is a parent"),
    }
    // the identity has tag 0 in the element that `tagged` writes
    assert_eq!(flatten(scene), vec![(vec![5, 0], 20), (vec![5, 6], 21)]);
}

#[test]
fn walk_is_depth_first_with_the_path_from_the_root() {
    let scene = group(
        1,
        vec![
            group(2, vec![leaf(3, 100), leaf(4, 101)]),
            leaf(5, 102),
            group(6, vec![group(7, vec![leaf(8, 103)]), leaf(9, 104)]),
        ],
    );
    assert_eq!(scene.num_total_children(), 5);
    assert_eq!(
        flatten(scene),
        vec![
            (vec![1, 2, 3], 100),
            (vec![1, 2, 4], 101),
            (vec![1, 5], 102),
            (vec![1, 6, 7, 8], 103),
            (vec![1, 6, 9], 104),
        ]
    );
}

#[test]
fn walk_skips_parents_without_leaves() {
    let scene = group(1, vec![SceneGraph::new(), leaf(2, 7), group(3, vec![SceneGraph::new()])]);
    assert_eq!(scene.num_total_children(), 1);
    assert_eq!(flatten(scene), vec![(vec![1, 2], 7)]);
}

#[test]
fn walk_hands_out_as_many_leaves_as_counted() {
    let mut scene = SceneGraph::new();
    for id in 0..121 {
        scene.add_child(leaf(id, id % 2));
    }
    assert_eq!(scene.num_total_children(), 121);
    let flat = flatten(scene);
    assert_eq!(flat.len(), 121);
    for (n, (path, id)) in flat.iter().enumerate() {
        assert_eq!(path, &vec![0, n as u32]);
        assert_eq!(*id, n as u32 % 2);
    }
}
