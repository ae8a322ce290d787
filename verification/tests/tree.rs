//! The node tree: fluent building, depth-first traversal, and reindexing.

use glam::Vec3;
use glmesh::nodetree::Node;

#[derive(Debug, PartialEq, Clone, Copy)]
struct Transform {
    position: Vec3,
    rotation: Vec3,
    scale: Vec3,
}

impl Transform {
    fn new(position: Vec3, rotation: Vec3, scale: Vec3) -> Self {
        Self { position, rotation, scale }
    }
}

#[test]
fn test_node_tree_api() {
    // Base
    let base_pos = Vec3::new(3.0, -5.0, -40.0);
    let base_ang = -45.0;
    let base = Transform::new(base_pos, Vec3::Y * base_ang, Vec3::ONE);

    let base_scale_z = 3.0;
    let base_scale = Vec3::new(1.0, 1.0, base_scale_z);
    let base_left_pos = Vec3::new(2.0, 0.0, 0.0);
    let base_right_pos = Vec3::new(-2.0, 0.0, 0.0);
    let left_base = Transform::new(base_left_pos, Vec3::ZERO, base_scale);
    let right_base = Transform::new(base_right_pos, Vec3::ZERO, base_scale);

    // Upper arm
    let upper_arm_ang = -50.0;
    let upper_arm_base = Transform::new(Vec3::ZERO, Vec3::X * upper_arm_ang, Vec3::ONE);

    let upper_arm_size = 9.0;
    let upper_arm_pos = Vec3::Z * (upper_arm_size / 2.0 - 1.0);
    let upper_arm_scale = Vec3::new(1.0, 1.0, upper_arm_size / 2.0);

    let upper_arm = Transform::new(upper_arm_pos, Vec3::ZERO, upper_arm_scale);
    // Lower arm

    let lower_arm_pos = Vec3::new(0.0, 0.0, 8.0);
    let lower_arm_ang = 60.0;
    let lower_arm_base = Transform::new(lower_arm_pos, Vec3::X * lower_arm_ang, Vec3::ONE);

    let lower_arm_len = 5.0;
    let lower_arm_width = 1.5;
    let lower_arm_pos = Vec3::Z * (lower_arm_len * 0.5);
    let lower_arm_scale = Vec3::new(
        lower_arm_width * 0.5,
        lower_arm_width * 0.5,
        lower_arm_len * 0.5,
    );
    let lower_arm = Transform::new(lower_arm_pos, Vec3::ZERO, lower_arm_scale);

    // Wrist
    let wrist_pos = Vec3::new(0.0, 0.0, 5.0);
    let wrist_roll_ang = 0.0;
    let wrist_pitch_ang = 90.0;
    let wrist_base = Transform::new(
        wrist_pos,
        Vec3::new(wrist_pitch_ang, 0.0, wrist_roll_ang),
        Vec3::ONE,
    );
    let wrist_len = 2.0;
    let wrist_width = 2.0;
    let wrist_scale = Vec3::new(wrist_width * 0.5, wrist_width * 0.5, wrist_len * 0.5);
    let wrist = Transform::new(Vec3::ZERO, Vec3::ZERO, wrist_scale);

    // Fingers
    let left_finger_pos = Vec3::new(1.0, 0.0, 1.0);
    let finger_open_ang = 70.0;
    let left_finger = Transform::new(left_finger_pos, Vec3::Y * finger_open_ang, Vec3::ONE);

    let finger_len = 2.0;
    let finger_width = 0.5;
    let finger_pos = Vec3::Z * finger_len * 0.5;
    let finger_scale = Vec3::new(finger_width * 0.5, finger_width * 0.5, finger_len * 0.5);
    let finger = Transform::new(finger_pos, Vec3::ZERO, finger_scale);
    let lower_finger_ang = 45.0;
    let lower_finger_left =
        Transform::new(Vec3::Z * finger_len, Vec3::Y * -lower_finger_ang, Vec3::ONE);

    let right_finger_pos = Vec3::new(-1.0, 0.0, 1.0);
    let right_finger = Transform::new(right_finger_pos, Vec3::Y * -finger_open_ang, Vec3::ONE);
    let lower_finger_right =
        Transform::new(Vec3::Z * finger_len, Vec3::Y * lower_finger_ang, Vec3::ONE);

    let fingers = Node::new(finger).nodes(vec![
        Node::new(left_finger).leaves([lower_finger_left]),
        Node::new(right_finger).leaves([lower_finger_right]),
    ]);
    let wrist = Node::new(wrist_base).node(Node::new(wrist).node(fingers));
    let lower_arm = Node::new(lower_arm_base).node(Node::new(lower_arm).node(wrist));
    let upper_arm = Node::new(upper_arm_base).node(Node::new(upper_arm).node(lower_arm));
    let root = Node::new(base)
        .leaves([left_base, right_base])
        .node(upper_arm);
    // every node of the arm is reachable depth first
    assert_eq!(root.visit().len(), 13);
}

#[test]
fn test_visit_depth_first() {
    let tree = Node::new(1u32).node(Node::new(2).leaf(4)).leaf(3);
    // children before siblings, the root itself left out; fresh nodes carry
    // index 0
    assert_eq!(tree.visit(), vec![(0usize, 2u32), (0, 4), (0, 3)]);
}

#[test]
fn test_rebuild_indices_assigns_positions() {
    let mut tree = Node::new(1u32).node(Node::new(2).leaf(4).leaf(5)).leaf(3);
    tree.rebuild_indices();
    assert_eq!(tree.visit(), vec![(0usize, 2u32), (0, 4), (1, 5), (1, 3)]);
}

#[test]
fn test_add_builders() {
    let mut tree = Node::new(0u32);
    tree.add_leaf(1);
    tree.add_leaves([2, 3]);
    tree.add_node(Node::new(4).leaf(5));
    tree.add_nodes(vec![Node::new(6), Node::new(7)]);
    assert_eq!(
        tree.visit(),
        vec![(0usize, 1u32), (0, 2), (0, 3), (0, 4), (0, 5), (0, 6), (0, 7)]
    );
}
