use butter::scene_manager::node::{
    mark_components_ready, ready_component_named, ComponentId, ComponentIter, Node, NodeUserData,
};
use butter::scene_manager::scene_tree::SceneTree;
use butter::scene_manager::NodeId;

fn tree_with(names: &[&'static str]) -> (SceneTree<&'static str>, Vec<NodeId>) {
    let mut tree = SceneTree::new();
    let mut ids = Vec::new();
    for n in names {
        ids.push(tree.insert(Node::new(*n)));
    }
    (tree, ids)
}

#[test]
fn new_tree_is_empty() {
    let tree: SceneTree<u8> = SceneTree::new();
    assert_eq!(tree.len(), 0);
    assert_eq!(tree.root(), None);
    assert!(tree.iter_vec_root().is_empty());
}

#[test]
fn inserted_nodes_are_found() {
    let (tree, ids) = tree_with(&["a", "b"]);
    assert_eq!(tree.len(), 2);
    assert!(tree.node_exists(ids[0]));
    assert_eq!(tree.get(ids[1]).data, "b");
    assert_eq!(tree.get(ids[0]).parent, None);
    assert!(tree.get(ids[0]).children.is_empty());
    assert!(!tree.node_exists(NodeId::placeholder()));
}

#[test]
fn set_parent_links_both_ways() {
    let (mut tree, ids) = tree_with(&["r", "a", "b"]);
    tree.set_parent(ids[1], Some(ids[0]));
    tree.set_parent(ids[2], Some(ids[0]));
    assert_eq!(tree.get(ids[1]).parent, Some(ids[0]));
    assert_eq!(tree.get(ids[0]).children, vec![ids[1], ids[2]]);

    tree.set_parent(ids[1], Some(ids[2]));
    assert_eq!(tree.get(ids[0]).children, vec![ids[2]]);
    assert_eq!(tree.get(ids[2]).children, vec![ids[1]]);
    assert_eq!(tree.get(ids[1]).parent, Some(ids[2]));

    tree.set_parent(ids[1], None);
    assert!(tree.get(ids[2]).children.is_empty());
    assert_eq!(tree.get(ids[1]).parent, None);
}

#[test]
fn iter_vec_lists_children_before_parents() {
    let (mut tree, ids) = tree_with(&["r", "a", "b", "c", "other"]);
    let (r, a, b, c) = (ids[0], ids[1], ids[2], ids[3]);
    tree.set_parent(a, Some(r));
    tree.set_parent(b, Some(r));
    tree.set_parent(c, Some(a));
    assert_eq!(tree.iter_vec(r), vec![c, a, b, r]);
    assert_eq!(tree.iter_vec(a), vec![c, a]);
    assert_eq!(tree.iter_vec(c), vec![c]);
}

#[test]
fn root_of_the_scene() {
    let (mut tree, ids) = tree_with(&["r", "a"]);
    tree.set_parent(ids[1], Some(ids[0]));
    tree.set_root_node(ids[0]);
    assert_eq!(tree.root(), Some(ids[0]));
    assert_eq!(tree.iter_vec_root(), vec![ids[1], ids[0]]);
}

#[test]
fn get_mut_changes_a_node() {
    let (mut tree, ids) = tree_with(&["r"]);
    tree.get_mut(ids[0]).queued_free = true;
    tree.get_mut(ids[0]).data = "renamed";
    assert!(tree.get(ids[0]).queued_free);
    assert_eq!(tree.get(ids[0]).data, "renamed");
}

#[test]
fn instantiate_builds_the_template() {
    let (mut tree, old) = tree_with(&["existing"]);
    let template = vec![(None, "root"), (Some(0), "a"), (Some(0), "b"), (Some(1), "c")];
    assert!(tree.has_room_for(template.len()));
    let ids = tree.instantiate(template);
    assert_eq!(ids.len(), 4);
    assert_eq!(tree.len(), 5);
    for (i, id) in ids.iter().enumerate() {
        assert_eq!(tree.get(*id).node_id, *id);
        assert!(!tree.get(*id).queued_free);
        assert!(!old.contains(id));
        assert!(ids[..i].iter().all(|x| x != id));
    }
    assert_eq!(tree.get(ids[0]).data, "root");
    assert_eq!(tree.get(ids[0]).parent, None);
    assert_eq!(tree.get(ids[0]).children, vec![ids[1], ids[2]]);
    assert_eq!(tree.get(ids[1]).parent, Some(ids[0]));
    assert_eq!(tree.get(ids[1]).children, vec![ids[3]]);
    assert_eq!(tree.get(ids[3]).parent, Some(ids[1]));
    assert_eq!(tree.get(ids[3]).data, "c");
    assert!(tree.get(old[0]).children.is_empty());
    assert_eq!(tree.iter_vec(ids[0]), vec![ids[3], ids[1], ids[2], ids[0]]);
}

#[test]
fn instantiate_empty_template() {
    let (mut tree, _) = tree_with(&["x"]);
    let ids = tree.instantiate(Vec::new());
    assert!(ids.is_empty());
    assert_eq!(tree.len(), 1);
}

#[test]
fn node_ids_from_indices() {
    let id = NodeId::from_idx(7);
    assert_eq!(id.idx(), 7);
    assert_eq!(id.0.gen, 0);
    assert_eq!(NodeId::placeholder().idx(), usize::MAX);
}

#[test]
fn component_ids_walk_in_order() {
    let mut it = ComponentIter::new(3);
    assert_eq!(it.next(), Some(ComponentId::new_unck(0)));
    assert_eq!(it.next(), Some(ComponentId::new_unck(1)));
    assert_eq!(it.next(), Some(ComponentId::new_unck(2)));
    assert_eq!(it.next(), None);
    assert_eq!(it.next(), None);
    assert_eq!(ComponentId::new_unck(9).inner(), 9);
    let u = NodeUserData(NodeId::from_idx(1), ComponentId::new_unck(2));
    assert_eq!(u.1.inner(), 2);
}

#[test]
fn render_order_visits_parents_first() {
    let (mut tree, ids) = tree_with(&["r", "a", "b", "c"]);
    let (r, a, b, c) = (ids[0], ids[1], ids[2], ids[3]);
    assert!(tree.render_order().is_empty());
    tree.set_parent(a, Some(r));
    tree.set_parent(b, Some(r));
    tree.set_parent(c, Some(a));
    tree.set_root_node(r);
    assert_eq!(tree.render_order(), vec![r, b, a, c]);
}

#[test]
fn instantiate_uses_the_next_ids() {
    let (mut tree, old) = tree_with(&["x", "y", "z"]);
    tree.map.remove(old[1].0);
    let ids = tree.instantiate(vec![(None, "p"), (Some(0), "q")]);
    assert_eq!(ids[0].0.idx, old[1].0.idx);
    assert_eq!(ids[0].0.gen, old[1].0.gen + 1);
    assert_eq!(ids[1].0.idx, 3);
    assert_eq!(ids[1].0.gen, 1);
}

#[test]
fn moving_a_node_under_its_own_child_keeps_links_mirrored() {
    let (mut tree, ids) = tree_with(&["a", "b"]);
    tree.set_parent(ids[1], Some(ids[0]));
    tree.set_parent(ids[0], Some(ids[1]));
    assert_eq!(tree.get(ids[0]).parent, Some(ids[1]));
    assert_eq!(tree.get(ids[1]).children, vec![ids[0]]);
    assert_eq!(tree.get(ids[0]).children, vec![ids[1]]);
}

#[test]
fn components_are_readied_once() {
    let mut ready = vec![true, false, false, true, false];
    let ids = mark_components_ready(&mut ready);
    assert_eq!(ids, vec![ComponentId::new_unck(1), ComponentId::new_unck(2), ComponentId::new_unck(4)]);
    assert_eq!(ready, vec![true; 5]);
    assert!(mark_components_ready(&mut ready).is_empty());
}

#[test]
fn queue_free_marks_the_subtree_only() {
    let (mut tree, ids) = tree_with(&["r", "a", "b", "c", "other"]);
    let (r, a, b, c, other) = (ids[0], ids[1], ids[2], ids[3], ids[4]);
    tree.set_parent(a, Some(r));
    tree.set_parent(b, Some(r));
    tree.set_parent(c, Some(a));
    assert_eq!(tree.queue_free(a), vec![c, a]);
    assert!(tree.get(a).queued_free);
    assert!(tree.get(c).queued_free);
    assert!(!tree.get(r).queued_free);
    assert!(!tree.get(b).queued_free);
    assert!(!tree.get(other).queued_free);
    assert_eq!(tree.get(a).children, vec![c]);
    assert_eq!(tree.get(a).parent, Some(r));
    assert_eq!(*tree.get(c).data, *"c");
    assert_eq!(tree.queue_free(r), vec![c, a, b, r]);
    assert!(tree.get(r).queued_free && tree.get(b).queued_free);
    assert!(!tree.get(other).queued_free);
}

#[test]
fn readying_all_ready_components_gives_nothing() {
    let mut ready = vec![true; 3];
    assert!(mark_components_ready(&mut ready).is_empty());
    assert_eq!(ready, vec![true; 3]);
    let mut none: Vec<bool> = Vec::new();
    assert!(mark_components_ready(&mut none).is_empty());
}

#[test]
fn components_are_found_by_script_name() {
    let scripts = vec!["player".to_string(), "gun".to_string(), "gun".to_string()];
    let mut ready = vec![true, false, false];
    assert_eq!(
        ready_component_named(&scripts, &mut ready, "gun"),
        Some((ComponentId::new_unck(1), true))
    );
    assert_eq!(ready, vec![true, true, false]);
    assert_eq!(
        ready_component_named(&scripts, &mut ready, "gun"),
        Some((ComponentId::new_unck(1), false))
    );
    assert_eq!(
        ready_component_named(&scripts, &mut ready, "player"),
        Some((ComponentId::new_unck(0), false))
    );
    assert_eq!(ready_component_named(&scripts, &mut ready, "enemy"), None);
    assert_eq!(ready_component_named(&scripts, &mut ready, "Gun"), None);
    assert_eq!(ready, vec![true, true, false]);
}
