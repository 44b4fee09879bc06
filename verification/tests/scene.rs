use labwc::scene::{DeferredCleanup, Scene, SceneNode, SceneNodeKind};

#[test]
fn test_node_creation() {
    let node = SceneNode::new(SceneNodeKind::Rect);
    assert!(node.id > 0);
    assert!(node.enabled);
}

#[test]
fn test_node_tree() {
    let mut root = SceneNode::new_tree();
    let child = SceneNode::new(SceneNodeKind::Rect);
    root.add_child(child);
    assert_eq!(root.child_count(), 1);
}

#[test]
fn test_node_remove() {
    let mut root = SceneNode::new_tree();
    let child = SceneNode::new(SceneNodeKind::Buffer);
    let child_id = child.id;
    root.add_child(child);
    assert!(root.remove_child(child_id).is_some());
    assert_eq!(root.child_count(), 0);
}

#[test]
fn test_deferred_cleanup_ordered() {
    let mut dc = DeferredCleanup::default();
    dc.schedule(1, 2);
    dc.schedule(2, 3);
    dc.schedule(3, 5);
    assert_eq!(dc.pending_count(), 3);

    let freed = dc.retire(2);
    assert_eq!(freed.len(), 1);
    assert!(freed.contains(&1));
    assert_eq!(dc.pending_count(), 2);

    let freed = dc.retire(3);
    assert_eq!(freed.len(), 1);
    assert!(freed.contains(&2));
    assert_eq!(dc.pending_count(), 1);

    let freed = dc.retire(5);
    assert_eq!(freed.len(), 1);
    assert!(freed.contains(&3));
    assert_eq!(dc.pending_count(), 0);
}

#[test]
fn test_deferred_cleanup_unordered() {
    let mut dc = DeferredCleanup::default();
    dc.schedule(1, 5);
    dc.schedule(2, 2);
    dc.schedule(3, 3);
    assert_eq!(dc.pending_count(), 3);
    let freed = dc.retire(3);
    assert_eq!(freed.len(), 2);
    assert!(freed.contains(&2));
    assert!(freed.contains(&3));
    assert_eq!(dc.pending_count(), 1);
}

#[test]
fn test_scene_schedule_cleanup() {
    let mut scene = Scene::new();
    let node_id = scene.root.id;
    scene.schedule_cleanup(node_id);
    assert!(scene.deferred.pending_count() > 0);
}

#[test]
fn test_scene_frame_cycle() {
    let mut scene = Scene::new();
    let fc = scene.begin_frame();
    scene.end_frame();
    assert!(fc < scene.frame_counter.load(std::sync::atomic::Ordering::Relaxed));
}
