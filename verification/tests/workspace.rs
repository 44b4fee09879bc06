use labwc::workspace::{Workspace, WorkspaceManager};

#[test]
fn test_workspace_new() {
    let w = Workspace::new("test");
    assert_eq!(w.name, "test");
}

#[test]
fn test_workspace_manager_default() {
    let mgr = WorkspaceManager::new();
    assert_eq!(mgr.workspaces.len(), 4);
    assert_eq!(mgr.current().name, "1");
}

#[test]
fn test_workspace_switch() {
    let mut mgr = WorkspaceManager::new();
    assert!(mgr.switch_to("3"));
    assert_eq!(mgr.current().name, "3");
    assert!(!mgr.switch_to("nonexistent"));
}

#[test]
fn test_workspace_switch_relative() {
    let mut mgr = WorkspaceManager::new();
    mgr.switch_relative(1);
    assert_eq!(mgr.current().name, "2");
    mgr.switch_relative(-1);
    assert_eq!(mgr.current().name, "1");
    mgr.switch_relative(3);
    assert_eq!(mgr.current().name, "4");
    mgr.switch_relative(1);
    assert_eq!(mgr.current().name, "1");
}
