use labwc::menus::{Menu, MenuAction, MenuItem, MenuManager};

#[test]
fn test_menu_register_and_get() {
    let mut mgr = MenuManager::new();
    let menu = Menu {
        id: "test".into(),
        label: "Test".into(),
        items: vec![],
    };
    mgr.register(menu);
    assert!(mgr.get_by_id("test").is_some());
    assert!(mgr.get_by_id("nonexistent").is_none());
}

#[test]
fn test_menu_open_close() {
    let mut mgr = MenuManager::new();
    mgr.register(Menu {
        id: "root".into(),
        label: "Root".into(),
        items: vec![],
    });
    assert!(mgr.open("root", 100, 200));
    assert!(mgr.open_menu.is_some());
    mgr.close();
    assert!(mgr.open_menu.is_none());
}

fn item(label: &str) -> MenuItem {
    MenuItem {
        label: label.into(),
        action: MenuAction::Separator,
        icon: None,
        enabled: true,
        submenu: None,
    }
}

#[test]
fn test_menu_navigate() {
    let mut mgr = MenuManager::new();
    mgr.register(Menu {
        id: "root".into(),
        label: "Root".into(),
        items: vec![item("A"), item("B"), item("C")],
    });
    mgr.open("root", 0, 0);
    mgr.navigate(1);
    assert_eq!(mgr.open_menu.as_ref().unwrap().selected_index, 1);
    mgr.navigate(-1);
    assert_eq!(mgr.open_menu.as_ref().unwrap().selected_index, 0);
}

#[test]
fn open_unknown_menu_fails() {
    let mut mgr = MenuManager::new();
    assert!(!mgr.open("root", 0, 0));
    assert!(mgr.open_menu.is_none());
}

#[test]
fn navigate_wraps_around() {
    let mut mgr = MenuManager::new();
    mgr.register(Menu {
        id: "root".into(),
        label: "Root".into(),
        items: vec![item("A"), item("B"), item("C")],
    });
    mgr.open("root", 0, 0);
    mgr.navigate(-1);
    assert_eq!(mgr.open_menu.as_ref().unwrap().selected_index, 2);
    mgr.navigate(1);
    assert_eq!(mgr.open_menu.as_ref().unwrap().selected_index, 0);
    assert_eq!(mgr.item_count(), 3);
}

#[test]
fn lookup_finds_first_registered() {
    let mut mgr = MenuManager::new();
    mgr.register(Menu { id: "m".into(), label: "One".into(), items: vec![] });
    mgr.register(Menu { id: "m".into(), label: "Two".into(), items: vec![item("x")] });
    assert_eq!(mgr.get_by_id("m").unwrap().label, "One");
    assert_eq!(mgr.menus.len(), 2);
}
