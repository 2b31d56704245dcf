use ldtray::{Menu, MenuId, MenuItem};

#[test]
fn button_is_enabled_plain_entry() {
    match MenuItem::button(1, "Say hi") {
        MenuItem::Button { id, label, enabled, checked } => {
            assert_eq!(id, MenuId(1));
            assert_eq!(label, "Say hi");
            assert!(enabled);
            assert_eq!(checked, None);
        }
        _ => panic!("expected a button"),
    }
}

#[test]
fn checkbox_carries_state() {
    match MenuItem::checkbox(2, "Toggle me", false) {
        MenuItem::Button { id, label, enabled, checked } => {
            assert_eq!(id, MenuId(2));
            assert_eq!(label, "Toggle me");
            assert!(enabled);
            assert_eq!(checked, Some(false));
        }
        _ => panic!("expected a button"),
    }
}

#[test]
fn separator_is_separator() {
    assert!(matches!(MenuItem::separator(), MenuItem::Separator));
}

#[test]
fn submenu_keeps_children_in_order() {
    let sub = MenuItem::submenu("More", vec![MenuItem::button(3, "Nested"), MenuItem::separator()]);
    match sub {
        MenuItem::Submenu { label, enabled, items } => {
            assert_eq!(label, "More");
            assert!(enabled);
            assert_eq!(items.len(), 2);
            assert!(matches!(items[0], MenuItem::Button { id: MenuId(3), .. }));
            assert!(matches!(items[1], MenuItem::Separator));
        }
        _ => panic!("expected a submenu"),
    }
}

#[test]
fn enabled_changes_only_the_flag() {
    match MenuItem::checkbox(4, "x", true).enabled(false) {
        MenuItem::Button { id, label, enabled, checked } => {
            assert_eq!(id, MenuId(4));
            assert_eq!(label, "x");
            assert!(!enabled);
            assert_eq!(checked, Some(true));
        }
        _ => panic!("expected a button"),
    }
    match MenuItem::submenu("s", vec![]).enabled(false) {
        MenuItem::Submenu { enabled, .. } => assert!(!enabled),
        _ => panic!("expected a submenu"),
    }
}

#[test]
fn enabled_is_a_no_op_on_separator() {
    assert!(matches!(MenuItem::separator().enabled(false), MenuItem::Separator));
}

#[test]
fn menu_appends_in_order() {
    let menu = Menu::new()
        .item(MenuItem::button(1, "Say hi"))
        .item(MenuItem::separator())
        .item(MenuItem::button(2, "Quit"));
    assert!(!menu.is_empty());
    let items = menu.items();
    assert_eq!(items.len(), 3);
    assert!(matches!(items[0], MenuItem::Button { id: MenuId(1), .. }));
    assert!(matches!(items[1], MenuItem::Separator));
    assert!(matches!(items[2], MenuItem::Button { id: MenuId(2), .. }));
}

#[test]
fn new_menu_is_empty() {
    assert!(Menu::new().is_empty());
    assert!(Menu::default().is_empty());
    assert_eq!(Menu::new().items().len(), 0);
}

#[test]
fn from_items_keeps_order() {
    let menu = Menu::from_items(vec![MenuItem::separator(), MenuItem::button(9, "Quit")]);
    assert_eq!(menu.items().len(), 2);
    assert!(matches!(menu.items()[1], MenuItem::Button { id: MenuId(9), .. }));
}

#[test]
fn clone_copies_nested_items() {
    let menu = Menu::new().item(MenuItem::submenu("More", vec![MenuItem::button(3, "Nested")]));
    let copy = menu.clone();
    match &copy.items()[0] {
        MenuItem::Submenu { label, items, .. } => {
            assert_eq!(label, "More");
            match &items[0] {
                MenuItem::Button { id, label, .. } => {
                    assert_eq!(*id, MenuId(3));
                    assert_eq!(label, "Nested");
                }
                _ => panic!("expected a button"),
            }
        }
        _ => panic!("expected a submenu"),
    }
}
