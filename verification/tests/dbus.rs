use ldtray::dbus::dbusmenu::DbusMenu;
use ldtray::dbus::notify::{notify_call, notify_id};
use ldtray::dbus::props::{dict_entry, empty_array, entry_sig, pixmap, variant, PropValue};
use ldtray::dbus::read::leading_strings;
use ldtray::dbus::value::{DValue, Sig};
use ldtray::text::decimal_string;
use ldtray::{Icon, Menu, MenuItem, Notification};

fn variant_sig(v: &DValue) -> String {
    match v {
        DValue::Variant(inner) => inner.type_sig().text(),
        _ => panic!("expected a variant"),
    }
}

fn demo_menu() -> Menu {
    Menu::new()
        .item(MenuItem::button(1, "One"))
        .item(MenuItem::checkbox(2, "Toggle", true))
        .item(MenuItem::separator())
        .item(MenuItem::submenu("More", vec![MenuItem::button(3, "Nested")]))
        .item(MenuItem::button(9, "Quit"))
}

fn entry_key(e: &DValue) -> String {
    match e {
        DValue::DictEntry(k, _) => match &**k {
            DValue::Str(s) => s.clone(),
            _ => panic!("key must be a string"),
        },
        _ => panic!("expected a dict entry"),
    }
}

fn props_keys(v: &DValue) -> Vec<String> {
    match v {
        DValue::Array(_, entries) => entries.iter().map(entry_key).collect(),
        _ => panic!("expected an array"),
    }
}

#[test]
fn decimal_spelling() {
    assert_eq!(decimal_string(0), "0");
    assert_eq!(decimal_string(7), "7");
    assert_eq!(decimal_string(10), "10");
    assert_eq!(decimal_string(4294967295), "4294967295");
    assert_eq!(decimal_string(u64::MAX), "18446744073709551615");
}

#[test]
fn property_variant_signatures() {
    assert_eq!(variant_sig(&variant(PropValue::Str("x".to_string()))), "s");
    assert_eq!(variant_sig(&variant(PropValue::ObjectPath("/MenuBar".to_string()))), "o");
    assert_eq!(variant_sig(&variant(PropValue::Bool(true))), "b");
    assert_eq!(variant_sig(&variant(PropValue::Int32(-5))), "i");
    let pm = PropValue::Pixmap { width: 1, height: 1, argb: vec![1, 2, 3, 4] };
    assert_eq!(variant_sig(&variant(pm)), "a(iiay)");
    let tip = PropValue::ToolTip { title: "T".to_string(), body: "B".to_string() };
    assert_eq!(variant_sig(&variant(tip)), "(sa(iiay)ss)");
    assert_eq!(entry_sig().text(), "{sv}");
}

#[test]
fn pixmap_holds_one_entry() {
    match pixmap(2, 3, vec![9; 24]) {
        DValue::Array(sig, items) => {
            assert_eq!(sig.text(), "(iiay)");
            assert_eq!(items.len(), 1);
            match &items[0] {
                DValue::Struct(fs) => {
                    assert!(matches!(fs[0], DValue::Int32(2)));
                    assert!(matches!(fs[1], DValue::Int32(3)));
                    assert!(matches!(&fs[2], DValue::Bytes(b) if b.len() == 24));
                }
                _ => panic!("expected a struct"),
            }
        }
        _ => panic!("expected an array"),
    }
    match empty_array(Sig::Str) {
        DValue::Array(sig, items) => {
            assert_eq!(sig.text(), "s");
            assert!(items.is_empty());
        }
        _ => panic!("expected an array"),
    }
}

#[test]
fn dict_entry_is_key_and_variant() {
    let e = dict_entry("label", PropValue::Str("Quit".to_string()));
    assert_eq!(e.type_sig().text(), "{sv}");
    assert_eq!(entry_key(&e), "label");
}

#[test]
fn menu_table_is_preorder() {
    let menu = demo_menu();
    let m = DbusMenu::build(Some(&menu), 4);
    assert_eq!(m.revision(), 4);
    // ids: 0 root, 1 One, 2 Toggle, 3 separator, 4 More, 5 Nested, 6 Quit
    assert_eq!(m.menu_id_for(0), None);
    assert_eq!(m.menu_id_for(1), Some(1));
    assert_eq!(m.menu_id_for(2), Some(2));
    assert_eq!(m.menu_id_for(3), None);
    assert_eq!(m.menu_id_for(4), None);
    assert_eq!(m.menu_id_for(5), Some(3));
    assert_eq!(m.menu_id_for(6), Some(9));
    assert_eq!(m.menu_id_for(7), None);
    assert_eq!(m.menu_id_for(-1), None);
}

#[test]
fn empty_table_has_only_root() {
    let m = DbusMenu::build(None, 1);
    assert_eq!(m.menu_id_for(0), None);
    assert!(m.layout(1, -1).is_none());
    let root = m.layout(0, -1).unwrap();
    assert_eq!(root.type_sig().text(), "(ia{sv}av)");
}

fn layout_children(v: &DValue) -> &Vec<DValue> {
    match v {
        DValue::Struct(fs) => match &fs[2] {
            DValue::Array(_, kids) => kids,
            _ => panic!("expected children array"),
        },
        _ => panic!("expected a layout struct"),
    }
}

fn layout_props(v: &DValue) -> &DValue {
    match v {
        DValue::Struct(fs) => &fs[1],
        _ => panic!("expected a layout struct"),
    }
}

#[test]
fn layout_depth_controls_children() {
    let menu = demo_menu();
    let m = DbusMenu::build(Some(&menu), 1);
    let full = m.layout(0, -1).unwrap();
    assert_eq!(full.type_sig().text(), "(ia{sv}av)");
    assert_eq!(layout_children(&full).len(), 5);
    let more = match &layout_children(&full)[3] {
        DValue::Variant(inner) => &**inner,
        _ => panic!("children are variants"),
    };
    assert_eq!(layout_children(more).len(), 1);

    let shallow = m.layout(0, 1).unwrap();
    assert_eq!(layout_children(&shallow).len(), 5);
    let more = match &layout_children(&shallow)[3] {
        DValue::Variant(inner) => &**inner,
        _ => panic!("children are variants"),
    };
    assert_eq!(layout_children(more).len(), 0);

    let none = m.layout(0, 0).unwrap();
    assert_eq!(layout_children(&none).len(), 0);
}

#[test]
fn node_properties() {
    let menu = demo_menu();
    let m = DbusMenu::build(Some(&menu), 1);
    let toggle = m.layout(2, 0).unwrap();
    assert_eq!(
        props_keys(layout_props(&toggle)),
        vec!["label", "enabled", "visible", "toggle-type", "toggle-state"]
    );
    let sep = m.layout(3, 0).unwrap();
    assert_eq!(props_keys(layout_props(&sep)), vec!["type"]);
    let more = m.layout(4, 0).unwrap();
    assert_eq!(props_keys(layout_props(&more)), vec!["label", "enabled", "visible", "children-display"]);
    let root = m.layout(0, 0).unwrap();
    assert_eq!(props_keys(layout_props(&root)), vec!["enabled", "visible", "children-display"]);
}

#[test]
fn get_layout_starts_with_revision() {
    let menu = demo_menu();
    let m = DbusMenu::build(Some(&menu), 12);
    let body = m.get_layout(0, -1);
    assert_eq!(body.len(), 2);
    assert!(matches!(body[0], DValue::UInt32(12)));
    let missing = m.get_layout(99, -1);
    assert_eq!(missing.len(), 1);
}

#[test]
fn group_properties_skips_missing_ids() {
    let menu = demo_menu();
    let m = DbusMenu::build(Some(&menu), 1);
    let v = m.group_properties(&[6, 42, 1]);
    assert_eq!(v.type_sig().text(), "a(ia{sv})");
    match v {
        DValue::Array(_, entries) => {
            assert_eq!(entries.len(), 2);
            match &entries[0] {
                DValue::Struct(fs) => assert!(matches!(fs[0], DValue::Int32(6))),
                _ => panic!("expected a struct"),
            }
            match &entries[1] {
                DValue::Struct(fs) => assert!(matches!(fs[0], DValue::Int32(1))),
                _ => panic!("expected a struct"),
            }
        }
        _ => panic!("expected an array"),
    }
}

#[test]
fn notify_call_without_actions_is_fire_and_forget() {
    let call = notify_call("demo", &Notification::new("Title", "Body"));
    assert!(!call.awaits_reply);
    assert_eq!(call.args.len(), 8);
    assert!(matches!(&call.args[0], DValue::Str(s) if s == "demo"));
    assert!(matches!(call.args[1], DValue::UInt32(0)));
    assert!(matches!(&call.args[2], DValue::Str(s) if s.is_empty()));
    assert!(matches!(&call.args[3], DValue::Str(s) if s == "Title"));
    assert!(matches!(&call.args[4], DValue::Str(s) if s == "Body"));
    assert!(matches!(&call.args[5], DValue::Array(_, a) if a.is_empty()));
    assert!(matches!(&call.args[6], DValue::Array(_, h) if h.is_empty()));
    assert!(matches!(call.args[7], DValue::Int32(-1)));
    assert_eq!(call.args[5].type_sig().text(), "as");
    assert_eq!(call.args[6].type_sig().text(), "a{sv}");
}

#[test]
fn notify_call_with_actions_and_icon() {
    let icon = Icon::from_rgba(2, 1, vec![1, 2, 3, 4, 5, 6, 7, 8]).unwrap();
    let n = Notification::new("T", "B").with_icon(icon).action(42, "Open").action(7, "Close");
    let call = notify_call("app", &n);
    assert!(call.awaits_reply);
    match &call.args[5] {
        DValue::Array(_, a) => {
            let texts: Vec<String> = a
                .iter()
                .map(|v| match v {
                    DValue::Str(s) => s.clone(),
                    _ => panic!("actions are strings"),
                })
                .collect();
            assert_eq!(texts, vec!["42", "Open", "7", "Close"]);
        }
        _ => panic!("expected an array"),
    }
    match &call.args[6] {
        DValue::Array(_, h) => {
            assert_eq!(h.len(), 1);
            assert_eq!(entry_key(&h[0]), "image-data");
            match &h[0] {
                DValue::DictEntry(_, v) => {
                    assert_eq!(variant_sig(v), "(iiibiiay)");
                    match &**v {
                        DValue::Variant(inner) => match &**inner {
                            DValue::Struct(fs) => {
                                assert!(matches!(fs[0], DValue::Int32(2)));
                                assert!(matches!(fs[1], DValue::Int32(1)));
                                assert!(matches!(fs[2], DValue::Int32(8)));
                                assert!(matches!(fs[3], DValue::Bool(true)));
                                assert!(matches!(fs[4], DValue::Int32(8)));
                                assert!(matches!(fs[5], DValue::Int32(4)));
                                assert!(matches!(&fs[6], DValue::Bytes(b) if b.len() == 8));
                            }
                            _ => panic!("expected a struct"),
                        },
                        _ => panic!("expected a variant"),
                    }
                }
                _ => panic!("expected a dict entry"),
            }
        }
        _ => panic!("expected an array"),
    }
}

#[test]
fn leading_strings_stop_at_first_non_string() {
    let args = vec![Some("a".to_string()), Some("b".to_string()), None, Some("c".to_string())];
    assert_eq!(leading_strings(&args, 10), vec!["a", "b"]);
    assert_eq!(leading_strings(&args, 1), vec!["a"]);
    assert_eq!(leading_strings(&args, 0), Vec::<String>::new());
    assert_eq!(leading_strings(&[], 3), Vec::<String>::new());
    let all = vec![Some("x".to_string()), Some("y".to_string())];
    assert_eq!(leading_strings(&all, 5), vec!["x", "y"]);
}

#[test]
fn ordinary_menus_fit() {
    let menu = demo_menu();
    assert!(DbusMenu::fits(Some(&menu)));
    assert!(DbusMenu::fits(None));
    assert!(DbusMenu::fits(Some(&Menu::new())));
}

fn layout_id(v: &DValue) -> i32 {
    match v {
        DValue::Struct(fs) => match fs[0] {
            DValue::Int32(id) => id,
            _ => panic!("expected an id"),
        },
        _ => panic!("expected a layout struct"),
    }
}

fn check_children_after_parent(v: &DValue) {
    let parent = layout_id(v);
    for kid in layout_children(v) {
        match kid {
            DValue::Variant(inner) => {
                assert!(layout_id(inner) > parent);
                check_children_after_parent(inner);
            }
            _ => panic!("children are variants"),
        }
    }
}

#[test]
fn children_come_after_their_parent() {
    let menu = Menu::new()
        .item(MenuItem::submenu(
            "A",
            vec![MenuItem::submenu("B", vec![MenuItem::button(1, "x")]), MenuItem::button(2, "y")],
        ))
        .item(MenuItem::button(3, "z"));
    let m = DbusMenu::build(Some(&menu), 1);
    let root = m.layout(0, -1).unwrap();
    check_children_after_parent(&root);
    // pre-order: 1 A, 2 B, 3 x, 4 y, 5 z
    assert_eq!(m.menu_id_for(3), Some(1));
    assert_eq!(m.menu_id_for(4), Some(2));
    assert_eq!(m.menu_id_for(5), Some(3));
}

#[test]
fn distinct_action_ids_get_distinct_keys() {
    let mut keys: Vec<String> = (0u64..200).map(decimal_string).collect();
    keys.sort();
    keys.dedup();
    assert_eq!(keys.len(), 200);
}

#[test]
fn notify_id_defaults_to_zero() {
    assert_eq!(notify_id(Some(17)), 17);
    assert_eq!(notify_id(None), 0);
}
