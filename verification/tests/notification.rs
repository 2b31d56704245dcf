use ldtray::{ActionId, Icon, Notification};

#[test]
fn new_notification_has_text_only() {
    let n = Notification::new("demo", "hi");
    assert_eq!(n.title(), "demo");
    assert_eq!(n.body(), "hi");
    assert!(n.icon().is_none());
    assert!(n.actions().is_empty());
}

#[test]
fn actions_are_kept_in_order() {
    let n = Notification::new("t", "b").action(7, "Open").action(3, "Dismiss");
    let actions = n.actions();
    assert_eq!(actions.len(), 2);
    assert_eq!(actions[0].0, ActionId(7));
    assert_eq!(actions[0].1, "Open");
    assert_eq!(actions[1].0, ActionId(3));
    assert_eq!(actions[1].1, "Dismiss");
}

#[test]
fn with_icon_attaches_icon() {
    let icon = Icon::from_rgba(1, 1, vec![1, 2, 3, 4]).unwrap();
    let n = Notification::new("t", "b").with_icon(icon);
    let got = n.icon().unwrap();
    assert_eq!(got.width(), 1);
    assert_eq!(got.rgba(), &[1, 2, 3, 4]);
    assert_eq!(n.title(), "t");
}

#[test]
fn clone_keeps_everything() {
    let icon = Icon::from_rgba(1, 1, vec![1, 2, 3, 4]).unwrap();
    let n = Notification::new("t", "b").with_icon(icon).action(1, "A");
    let c = n.clone();
    assert_eq!(c.title(), "t");
    assert_eq!(c.body(), "b");
    assert_eq!(c.icon().unwrap().rgba(), &[1, 2, 3, 4]);
    assert_eq!(c.actions()[0].0, ActionId(1));
    assert_eq!(c.actions()[0].1, "A");
}
