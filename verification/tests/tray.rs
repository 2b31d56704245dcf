use ldtray::{
    command_channel, delivery_result, Command, Error, Event, EventLoop, Icon, LoopAction, Menu,
    MenuId, MenuItem, Notification, Received, TrayConfig,
};

fn icon() -> Icon {
    Icon::from_rgba(1, 1, vec![220, 40, 40, 255]).unwrap()
}

#[test]
fn config_defaults_and_builders() {
    let init = TrayConfig::new(icon()).into_init();
    assert_eq!(init.tooltip, "");
    assert!(init.menu.is_none());
    assert_eq!(init.icon.rgba(), &[220, 40, 40, 255]);

    let init = TrayConfig::new(icon())
        .tooltip("demo")
        .menu(Menu::new().item(MenuItem::button(1, "Quit")))
        .into_init();
    assert_eq!(init.tooltip, "demo");
    assert_eq!(init.menu.unwrap().items().len(), 1);
}

#[test]
fn error_descriptions() {
    assert_eq!(Error::Unsupported.description(), "tray is not supported in this environment");
    assert_eq!(
        Error::LibraryLoad("nope".to_string()).description(),
        "failed to load platform library: nope"
    );
    assert_eq!(Error::Backend("bad".to_string()).description(), "tray backend error: bad");
    assert_eq!(Error::Disconnected.description(), "tray event loop is no longer running");
}

#[test]
fn quit_stops_loop_successfully() {
    let mut lp = EventLoop::new();
    assert!(!lp.is_finished());
    match lp.on_received(Received::Command(Command::Quit)) {
        LoopAction::Return(Ok(())) => {}
        _ => panic!("quit must end the loop with Ok"),
    }
    assert!(lp.is_finished());
}

#[test]
fn commands_are_applied_then_queue_checked_again() {
    let mut lp = EventLoop::new();
    match lp.on_received(Received::Command(Command::SetTooltip("x".to_string()))) {
        LoopAction::Apply(Command::SetTooltip(t)) => assert_eq!(t, "x"),
        _ => panic!("expected the command to be applied"),
    }
    assert!(matches!(lp.on_outcome(Ok(())), LoopAction::Receive));
    assert!(matches!(lp.on_received(Received::Empty), LoopAction::Pump));
    assert!(matches!(lp.on_received(Received::Disconnected), LoopAction::Pump));
    assert!(!lp.is_finished());
}

#[test]
fn backend_error_stops_loop_with_that_error() {
    let mut lp = EventLoop::new();
    match lp.on_outcome(Err(Error::Backend("boom".to_string()))) {
        LoopAction::Return(Err(Error::Backend(m))) => assert_eq!(m, "boom"),
        _ => panic!("expected the error to be returned"),
    }
    assert!(lp.is_finished());
}

#[test]
fn handle_delivers_commands_in_order() {
    let (handle, queue) = command_channel();
    assert!(matches!(queue.try_next(), Received::Empty));
    handle.set_tooltip("a").unwrap();
    handle.set_icon(icon()).unwrap();
    handle.set_menu(Menu::new()).unwrap();
    handle.clear_menu().unwrap();
    handle.notify(Notification::new("t", "b")).unwrap();
    handle.quit().unwrap();
    assert!(matches!(queue.try_next(), Received::Command(Command::SetTooltip(t)) if t == "a"));
    assert!(matches!(queue.try_next(), Received::Command(Command::SetIcon(_))));
    assert!(matches!(queue.try_next(), Received::Command(Command::SetMenu(Some(_)))));
    assert!(matches!(queue.try_next(), Received::Command(Command::SetMenu(None))));
    assert!(matches!(queue.try_next(), Received::Command(Command::Notify(_))));
    assert!(matches!(queue.try_next(), Received::Command(Command::Quit)));
    assert!(matches!(queue.try_next(), Received::Empty));
}

#[test]
fn handle_reports_disconnected_after_loop_is_gone() {
    let (handle, queue) = command_channel();
    drop(queue);
    assert!(matches!(handle.quit(), Err(Error::Disconnected)));
    assert!(matches!(handle.set_tooltip("x"), Err(Error::Disconnected)));
}

#[test]
fn queue_sees_disconnect_when_handles_are_gone() {
    let (handle, queue) = command_channel();
    let second = handle.clone();
    drop(handle);
    second.quit().unwrap();
    drop(second);
    assert!(matches!(queue.try_next(), Received::Command(Command::Quit)));
    assert!(matches!(queue.try_next(), Received::Disconnected));
}

#[test]
fn delivery_result_maps_failure_to_disconnected() {
    assert!(delivery_result(true).is_ok());
    assert!(matches!(delivery_result(false), Err(Error::Disconnected)));
}

#[test]
fn events_compare_by_value() {
    assert_eq!(Event::Menu(MenuId(3)), Event::Menu(MenuId(3)));
    assert_ne!(Event::LeftClick, Event::RightClick);
}

#[test]
fn config_clone_keeps_everything() {
    let config = TrayConfig::new(icon()).tooltip("tip").menu(Menu::new().item(MenuItem::separator()));
    let init = config.clone().into_init();
    assert_eq!(init.tooltip, "tip");
    assert_eq!(init.icon.rgba(), &[220, 40, 40, 255]);
    assert_eq!(init.menu.unwrap().items().len(), 1);
}

#[test]
fn command_constructors_build_the_named_command() {
    assert!(matches!(Command::set_icon(icon()), Command::SetIcon(i) if i.rgba() == &[220, 40, 40, 255]));
    assert!(matches!(Command::set_tooltip("tip"), Command::SetTooltip(t) if t == "tip"));
    match Command::set_menu(Menu::new().item(MenuItem::button(7, "Go"))) {
        Command::SetMenu(Some(m)) => assert_eq!(m.items().len(), 1),
        _ => panic!("expected a menu to be set"),
    }
    assert!(matches!(Command::clear_menu(), Command::SetMenu(None)));
    assert!(matches!(Command::notify(Notification::new("t", "b")), Command::Notify(n) if n.title() == "t"));
    assert!(matches!(Command::quit(), Command::Quit));
}

#[test]
fn handle_commands_run_through_the_loop_in_order() {
    let (handle, queue) = command_channel();
    handle.set_tooltip("a").unwrap();
    handle.quit().unwrap();
    handle.set_tooltip("b").unwrap();
    let mut lp = EventLoop::new();
    let mut applied = Vec::new();
    let mut action = LoopAction::Receive;
    let result = loop {
        action = match action {
            LoopAction::Receive => lp.on_received(queue.try_next()),
            LoopAction::Apply(Command::SetTooltip(t)) => {
                applied.push(t);
                lp.on_outcome(Ok(()))
            }
            LoopAction::Apply(_) => panic!("only tooltips were queued"),
            LoopAction::Pump => panic!("the loop must stop before pumping"),
            LoopAction::Return(r) => break r,
        };
    };
    assert!(result.is_ok());
    assert_eq!(applied, vec!["a".to_string()]);
    drop(queue);
    assert!(matches!(handle.set_tooltip("c"), Err(Error::Disconnected)));
}
