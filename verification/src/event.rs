//! User interactions reported by a running tray.
use vstd::prelude::*;
use crate::menu::MenuId;
use crate::notification::ActionId;

verus! {

/// Something the user did to the tray icon, delivered to the callback that
/// drives the tray's event loop.
///
/// Not every backend can produce every variant. Match non-exhaustively.
#[derive(Clone, Copy, PartialEq, Eq, Debug)]
#[non_exhaustive]
pub enum Event {
    /// Primary button click / "activate" (typically left mouse button).
    LeftClick,
    /// Secondary button click / context-menu request (typically right button).
    RightClick,
    /// Middle button click / "secondary activate".
    MiddleClick,
    /// Primary button double-click.
    DoubleClick,
    /// A menu entry with this id was activated.
    Menu(MenuId),
    /// A notification action button with this id was clicked.
    NotificationAction(ActionId),
}

} // verus!
