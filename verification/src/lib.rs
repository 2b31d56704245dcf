//! Cross-platform tray icons: the platform-independent model.

pub mod dbus;
mod error;
mod event;
mod icon;
mod menu;
mod notification;
mod tray;
pub mod text;

pub use error::{Error, Result};
pub use event::Event;
pub use icon::{Icon, IconView};
pub use menu::{Menu, MenuId, MenuItem, ItemModel};
pub use notification::{ActionId, Notification, NotificationView};
pub use tray::{
    command_channel, delivery_result, Command, CommandQueue, EventLoop, Init, LoopAction, Received,
    TrayConfig, TrayConfigView, TrayHandle,
};
