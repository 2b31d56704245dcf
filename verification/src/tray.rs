//! Tray configuration, the command channel between handles and the event
//! loop, and the decisions the event loop takes.
use vstd::prelude::*;
use vstd::string::*;
use crate::error::Error;
use crate::icon::{Icon, IconView};
use crate::menu::{ItemModel, Menu};
use crate::notification::Notification;

verus! {

/// `std::sync::mpsc::Sender`, carried through as an opaque value.
#[verifier::external_type_specification]
#[verifier::external_body]
#[verifier::reject_recursive_types(T)]
pub struct ExSender<T>(std::sync::mpsc::Sender<T>);

/// `std::sync::mpsc::Receiver`, carried through as an opaque value.
#[verifier::external_type_specification]
#[verifier::external_body]
#[verifier::reject_recursive_types(T)]
pub struct ExReceiver<T>(std::sync::mpsc::Receiver<T>);

/// Initial configuration for a tray.
#[derive(Debug)]
pub struct TrayConfig {
    icon: Icon,
    tooltip: String,
    menu: Option<Menu>,
}

/// The content of a [`TrayConfig`].
pub struct TrayConfigView {
    pub icon: IconView,
    pub tooltip: Seq<char>,
    pub menu: Option<Seq<ItemModel>>,
}

/// The model of an optional menu.
pub open spec fn menu_model(menu: Option<Menu>) -> Option<Seq<ItemModel>> {
    match menu {
        Some(m) => Some(m@),
        None => None,
    }
}

impl View for TrayConfig {
    type V = TrayConfigView;

    closed spec fn view(&self) -> TrayConfigView {
        TrayConfigView { icon: self.icon@, tooltip: self.tooltip@, menu: menu_model(self.menu) }
    }
}

/// Everything needed to bring a tray up, moved into the platform backend at
/// creation.
pub struct Init {
    pub icon: Icon,
    pub tooltip: String,
    pub menu: Option<Menu>,
}

impl Clone for TrayConfig {
    fn clone(&self) -> (r: Self)
        ensures
            r@ == self@,
    {
        let menu = match &self.menu {
            Some(m) => Some(m.clone()),
            None => None,
        };
        TrayConfig { icon: self.icon.clone(), tooltip: self.tooltip.clone(), menu }
    }
}

impl TrayConfig {
    /// Start a configuration with the required tray icon, an empty tooltip and
    /// no menu.
    pub fn new(icon: Icon) -> (r: TrayConfig)
        ensures
            r@ == (TrayConfigView { icon: icon@, tooltip: Seq::empty(), menu: None }),
    {
        TrayConfig { icon, tooltip: String::new(), menu: None }
    }

    /// Builder: set the hover tooltip text.
    pub fn tooltip(self, tooltip: &str) -> (r: TrayConfig)
        ensures
            r@ == (TrayConfigView { tooltip: tooltip@, ..self@ }),
    {
        TrayConfig { tooltip: String::from_str(tooltip), ..self }
    }

    /// Builder: set the context menu.
    pub fn menu(self, menu: Menu) -> (r: TrayConfig)
        ensures
            r@ == (TrayConfigView { menu: Some(menu@), ..self@ }),
    {
        TrayConfig { menu: Some(menu), ..self }
    }

    /// Hands the configuration over to a platform backend.
    pub fn into_init(self) -> (r: Init)
        ensures
            r.icon@ == self@.icon,
            r.tooltip@ == self@.tooltip,
            menu_model(r.menu) == self@.menu,
    {
        Init { icon: self.icon, tooltip: self.tooltip, menu: self.menu }
    }
}

/// Commands sent from a [`TrayHandle`] to the running event loop.
pub enum Command {
    SetIcon(Icon),
    SetTooltip(String),
    SetMenu(Option<Menu>),
    Notify(Notification),
    Quit,
}

impl Command {
    /// The command that replaces the tray icon with `icon`.
    pub fn set_icon(icon: Icon) -> (c: Command)
        ensures
            c == Command::SetIcon(icon),
    {
        Command::SetIcon(icon)
    }

    /// The command that replaces the hover tooltip with `text`.
    pub fn set_tooltip(text: &str) -> (c: Command)
        ensures
            c matches Command::SetTooltip(t) && t@ == text@,
    {
        Command::SetTooltip(String::from_str(text))
    }

    /// The command that replaces the context menu with `menu`.
    pub fn set_menu(menu: Menu) -> (c: Command)
        ensures
            c == Command::SetMenu(Some(menu)),
    {
        Command::SetMenu(Some(menu))
    }

    /// The command that removes the context menu.
    pub fn clear_menu() -> (c: Command)
        ensures
            c == Command::SetMenu(None),
    {
        Command::SetMenu(None)
    }

    /// The command that shows `notification`.
    pub fn notify(notification: Notification) -> (c: Command)
        ensures
            c == Command::Notify(notification),
    {
        Command::Notify(notification)
    }

    /// The command that stops the event loop.
    pub fn quit() -> (c: Command)
        ensures
            c == Command::Quit,
    {
        Command::Quit
    }
}

/// What the event loop found when it looked at its command queue.
pub enum Received {
    Command(Command),
    /// No command is waiting.
    Empty,
    /// Every handle is gone; no command can arrive any more.
    Disconnected,
}

/// The next thing the event loop does.
pub enum LoopAction {
    /// Apply this command to the platform backend, then report the outcome.
    Apply(Command),
    /// Look at the command queue again.
    Receive,
    /// Service the platform event source for one interval, then report the
    /// outcome.
    Pump,
    /// Stop, returning this result to whoever runs the loop.
    Return(Result<(), Error>),
}

/// The decisions of a tray's event loop: drain queued commands, applying each
/// to the backend in the order received, then pump platform events, and start
/// over; stop on `Quit` or on the first failure.
pub struct EventLoop {
    finished: bool,
}

impl EventLoop {
    /// Whether the loop has decided to stop.
    pub closed spec fn finished(self) -> bool {
        self.finished
    }

    /// A loop about to look at its command queue for the first time.
    pub fn new() -> (r: EventLoop)
        ensures
            !r.finished(),
    {
        EventLoop { finished: false }
    }

    /// Whether the loop has decided to stop.
    pub fn is_finished(&self) -> (r: bool)
        ensures
            r == self.finished(),
    {
        self.finished
    }

    /// Decides what to do with what the command queue yielded: `Quit` stops
    /// the loop successfully, any other command is applied, and an empty (or
    /// abandoned) queue means it is time to pump platform events.
    pub fn on_received(&mut self, received: Received) -> (a: LoopAction)
        requires
            !old(self).finished(),
        ensures
            match received {
                Received::Command(Command::Quit) => {
                    &&& a matches LoopAction::Return(Ok(()))
                    &&& final(self).finished()
                },
                Received::Command(c) => a == LoopAction::Apply(c) && !final(self).finished(),
                _ => a is Pump && !final(self).finished(),
            },
    {
        match received {
            Received::Command(Command::Quit) => {
                self.finished = true;
                LoopAction::Return(Ok(()))
            },
            Received::Command(c) => LoopAction::Apply(c),
            Received::Empty => LoopAction::Pump,
            Received::Disconnected => LoopAction::Pump,
        }
    }

    /// Decides what to do after the backend applied a command or pumped
    /// events: on success go back to the command queue, on failure stop and
    /// return that very error.
    pub fn on_outcome(&mut self, outcome: Result<(), Error>) -> (a: LoopAction)
        requires
            !old(self).finished(),
        ensures
            match outcome {
                Ok(()) => a is Receive && !final(self).finished(),
                Err(e) => a == LoopAction::Return(Err(e)) && final(self).finished(),
            },
    {
        match outcome {
            Ok(()) => LoopAction::Receive,
            Err(e) => {
                self.finished = true;
                LoopAction::Return(Err(e))
            },
        }
    }
}

/// Queues `command` with `Sender::send`. Whether it is accepted depends on
/// whether the receiving end still exists, which is another thread's business,
/// so success is not claimed; what is claimed is what `Sender::send`
/// documents of a failure: its `SendError` hands back the very value that
/// could not be sent.
#[verifier::external_body]
fn channel_send(tx: &std::sync::mpsc::Sender<Command>, command: Command) -> (r: Result<(), Command>)
    ensures
        r matches Err(c) ==> c == command,
{
    match tx.send(command) {
        Ok(()) => Ok(()),
        Err(e) => Err(e.0),
    }
}

/// Another sending end of the same channel, from `Sender::clone`. Nothing is
/// claimed of it beyond its type.
#[verifier::external_body]
fn channel_clone(tx: &std::sync::mpsc::Sender<Command>) -> std::sync::mpsc::Sender<Command> {
    tx.clone()
}

/// A fresh channel, from `std::sync::mpsc::channel`. Nothing is claimed of it
/// beyond its type.
#[verifier::external_body]
fn channel_new() -> (std::sync::mpsc::Sender<Command>, std::sync::mpsc::Receiver<Command>) {
    std::sync::mpsc::channel()
}

/// Takes the oldest queued command with `Receiver::try_recv`, without
/// waiting, telling its two errors apart. What it yields depends on what other
/// threads sent: nothing is claimed of the result.
#[verifier::external_body]
fn channel_try_recv(rx: &std::sync::mpsc::Receiver<Command>) -> Received {
    match rx.try_recv() {
        Ok(command) => Received::Command(command),
        Err(std::sync::mpsc::TryRecvError::Empty) => Received::Empty,
        Err(std::sync::mpsc::TryRecvError::Disconnected) => Received::Disconnected,
    }
}

/// The result a handle reports for a command: delivered, or the event loop is
/// no longer there to receive it.
pub fn delivery_result(delivered: bool) -> (r: Result<(), Error>)
    ensures
        delivered ==> r is Ok,
        !delivered ==> r matches Err(Error::Disconnected),
{
    if delivered {
        Ok(())
    } else {
        Err(Error::Disconnected)
    }
}

/// A cloneable, thread-safe handle used to update a running tray.
///
/// Every method sends a message to the event loop; if the loop has stopped they
/// return [`Error::Disconnected`].
pub struct TrayHandle {
    tx: std::sync::mpsc::Sender<Command>,
}

/// The receiving end of the command channel, owned by the event loop.
pub struct CommandQueue {
    rx: std::sync::mpsc::Receiver<Command>,
}

/// A new command channel: the handle that sends and the queue the event loop
/// drains.
pub fn command_channel() -> (TrayHandle, CommandQueue) {
    let (tx, rx) = channel_new();
    (TrayHandle { tx }, CommandQueue { rx })
}

impl CommandQueue {
    /// The oldest queued command, or why there is none.
    pub fn try_next(&self) -> Received {
        channel_try_recv(&self.rx)
    }
}

impl Clone for TrayHandle {
    fn clone(&self) -> Self {
        TrayHandle { tx: channel_clone(&self.tx) }
    }
}

impl TrayHandle {
    /// Queues `command`; a refusal means the event loop's queue is gone.
    fn send(&self, command: Command) -> (r: Result<(), Error>)
        ensures
            r is Ok || r matches Err(Error::Disconnected),
    {
        match channel_send(&self.tx, command) {
            Ok(()) => delivery_result(true),
            Err(_unsent) => delivery_result(false),
        }
    }

    /// Replaces the tray icon: queues the command built by
    /// [`Command::set_icon`].
    pub fn set_icon(&self, icon: Icon) -> (r: Result<(), Error>)
        ensures
            r is Ok || r matches Err(Error::Disconnected),
    {
        self.send(Command::set_icon(icon))
    }

    /// Replaces the hover tooltip text: queues the command built by
    /// [`Command::set_tooltip`].
    pub fn set_tooltip(&self, text: &str) -> (r: Result<(), Error>)
        ensures
            r is Ok || r matches Err(Error::Disconnected),
    {
        self.send(Command::set_tooltip(text))
    }

    /// Replaces the context menu: queues the command built by
    /// [`Command::set_menu`].
    pub fn set_menu(&self, menu: Menu) -> (r: Result<(), Error>)
        ensures
            r is Ok || r matches Err(Error::Disconnected),
    {
        self.send(Command::set_menu(menu))
    }

    /// Removes the context menu: queues the command built by
    /// [`Command::clear_menu`].
    pub fn clear_menu(&self) -> (r: Result<(), Error>)
        ensures
            r is Ok || r matches Err(Error::Disconnected),
    {
        self.send(Command::clear_menu())
    }

    /// Shows a desktop notification: queues the command built by
    /// [`Command::notify`].
    pub fn notify(&self, notification: Notification) -> (r: Result<(), Error>)
        ensures
            r is Ok || r matches Err(Error::Disconnected),
    {
        self.send(Command::notify(notification))
    }

    /// Asks the event loop to stop: queues the command built by
    /// [`Command::quit`]. After this, the loop returns and the tray icon is
    /// removed.
    pub fn quit(&self) -> (r: Result<(), Error>)
        ensures
            r is Ok || r matches Err(Error::Disconnected),
    {
        self.send(Command::quit())
    }
}

} // verus!
