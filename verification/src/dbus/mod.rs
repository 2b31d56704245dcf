//! The D-Bus side of the Linux tray (StatusNotifierItem, dbusmenu and
//! desktop notifications), described as message bodies: trees of typed values
//! that a transport appends, container by container, to an outgoing message.
pub mod dbusmenu;
pub mod notify;
pub mod props;
pub mod read;
pub mod value;
