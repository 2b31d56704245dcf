# ldtray

Cross-platform tray icons that are never linked against any GUI or platform
library at compile time: every platform toolkit (libdbus on Linux,
`shell32`/`user32` on Windows, AppKit/`objc` on macOS) is resolved at runtime
through `libloading`. On a headless server the only failure is a clean error
from `Tray::new`.

## Layout

- `src/` is the verified library (Verus): icons and their RGBA validation,
  menus, notifications, the tray configuration, the command channel between
  handles and the event loop, the event loop's decisions, and the D-Bus side
  of the Linux tray described as typed message bodies (`src/dbus/`): the
  dbusmenu node table and its `GetLayout`/`GetGroupProperties` replies, the
  StatusNotifierItem property values, the `Notify` call and the reading of
  string arguments.
- `app/` is the platform glue: the `Tray` that owns a backend and runs the
  event loop (on the calling thread or a spawned one), the runtime-loaded
  bindings (`libloading`), the marshalling of message bodies through libdbus,
  and an error type with `Display`.
- `tests/` exercises the library.
