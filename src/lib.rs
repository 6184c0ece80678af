// A clipboard history: a monitor that notices when the clipboard changes, and
// an append-only store that lists what was recorded, most recent first.

/// The history table: its statements, its rows, and the order they are listed in.
pub mod db;
/// Change detection: which clipboard samples are appended to the history.
pub mod monitor;
/// The entries of the history list and the filters over them.
pub mod items;
/// The history window's state and how it reacts to what happens in it.
pub mod window;
