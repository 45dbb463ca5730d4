//! Keeps a status-bar renderer synchronized with a tiling window manager.
//!
//! The library holds the logic of the daemon: encoding command batches for
//! the renderer's message port, reading and grouping workspace snapshots,
//! mapping window-manager monitors onto renderer displays, and the
//! reconciliation pass that diffs the previous render state against the
//! current one and emits one update batch per display.  All I/O (sockets,
//! processes, the message port itself) lives outside the library; it hands
//! the functions here plain values and carries their results out.

pub mod batch;
pub mod clock;
pub mod colors;
pub mod config;
pub mod events;
pub mod items;
pub mod monitor_map;
pub mod providers;
pub mod reconcile;
pub mod snapshot;
pub mod text;
pub mod transport;

pub use batch::SketchybarBatch;
