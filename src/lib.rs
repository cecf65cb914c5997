//! Client-side runtime that keeps a local model of an agent-orchestration
//! daemon's state in sync with the daemon's event stream.
//!
//! The library holds the logic: the event-stream decoder, the reconnect
//! supervisor, the event applier and the state store it writes to.

pub mod block;
pub mod decoder;
pub mod endpoint;
pub mod framing;
pub mod lists;
pub mod ordered;
pub mod store;
pub mod streaming;
pub mod supervisor;
pub mod table;
pub mod text;
pub mod trading;
pub mod types;
pub mod ui;
pub mod version;
