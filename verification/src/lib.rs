//! Core of a terminal kanban application: the in-memory board model, the
//! versioned local persistence format, the application state and lifecycle,
//! the IO command dispatcher, and the command channel that carries requests
//! from the UI-facing side to the IO worker.

pub mod board;
pub mod channel;
pub mod codec;
pub mod handler;
pub mod mouse;
pub mod state;
pub mod version;

pub use board::{Board, BoardModel, Card, CardModel};
pub use mouse::{Mouse, RawMouseEvent, RawMouseKind};
pub use channel::CommandChannel;
pub use handler::{AppConfig, IoAction, IoEvent, LoadError};
pub use state::{AppState, Lifecycle};
