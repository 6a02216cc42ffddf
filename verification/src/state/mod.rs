//! The shell: navigation, loaded data, presence and messages on their way.
pub use crate::time::{is_online, now_iso};
pub use acks::PendingSend;
pub use online::{FriendPresence, PresenceState};
pub use pane::View;
pub use shell::ShellState;

pub mod acks;
pub mod actions;
pub mod find;
pub mod online;
pub mod pane;
pub mod shell;
