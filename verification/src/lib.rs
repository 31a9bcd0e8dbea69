//! Board model and decision logic for a kanban board plugin of the Herdr
//! terminal multiplexer: cards, columns, ordering, revision control and the
//! column-triggered agent dispatch protocol.

pub mod clock;
pub mod text;
pub mod tui;
pub mod view;
pub mod persist;
pub mod sorting;
pub mod state;
pub mod commands;
pub mod dispatch;
pub mod error;
pub mod herdr;
pub mod laws;
pub mod behaviour;
