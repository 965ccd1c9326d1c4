//! Dialogs that are answered and go.

pub mod browser;
pub mod confirm;
pub mod message;
pub mod prompt;
pub mod resolve;
