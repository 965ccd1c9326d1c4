//! Terminal interface for a skill library: every decision it takes, as
//! verified functions on plain values.
//!
//! Input events, task results and clock readings come in as values; state
//! changes and requested effects go out as values. The terminal, the threads
//! and the library on disk live outside of this crate.

pub mod app;
pub mod batch;
pub mod components;
pub mod deploy_picker;
pub mod dialogs;
pub mod event;
pub mod geometry;
pub mod icons;
pub mod keymap;
pub mod markdown;
pub mod measure;
pub mod modal;
pub mod model;
pub mod paths;
pub mod repository_picker;
pub mod sync_coordinator;
pub mod sync_picker;
pub mod text;
pub mod theme;
pub mod ui;
pub mod widgets;
pub mod writes;
