//! The logic of sift, a terminal file searcher built on `fd`, `rg` and `bat`.

pub mod app;
pub mod clipboard;
pub mod config;
pub mod edit;
pub mod editor;
pub mod escapes;
pub mod fuzzy;
pub mod image_preview;
pub mod jobs;
pub mod key_laws;
pub mod keys;
pub mod laws;
pub mod layout;
pub mod match_laws;
pub mod paths;
pub mod picture_laws;
pub mod preview;
pub mod preview_laws;
pub mod program_laws;
pub mod screen_laws;
pub mod search;
pub mod search_laws;
pub mod sort;
pub mod state;
pub mod state_laws;
pub mod text;
pub mod text_laws;
pub mod theme;
pub mod ui;
pub mod wrap;
pub mod wrap_laws;
