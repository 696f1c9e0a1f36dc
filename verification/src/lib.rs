//! Switching the voice language of Apex Legends without changing its text
//! language: the Steam files it reads, the language depots, the
//! installation of voice files into the game and its record, and the steps
//! and messages of the tool.

pub mod text;
pub mod vdf;
pub mod path;
pub mod steam;
pub mod language;
pub mod install;
pub mod search;
pub mod workflow;
pub mod ui;
