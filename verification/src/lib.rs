//! A small version-control system: the repository's metadata (the current
//! position, the commits, the branches and the history) and the rules of its
//! commands, with the file-system work left to the caller.

pub mod text;
pub mod name_map;
pub mod info;
pub mod snapshot;
pub mod errors;
pub mod command_parser;
mod clock;
pub mod repository;
pub mod commands;
pub mod report;
pub mod laws;
pub mod diff_laws;
