//! A verified core for a terminal client of a hosted source-control REST API.
//!
//! The crate models the client's focus-navigation engine, its in-memory
//! entity cache (profiles, repositories, commits, commit details), and the
//! paginated fetch protocol the two depend on. Network and terminal I/O live
//! outside the library; the library supplies the verified decisions and data.

pub mod autocomplete;
pub mod args;
pub mod command;
pub mod config;
pub mod git;
pub mod cursor;
pub mod api;
pub mod layout;
pub mod listtui;
pub mod filterlist;
pub mod text;
pub mod tui;
