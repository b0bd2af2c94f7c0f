//! A homework organizer: the classes of one user and the assignments of each
//! class, kept in display order and changed by short commands.
//!
//! [`data_file`] holds the store and finds classes in it, [`subcommands`] holds
//! the commands that change it, [`dispatch`] reads a line of input as a command
//! and [`tui`] writes the store as text. [`model`] says in mathematical terms
//! what all of them do, and [`ordered_map`] states what is assumed of the map
//! in which the store is kept.
pub mod data_file;
pub mod dispatch;
pub mod error;
pub mod model;
pub mod ordered_map;
pub mod subcommands;
pub mod text;
pub mod tui;
