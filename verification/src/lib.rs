//! Resolution of the program that opens a file, a URL or a MIME type, and
//! construction of the command line that starts it.
//!
//! A handler is looked for in the user's defaults, for the MIME type and
//! then for the whole top-level type; then in the added associations;
//! then among the installed applications. A path that a configured
//! regular expression matches goes to the command of that expression,
//! before any of these. The command of the handler is filled with the
//! paths and, where it needs one, put behind the command of a terminal
//! emulator.
//!
//! The library reads and writes no file and starts no program: whoever
//! uses it hands it what was read and runs what it answers. Every
//! function is verified against its contract. Calls into other crates
//! are made in a few small functions whose contracts are believed, not
//! proved; each says so in its documentation.
//!
//! - [`text`]: texts as sequences of characters
//! - [`mime_type`], [`handler`], [`desktop_list`], [`desktop_entry`]: the data
//! - [`mime_map`], [`mime_apps`], [`system_apps`]: the associations
//! - [`mimeapps_list`], [`desktop_file`]: what is read from text
//! - [`config_file`], [`config`], [`path`]: the state of a run and resolution over it
//! - [`laws`]: what holds of resolution whatever the associations
//! - [`table`], [`error`], [`dist`]: rows to render, failures, release directory

pub mod config;
pub mod config_file;
pub mod desktop_entry;
pub mod desktop_file;
pub mod desktop_list;
pub mod dist;
pub mod error;
pub mod handler;
pub mod laws;
pub mod mime_apps;
pub mod mime_map;
pub mod mime_type;
pub mod mimeapps_list;
pub mod path;
pub mod system_apps;
pub mod table;
pub mod text;
