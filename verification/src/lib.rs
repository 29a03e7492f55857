//! A file manager's core: key chords, virtual paths, configuration rules,
//! sorting, globbing, diff models and dialog state machines.

pub mod action;
pub mod archive;
pub mod archive_index;
pub mod clipboard;
pub mod commander;
pub mod config;
pub mod connect;
pub mod diff;
pub mod dialog;
pub mod entry;
pub mod error;
pub mod find;
pub mod fspath;
pub mod glob;
pub mod jobs;
pub mod key;
pub mod modal;
pub mod mouse;
pub mod multistatus;
pub mod net;
pub mod num;
pub mod ops;
pub mod ord;
pub mod panel;
pub mod path;
pub mod run_loop;
pub mod sort;
pub mod subshell;
pub mod text;
pub mod ui;
pub mod viewer;
