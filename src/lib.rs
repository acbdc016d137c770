//! Package-acquisition core of a Debian-style package manager: control
//! metadata parsing, the installed-package database, the repository index
//! cache, immediate dependency resolution, archive extraction decisions,
//! repository sync planning and the install workflow.

pub mod cache;
pub mod config;
pub mod control;
pub mod errors;
pub mod extract;
pub mod install;
pub mod resolve;
pub mod storage;
pub mod text;
pub mod update;
