//! Verified core of the cmux browser preview, settings and socket plumbing.

pub mod text;
pub mod config_file;
pub mod protocol;
pub mod keys;
pub mod paths;
pub mod discovery;
pub mod browser;
pub mod bootstrap;
pub mod menus;
pub mod settings;
pub mod workspace;
