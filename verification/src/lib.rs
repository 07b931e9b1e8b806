//! Configuration model and planning logic for managing git submodules declared in `submod.toml`.
pub mod text;
pub mod options;
pub mod name_map;
pub mod config;
pub mod shells;
pub mod commands;
pub mod sparse;
pub mod plan;
pub mod errors;
pub mod urls;
pub mod gitconfig;
pub mod declarations;
pub mod status;
pub mod paths;
pub mod edits;
pub mod check;
pub mod batch;
pub mod order;
pub mod nuke;
pub mod init;
pub mod document;
pub mod rendering;
pub mod names;
pub mod generate;
pub mod saving;
pub mod reset;
pub mod report;
pub mod add;
pub mod gitout;
pub mod preserve;
pub mod gitargs;
pub mod gitmodules;
pub mod sync;
