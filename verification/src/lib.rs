use vstd::prelude::*;

pub mod action_menu;
pub mod assets;
pub mod clipboard;
pub mod command_bar;
pub mod confirm;
pub mod devices;
pub mod empty_space_menu;
pub mod escape;
pub mod favorites;
pub mod files;
pub mod focus;
pub mod keymap;
pub mod labels;
pub mod launch;
pub mod model;
pub mod ops;
pub mod overlays;
pub mod paths;
pub mod perf;
pub mod permissions;
pub mod previews;
pub mod refresh;
pub mod runner;
pub mod search;
pub mod settings;
pub mod sheets;
pub mod text;
pub mod watch;
