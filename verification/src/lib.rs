use vstd::prelude::*;

pub mod geometry;
pub mod text;
pub mod edge;
pub mod types;
pub mod view_state;
pub mod error;
pub mod util;
pub mod session;
pub mod backend;
pub mod workspace;
pub mod probe;
pub mod xwayland;
pub mod wayland;
pub mod rendering;
pub mod scene;
pub mod theme;
pub mod xdg;
pub mod output;
pub mod config_watcher;
pub mod window;
pub mod actions;
pub mod menus;
pub mod panel;
pub mod ipc;
pub mod cli;
pub mod shell;
pub mod config;
pub mod control_center;
pub mod xml;
pub mod focus;
pub mod decorations;
