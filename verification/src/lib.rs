//! Coordination logic for teams of coding agents.

pub mod args;
pub mod auth;
pub mod codex;
pub mod codex_runtime;
pub mod config;
pub mod error;
pub mod haiku;
pub mod headed_adapter;
pub mod headless;
pub mod hex;
pub mod json;
pub mod json_ext;
pub mod json_text;
pub mod launch;
pub mod mailbox;
pub mod matrix_bridge;
pub mod message;
pub mod model;
pub mod name_pool;
pub mod names;
pub mod nudge;
pub mod pane_detection;
pub mod path;
pub mod paths;
pub mod platform;
pub mod platform_launch;
pub mod process;
pub mod rpc;
pub mod selection;
pub mod stamp;
pub mod text;
pub mod text_map;
pub mod text_set;
pub mod web_dir;
