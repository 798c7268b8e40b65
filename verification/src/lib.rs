//! Hot function swapping for Rust applications: the verified core.
//!
//! The library holds the decisions of the hot-reload runtime: the file layout of the
//! generated hot project and the rewriting of its manifests, the table of hot functions and
//! how a new library is patched into it, the lifecycle callbacks, the supervision of the
//! app by the wrapper, and the keys that the attribute macros generate.
pub mod demo;
pub mod event;
pub mod fs_utils;
pub mod hotlib;
pub mod macros;
pub mod manifest;
pub mod path;
pub mod prod;
pub mod project;
pub mod server;
pub mod text;
pub mod watch_task;
