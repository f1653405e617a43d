//! Antares manages copy-on-write workspaces on top of a read-only base, Dicfuse. Each build
//! job gets a writable view of the source tree of its own, made of an upper layer for what the
//! job writes, an optional CL layer, and the base below.
//!
//! This library takes the decisions. A request becomes a run: the run asks for an action, the
//! caller does it and replies how it went, and the reply takes the run and the manager on.
//! What the manager keeps and what a run comes to, whatever the replies, is proved here.
#![allow(unused_imports)]

pub mod config;
pub mod fs_path;
pub mod ids;
pub mod jobs;
pub mod manager;
pub mod mount;
pub mod mount_laws;
pub mod mount_order;
pub mod outcome;
pub mod path_laws;
pub mod probe;
pub mod request_laws;
pub mod save;
pub mod state_laws;
pub mod success_laws;
pub mod text;
pub mod umount;
pub mod umount_laws;
pub mod umount_order;

pub use config::{AntaresConfig, AntaresPaths, AntaresState};
pub use fs_path::FsPath;
pub use jobs::JobTable;
pub use manager::AntaresManager;
pub use text::{
    default_source_path, normalize_ready_path, normalize_source_path, CharClass,
    DEFAULT_SOURCE_PATH,
};
