//! A small content-addressed object store and repository skeleton in the
//! style of Git's plumbing layer.
//!
//! The crate performs no input or output of its own. Every operation that
//! needs the disk is a function of its arguments and of the replies received
//! so far: it either asks the caller to carry out one [`Query`], or hands
//! back its result. The caller does what was asked, appends the [`Reply`]
//! and calls again:
//!
//! ```text
//! let mut replies = Vec::new();
//! let repository = loop {
//!     match GitRepository::from_existing(path, &replies) {
//!         Progress::Ask(query) => replies.push(perform(&query)),
//!         Progress::Done(result) => break result,
//!     }
//! };
//! ```
//!
//! What each operation asks, in which order, and what it makes of the
//! replies is stated as a function on sequences of replies and proved of the
//! code, together with the laws that hold between the operations.

pub mod config;
pub mod error;
pub mod exchange;
pub mod id;
pub mod locate;
pub mod object;
pub mod path;
pub mod repository;

pub use crate::config::{check_config_key, Config, Section};
pub use crate::error::{ConfigFault, Error, ObjectFault};
pub use crate::exchange::{EntryKind, Progress, Query, Reply};
pub use crate::id::{object_id, to_hex, valid_object_id};
pub use crate::locate::find_repository;
pub use crate::object::{GitObject, ObjectHeader};
pub use crate::path::{join_path, parent_of, repo_path};
pub use crate::repository::{
    create_dir, ensure_repo_dir_exists, ensure_repo_file_exists, GitRepository,
};
