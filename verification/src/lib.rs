//! Ricer: a dotfile manager that treats the home directory like a Git
//! repository.
//!
//! This crate holds the verified core of Ricer:
//!
//! - [`config`]: the format preserving TOML configuration store, the
//!   repository and command hook settings kept in it, and their encoders and
//!   decoders;
//! - [`cli`] and [`context`]: the command-line options and the command
//!   contexts made of them;
//! - [`hook`] and [`manager`]: which command hook scripts a command runs;
//! - [`locate`]: where configuration files, hook scripts and repositories
//!   are;
//! - [`tree`], [`convert`], [`edit`] and [`walk`]: the model of TOML items,
//!   the conversion between it and `toml_edit`, and walks over items.

pub mod tree;
pub mod edit;
pub mod convert;
pub mod text;
pub mod walk;
pub mod config;
pub mod cli;
pub mod context;
pub mod locate;
pub mod hook;
pub mod manager;
pub mod error;
pub mod data_xchg;
