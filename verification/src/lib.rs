//! A declarative environment-provisioning engine, verified against an
//! in-memory model of the filesystem, the operator's answers, and the
//! reports and commands it emits.
//!
//! The `Manager` walks a configuration of directories, empty files,
//! symbolic links, copies and commands, and reconciles a [`world::World`]
//! to match it; every decision (idempotence checks, dry-run
//! short-circuiting, confirmation prompts, path templating) is proved
//! against the step semantics in [`model`]. The same decisions are
//! exported as per-item action plans in [`plan`], proved to execute to
//! exactly those step semantics, so that a program driving a real
//! filesystem can observe, ask, and perform without deciding anything
//! itself.

pub mod config;
pub mod context;
pub mod error;
pub mod event;
pub mod filesystem;
pub mod helpers;
pub mod laws;
pub mod manager;
pub mod model;
pub mod paths;
pub mod plan;
pub mod prompt;
pub mod text;
pub mod world;
