//! Declarative reconciliation of a collaborative-server workspace.
//!
//! A workspace is a set of roles, channel categories and channels. The desired
//! state is written down once; the live state is a snapshot of the remote
//! workspace. This crate compares the two, classifies every entity as to be
//! created, updated or deleted, and sequences the resulting commands.

pub mod api;
pub mod apply;
pub mod category;
pub mod changes;
pub mod channel;
pub mod commands;
pub mod config;
pub mod diff;
pub mod dtos;
pub mod error;
pub mod extra;
pub mod guild;
pub mod laws;
pub mod lookup;
pub mod overwrites;
pub mod params;
pub mod permission;
pub mod role;
pub mod save;
pub mod text;
