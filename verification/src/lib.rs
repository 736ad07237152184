//! A small personal command-line toolkit: color notation conversion,
//! cleaning well-known directories, backing up dotfiles into markdown
//! notes, and building pre-filled pull-request URLs.
//!
//! This crate holds the verified logic; the thin shell around it
//! (argument parsing, filesystem and process access) lives outside.

pub mod backup_configs;
pub mod bitwarden_pr;
pub mod clean;
pub mod colorx;
pub mod commands;
pub mod errors;
