//! Local state and remote-protocol rules of a launcher front end for the
//! Linear issue tracker.
//!
//! Nothing here touches a disk or a socket. The registry of linked teams and
//! the stored credential are plain values with verified transitions; a remote
//! call is a [`linear::Request`] handed out and a [`linear::Reply`] taken
//! back; each command is the list of decisions it makes between those steps.

pub mod commands;
pub mod config;
pub mod error;
pub mod linear;
