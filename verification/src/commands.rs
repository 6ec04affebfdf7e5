//! The commands, each as the decisions it makes between the steps that the
//! caller carries out: prompting, posting a request, reading and writing the
//! records.

pub mod auth;
pub mod link;
pub mod list;
pub mod run;
pub mod unlink;
