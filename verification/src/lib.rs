//! Decision core of a spool for GitHub `workflow_job` webhooks.
//!
//! A delivery is authenticated by its HMAC over the raw body, passed through the
//! gates of the policy, and, where all of them let it through, put into a
//! maildir-style queue as one file per job. The modules hold the decisions: what
//! a delivery is answered, what is written for a job, which file operation comes
//! next, and which files, directories and settings are refused. Sockets, files and
//! the clock belong to the program around this library.

pub mod auth;
pub mod delivery_laws;
pub mod enqueue;
pub mod fault;
pub mod file_laws;
pub mod fs_laws;
pub mod fs_security;
pub mod headers;
pub mod json;
pub mod launchd;
pub mod payload;
pub mod prepare;
pub mod prepare_laws;
pub mod queue_laws;
pub mod request_laws;
pub mod secret;
pub mod spool;
pub mod stage_laws;
pub mod startup;
pub mod startup_laws;
pub mod sweep;
pub mod text;
pub mod text_laws;
pub mod webhook;
pub mod webhook_laws;
