//! Supervision of a line-oriented command-line tool: classification of its
//! output, framing of command responses, and the rules for starting,
//! commanding and stopping a session, together with the file and vector
//! scanning helpers that accompany it.

pub mod command;
pub mod error;
pub mod files;
pub mod laws;
pub mod listing;
pub mod outcomes;
pub mod path;
pub mod protocol;
pub mod session;
pub mod supervisor;
pub mod tables;
pub mod text;
pub mod vector;
