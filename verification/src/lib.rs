//! A verified client core for a remote code-formatting daemon: it
//! translates formatting options into protocol metadata, interprets the
//! daemon's per-file responses, and replaces files on disk atomically,
//! leaving reading paths, printing and the command line to the thin
//! program around it.

pub mod errors;
pub mod text;
pub mod versions;
pub mod metadata;
pub mod interpret;
pub mod writer;
pub mod transport;
pub mod orchestrate;
