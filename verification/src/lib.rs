//! Backend logic of a desktop host for tool-providing subprocesses.

pub mod access;
pub mod client;
pub mod command;
pub mod correlator;
pub mod framing;
pub mod json;
pub mod listing;
pub mod registry;
pub mod text;
pub mod wire;
