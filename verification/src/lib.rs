//! Routing of key events to remote devices: the configuration language, the
//! translation of input reports, and the serial transmission protocol.

pub mod client;
pub mod controller;
pub mod error;
pub mod parser;
pub mod search;
pub mod startup;
