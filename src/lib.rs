//! Device communication and introspection: tolerant parsers for shell
//! output, discovery and pairing decisions, and device identity routing.

pub mod number;
pub mod device;
pub mod discovery;
pub mod display;
pub mod hardware;
pub mod identity;
pub mod listing;
pub mod network;
pub mod pairing;
pub mod report;
pub mod text;
