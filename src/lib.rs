//! Core logic of an NDI audio source element: receiver registry, connection
//! decisions, timestamp reconciliation, settings and the element's state.
pub mod connection;
pub mod element;
pub mod registry;
pub mod timestamp;
