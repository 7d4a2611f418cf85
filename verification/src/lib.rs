//! Schedule and manage docker and podman containers.
//!
//! The library describes containers as plain data, renders the command
//! lines that the container engines understand, decides what the answers
//! of the engines mean, and parses the declarative container description
//! that the derive front end hands over.

pub mod text;
pub mod container;
pub mod error;
pub mod rt;
pub mod client;
pub mod parser;
pub mod builder;
pub mod images;
