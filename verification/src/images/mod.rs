//! Ready-made containers for common images.

pub mod postgres;
pub mod surrealdb;
