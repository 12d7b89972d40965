//! Replication planning for dataset trees.

pub mod command;
pub mod dataset;
pub mod guard;
pub mod inspect;
pub mod job;
pub mod plan;
pub mod select;
pub mod text;
pub mod transfer;
pub mod walk;
