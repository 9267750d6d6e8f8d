//! Verified core logic of the Atomic knowledge base.
pub mod text;
pub mod models;
pub mod error;
pub mod clock;
pub mod schedule;
pub mod reports;
pub mod manager;
pub mod tag_tree;
pub mod signals;
pub mod duplicates;
pub mod signal_actions;
pub mod health_data;
pub mod health_routes;
pub mod agent_tools;
pub mod setup;
