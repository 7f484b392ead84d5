//! Verified core of the OpenFairFlow dataset and federated-learning workbench.

pub mod auth;
pub mod config;
pub mod datasets;
pub mod ids;
pub mod models;
pub mod pages;
pub mod preview;
pub mod store;
pub mod table;
pub mod text;
pub mod viewer;
pub mod workspaces;
