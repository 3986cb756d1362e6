//! The per-contract commit-reveal round engine and the service in front of it.

pub mod backend;
pub mod block;
pub mod commitment;
pub mod config;
pub mod contract;
pub mod event;
pub mod header;
pub mod identity_map;
pub mod model;
pub mod service;
