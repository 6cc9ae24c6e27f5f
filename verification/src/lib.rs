//! Logic of the MS Teams plugin for clipygo: token caching, request
//! building, callback parsing, target listing and configuration updates.

pub mod text;
pub mod protocol;
pub mod graph;
pub mod config;
pub mod auth;
pub mod oauth;
pub mod handler;
