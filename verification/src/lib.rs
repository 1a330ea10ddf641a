//! Verified core of Vaelorium's sync, backup and storage logic.

pub mod text;
pub mod fields;
pub mod ids;
pub mod journal;
pub mod conflict;
pub mod state;
pub mod engine;
pub mod crypto;
pub mod hosted;
pub mod backend;
pub mod errors;
pub mod snapshot;
pub mod codec;
pub mod s3;
pub mod keychain;
pub mod registry;
pub mod backup;
pub mod tome_identity;
pub mod app_state;
pub mod migrations;
pub mod content;
pub mod cloud;
pub mod sync_commands;
pub mod runner;
pub mod model;
pub mod activity;
pub mod app_backend;
pub mod restore;
pub mod apply;
pub mod statements;
pub mod relations;
pub mod numbers;
