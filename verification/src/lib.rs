//! Core of a self-hosted game-library server: accounts and sessions, the game
//! catalog, per-user libraries, metadata denormalisation and access control,
//! each with a machine-checked contract.

pub mod auth;
pub mod auth_handlers;
pub mod auth_service;
pub mod database;
pub mod handlers;
pub mod ids;
pub mod igdb_client;
pub mod metadata;
pub mod middleware;
pub mod models;
pub mod password;
pub mod table;
pub mod text;
pub mod time;
pub mod user_handlers;
