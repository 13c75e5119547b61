//! Signing in to servers.

pub mod handshake;
pub mod none;
pub mod oidc;
pub mod redirect_server;
pub mod server_manager;
pub mod user;
