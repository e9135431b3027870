//! Single-user passkey auth: the rules behind the `latch` program.
pub mod b64u;
pub mod cli;
pub mod cmd;
pub mod config;
pub mod http;
pub mod json;
pub mod jwt;
pub mod laws;
pub mod lifecycle;
pub mod outside;
pub mod output;
pub mod server;
pub mod state;
pub mod text;
