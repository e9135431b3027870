//! What the library promises, said of inputs and results: each law relates
//! what a function is given to what comes of it, in words of its own.
pub mod check;
pub mod cli;
pub mod config;
pub mod http;
pub mod init;
pub mod passkeys;
pub mod server;
pub mod service;
pub mod state;
pub mod text;
pub mod tokens;
pub mod update;
