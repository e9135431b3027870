//! The commands: what each prints, decides and asks for. Where a command
//! must look at the machine or change it, its functions take what was found
//! and give back what is to be done.
//!
//! Data goes to stdout, diagnostics to stderr. With `--json`, or where stdout
//! is no terminal, structured data is one JSON value. Errors carry an exit
//! code.
pub mod check;
pub mod config;
pub mod passkeys;
pub mod service;
pub mod update;
