//! Argument synthesis, symbol resolution and protocol rules of a hot-patching
//! build driver, with each rule stated as a contract.

pub mod ar_scan;
pub mod archive;
pub mod argv;
pub mod capture;
pub mod command;
pub mod context;
pub mod fat;
pub mod fat_laws;
pub mod orchestrator;
pub mod paths;
pub mod symbols;
pub mod target;
pub mod text;
pub mod thin;
pub mod transport;
