//! Verified core of the WebAssembly package manager: contract grammars,
//! contract validation, registry configuration, lockfile data and the
//! decisions that the command-line front end acts upon.

pub mod abi;
pub mod assoc;
pub mod bonjour;
pub mod bundle;
pub mod commands;
pub mod config;
pub mod execute;
pub mod install;
pub mod database;
pub mod legacy_lockfile;
pub mod lockfile;
pub mod package_order;
pub mod publish;
pub mod resolved;
pub mod round_trip;
pub mod run;
pub mod text;
pub mod wax_index;
pub mod wasm_contract;
pub mod wapm_contract;
