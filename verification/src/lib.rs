//! Docker package manager: the decisions behind `dpm`, verified.
//!
//! The library holds what `dpm` decides: how its command line is read,
//! which image a program name maps to, what an installation records in the
//! configuration, and the texts and argument lists handed to Docker.
//! Everything that touches the outside world (processes, files, the network)
//! is left to the binary around it.
pub mod errors;
pub mod program_execution;
pub mod text;
pub mod cli;
pub mod cli_lib;
pub mod configuration_manager;
pub mod sources;
