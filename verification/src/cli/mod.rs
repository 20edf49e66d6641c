//! The command-line front end: arguments and the handling of protocol
//! commands.
pub mod args;
pub mod commands;
