pub mod text;
pub mod lines;
pub mod order;
pub mod digest;
pub mod domain;
pub mod application;
pub mod infra;
pub mod adapters;
pub mod bootstrap;
pub mod cli;
