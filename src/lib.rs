//! Orchestration core of a benchmark runner: the defaults of its command
//! line, the configuration of its network clients, and the controller that
//! drives one benchmark invocation from creation to its final status, with
//! the laws that hold of a whole run.
pub mod config;
pub mod controller;
pub mod defaults;
pub mod laws;
pub mod swap_indexes;
