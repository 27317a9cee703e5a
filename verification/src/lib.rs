//! Predicts which relation-level locks a SQL statement would take, by
//! running it in a transaction that is always rolled back while a second
//! session reads the server's lock catalog.
//!
//! The library holds the rules; it touches no database. [`probe`] is the
//! cycle of begin, execute, inspect and rollback as a state machine that a
//! driver steps through; [`assemble`] turns the catalog's rows into the
//! ordered answer; [`lock`] and [`spellings`] are the eight lock modes and
//! the reading of their names. [`cli`], [`server`] and [`explain`] hold what
//! the programs around the library decide on plain values.

pub mod assemble;
pub mod cli;
pub mod error;
pub mod explain;
pub mod lock;
pub mod probe;
pub mod server;
pub mod session;
pub mod spellings;
pub mod text;
pub mod types;
