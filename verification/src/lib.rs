//! Index of media shows kept on two storage tiers, and the queue of jobs that
//! relocate a show's directory from one tier to the other.
//!
//! The library holds the rules: how a show directory is turned into an index
//! row, when a move is admitted, which job the worker takes next, how progress
//! is accounted and what a finished move writes back. Reading directories,
//! copying files, the database and the clock belong to the program around it,
//! which hands their results in as plain values.

pub mod admission;
pub mod api;
pub mod config;
pub mod index;
pub mod jellyfin;
pub mod jobs;
pub mod listing;
pub mod nfo;
pub mod paths;
pub mod pools;
pub mod scanner;
pub mod text;
pub mod tier;
pub mod user_settings;
pub mod worker;
