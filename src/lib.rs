//! Compiles a hierarchical description of mail folders and routing rules
//! into a Sieve filtering script.
pub mod common;
pub mod generators;
pub mod sorted;
