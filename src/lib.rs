//! A fortune library: resolves input paths into a sorted list of files, splits
//! each file into fortunes at lines that hold `%` alone, and selects either every
//! fortune that a pattern matches or one fortune picked by a seed.

pub mod text;
pub mod seed;
pub mod parse;
pub mod order;
pub mod resolve;
pub mod select;
pub mod corpus;
pub mod config;
pub mod laws;
