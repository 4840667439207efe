//! Percentile statistics over IEEE-754 double-precision datasets.
//!
//! Values are carried as their 64-bit IEEE-754 patterns, so that every
//! decision the engine takes (validation, ordering, rank selection) is plain
//! integer logic with a checked contract. Callers convert between doubles
//! and their bit patterns at the edge, where the interpolation between two
//! order statistics is also done.

pub mod config;
pub mod format;
pub mod order;
pub mod percentile;
pub mod response;
pub mod upload;
