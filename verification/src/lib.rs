//! A verified parser for a small habit-configuration format: each habit
//! block names a habit and carries six positional fields (goal, unit, type,
//! frequency, start, end) whose tokens are validated into typed records.
//!
//! The grammar lives in [`parser`], the value types and field validators in
//! [`types`], the character-level scanning and number conversions in
//! [`text`], and the format's proved general properties in [`laws`].

pub mod error;
pub mod laws;
pub mod parser;
pub mod text;
pub mod types;
