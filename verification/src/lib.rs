//! Motion and path history of a segmented, trailing body.
//!
//! A head moves and turns; it leaves a sparse history of the places it has
//! been; trailing segments are placed along that history. This crate holds the
//! bookkeeping, the walk along the history and every decision of that model,
//! each with a proved contract. Measuring lengths and angles is left to the
//! caller, who reports the outcome of each measurement as a
//! [`comparison::Comparison`].

pub mod comparison;
pub mod trace_position_calculator;
pub mod snake_model;
pub mod snake_extension;
pub mod food;
