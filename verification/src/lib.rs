//! Core of a pairwise web-server benchmark tool: statistics over timed
//! samples, comparison of two measured targets, normalization of an external
//! load generator's summary, build-output scanning, calendar-correct
//! timestamp formatting, and report assembly.
//!
//! All process spawning, HTTP probing, file writing and console formatting
//! live outside this library; callers hand in plain values (durations and
//! sizes as integer micro-units) and take plain values back.

pub mod buildscan;
pub mod collector;
pub mod comparison;
pub mod loadnorm;
pub mod numfmt;
pub mod report;
pub mod stats;
pub mod timefmt;
