//! Pattern matching and file classification for bulk text-processing runs.
//!
//! The crate compiles raw glob-like pattern strings into an efficient
//! [`pattern_matcher::PatternMatcher`], decides which files and directories a
//! collection run admits or prunes, renders directory trees, detects source
//! languages, and applies textual code updates.  Every function is verified
//! against a mathematical model of its behaviour.

pub mod args;
pub mod clipboard;
pub mod file_collector;
pub mod glob;
pub mod language_detection;
pub mod patch;
pub mod paths;
pub mod pattern_matcher;
pub mod patterns;
pub mod structure_generator;
pub mod text;
