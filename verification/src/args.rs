//! The command-line surface, as plain data: what to run and with which
//! options.  Parsing the actual command line happens outside the library;
//! these types carry the parsed values.

use vstd::prelude::*;

verus! {

/// The two operations: bundle files, or apply JSON-described updates.
pub enum Commands {
    /// Concatenate files content with directory structure.
    Cat {
        /// Paths to process.
        paths: Vec<String>,
        /// Output file name, when given.
        output: Option<String>,
        /// Do not copy the result to the clipboard.
        no_copy: bool,
        /// Additional patterns to exclude.
        exclude: Vec<String>,
        /// Additional patterns to include.
        include_patterns: Vec<String>,
        /// Strip code comments.
        ignore_comments: bool,
        /// Strip docstrings.
        ignore_docstrings: bool,
        /// Maximum file size in whole mebibytes.
        max_size_mb: u64,
        /// Append the update-instruction preamble.
        prompt: bool,
    },
    /// Apply JSON-formatted code updates to files.
    Patch {
        /// The JSON file to read; `-` for standard input; nothing for the
        /// clipboard.
        json_file: Option<String>,
        /// Show what would change without writing anything.
        dry_run: bool,
        /// Write a backup of each file before updating it.
        backup: bool,
    },
}

/// A parsed invocation.
pub struct Args {
    pub command: Commands,
}

} // verus!
