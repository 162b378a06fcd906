//! The command-line surface, as the library sees it: plain values only.
//! Parsing the actual command line is the surrounding binary's job.

use vstd::prelude::*;

verus! {

/// The daemon's command-line arguments: verbose logging, and an optional
/// Magento working-directory override. When the override is absent the
/// caller falls back to its current working directory.
pub struct Args {
    pub verbose: bool,
    pub working_directory: Option<String>,
}

} // verus!
