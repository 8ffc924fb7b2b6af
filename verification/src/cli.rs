//! The command-line surface: one required username argument. Argument
//! parsing itself lives with the binary; this is the plain value it hands
//! to the pipeline.

use vstd::prelude::*;

verus! {

/// The parsed command line: the username to derive an identicon for.
#[derive(Debug)]
pub struct Cli {
    pub username: String,
}

} // verus!
