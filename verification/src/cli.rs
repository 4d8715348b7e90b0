//! The arguments of the command line.

use vstd::prelude::*;

verus! {

/// The files to open at startup, in order.
#[derive(Debug)]
pub struct Args {
    pub files: Vec<String>,
}

} // verus!
