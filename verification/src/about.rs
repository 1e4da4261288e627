//! What the program is called, and where it comes from.
use vstd::prelude::*;

verus! {

/// What the program says of itself.
#[derive(Debug, Clone, PartialEq, Eq)]
pub struct Package {
    pub name: String,
    pub version: String,
    pub description: String,
    pub license: String,
    pub repository: String,
    /// The earliest Rust that it can be built with.
    pub rust_version: String,
}

} // verus!
