//! What a packaged application records about itself.
use vstd::prelude::*;

verus! {

/// The module to run first, and the names that pick the application's
/// storage directory.
#[derive(Debug, Clone, PartialEq, Eq)]
pub struct Metadata {
    /// Absolute URL of the entry module.
    pub entrypoint: String,
    pub author: String,
    pub name: String,
}

} // verus!
