//! Reporting progress, without knowing who is listening.

use vstd::prelude::*;

verus! {

/// Reports nothing: for work that has no one to tell.
#[derive(Debug, Clone, Copy)]
pub struct NoopProgressEmit;

} // verus!
