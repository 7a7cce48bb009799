//! Link integrity checking for a static-site build: resolution of internal
//! content references against a permalink table, validation that anchor
//! targets exist in rendered HTML, a severity / exemption policy for link
//! failures, and a word-count / reading-time estimator.

use vstd::prelude::*;

pub mod link_checker;
pub mod permalinks;
pub mod site;
pub mod text;

verus! {

} // verus!
