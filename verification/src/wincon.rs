//! The token that stands for a local terminal in raw mode.

use vstd::prelude::*;

verus! {

/// Proof that the local terminal was switched to raw, unechoed input with
/// escape sequences enabled. A session registry is made from one, so that
/// none is made before the terminal is ready.
#[derive(Debug)]
pub struct ConsoleEnabledToken;

} // verus!
