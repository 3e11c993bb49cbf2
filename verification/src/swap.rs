//! The atomic-swap extension point.
//!
//! The swap protocol itself is not part of this layer: the hook exists
//! so a hosting wallet can route swap messages somewhere, and today it
//! accepts them without doing any protocol work.

use vstd::prelude::*;

use crate::address::Address;
use crate::error::Error;

verus! {

/// Placeholder processor for swap protocol messages.
pub struct SwapProcessor {}

impl SwapProcessor {
    /// Accepts a swap message and performs no protocol work.
    pub fn process_swap_message(&self, from: &Address, message: &str) -> (r: Result<(), Error>)
        ensures
            r is Ok,
    {
        let _ = from;
        let _ = message;
        Ok(())
    }
}

} // verus!
