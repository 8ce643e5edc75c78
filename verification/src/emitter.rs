//! Where signals are counted.

use vstd::prelude::*;

verus! {

/// Stands where metrics on emitted signals are kept; none are yet.
#[derive(Debug, PartialEq, Eq, Structural)]
pub struct SignalEmitter {}

impl SignalEmitter {
    /// An emitter with nothing to its account.
    pub fn new() -> (emitter: SignalEmitter)
        ensures
            emitter == (SignalEmitter {  }),
    {
        SignalEmitter {  }
    }
}

} // verus!
