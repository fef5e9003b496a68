//! What a text is resolved against.

use vstd::prelude::*;

verus! {

/// The surroundings in which a text is resolved. None of the payloads of this
/// library reads anything from it yet; it is handed through so that they can.
#[derive(Debug, Clone, Copy, PartialEq, Eq)]
pub struct Context {}

impl Default for Context {
    fn default() -> (context: Context)
        ensures
            context == (Context {  }),
    {
        Context {  }
    }
}

} // verus!
