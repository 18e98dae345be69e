//! The first handler in the chain: it drops messages that no other module
//! should see, namely webhook posts and non-textual system messages.

use vstd::prelude::*;

verus! {

pub struct Filter;

impl Filter {
    pub fn new() -> Filter {
        Filter {  }
    }

    /// Whether a message passes on to the rest of the chain: it must not
    /// come from a webhook and must be an ordinary textual message.
    pub fn passes(&self, has_webhook_id: bool, is_textual: bool) -> (r: bool)
        ensures
            r == (!has_webhook_id && is_textual),
    {
        !has_webhook_id && is_textual
    }
}

} // verus!
