//! The message record as a consuming client sees it: the payload together
//! with the topic it came from and the offset it holds there.

use vstd::prelude::*;

verus! {

/// One received message, as reported by a broker's response line.
pub struct Message {
    pub payload: String,
    pub topic: String,
    pub offset: u64,
}

} // verus!
