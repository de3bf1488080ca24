use vstd::prelude::*;

verus! {

/// A named state that a block can be in.
#[derive(Debug, Clone)]
pub struct BlockState {
    pub name: String,
}

} // verus!
