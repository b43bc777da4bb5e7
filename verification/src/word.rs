//! A word: four base-field elements, the unit in which the hasher,
//! the memory chiplet and the kernel ROM exchange data.

use crate::felt::{is_felt, Felt};
use vstd::prelude::*;

verus! {

/// Four field elements.
#[derive(Clone, Copy, PartialEq, Eq, Structural, Debug)]
pub struct Word {
    pub w0: Felt,
    pub w1: Felt,
    pub w2: Felt,
    pub w3: Felt,
}

/// All four elements are canonical.
pub open spec fn is_word(w: Word) -> bool {
    is_felt(w.w0) && is_felt(w.w1) && is_felt(w.w2) && is_felt(w.w3)
}

impl Word {
    /// The all-zero word.
    pub fn zeroed() -> (r: Word)
        ensures
            is_word(r),
            r.w0.v == 0 && r.w1.v == 0 && r.w2.v == 0 && r.w3.v == 0,
    {
        Word { w0: Felt::zero(), w1: Felt::zero(), w2: Felt::zero(), w3: Felt::zero() }
    }

    /// Builds a word from four canonical elements.
    pub fn new(w0: Felt, w1: Felt, w2: Felt, w3: Felt) -> (r: Word)
        requires
            is_felt(w0),
            is_felt(w1),
            is_felt(w2),
            is_felt(w3),
        ensures
            is_word(r),
            r == (Word { w0, w1, w2, w3 }),
    {
        Word { w0, w1, w2, w3 }
    }
}

} // verus!
