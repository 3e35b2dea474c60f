//! Blocks of identified data within a section.

use vstd::prelude::*;

use crate::memory::{Extent, Size, ADDRESS_SPACE_END};

verus! {

/// A block of data within a section whose meaning has been identified.
#[derive(Clone, Copy, Debug, PartialEq, Eq)]
pub struct Block {
    size: Size,
}

impl Block {
    /// Constructs a new block of the given size.
    pub fn new(size: Size) -> (block: Block)
        ensures
            block.spec_size() == size.spec_get(),
            block.valid(),
    {
        let _ = size.get();
        Block { size }
    }

    /// All of a block is identified.
    pub proof fn lemma_identified(self)
        ensures
            self.spec_identified() == self.spec_size(),
    {
    }

    /// Gives back the block, known to be valid.
    pub(crate) fn checked(self) -> (block: Block)
        ensures
            block == self,
            block.valid(),
    {
        let _ = self.size.get();
        self
    }
}

impl Extent for Block {
    /// A block spans a size that fits the address space.
    closed spec fn valid(&self) -> bool {
        1 <= self.size.spec_get() <= ADDRESS_SPACE_END
    }

    closed spec fn spec_size(&self) -> nat {
        self.size.spec_get() as nat
    }

    /// All of a block is identified.
    closed spec fn spec_identified(&self) -> nat {
        self.size.spec_get() as nat
    }

    proof fn lemma_bounds(&self) {
    }

    fn size(&self) -> (size: Size) {
        self.size
    }

    fn identified(&self) -> (count: u64) {
        self.size.get()
    }
}

} // verus!
