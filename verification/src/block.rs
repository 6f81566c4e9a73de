//! Records of blocks.

use vstd::prelude::*;

verus! {

/// The hash of a block, as bytes.
pub type HashOutput = Vec<u8>;

/// A protocol-defined block, with contents of type `C`.
#[derive(Debug, Clone, PartialEq)]
pub struct Block<C> {
    pub contents: C,
}

/// What is known of a block from the chain up to it: its hash, and totals of type `T`.
#[derive(Debug, Clone, PartialEq)]
pub struct BlockHeaderAccumulatedData<T> {
    pub hash: HashOutput,
    pub totals: T,
}

/// A block, and what is known of it from the chain up to it.
#[derive(Debug, Clone, PartialEq)]
pub struct ChainBlock<C, T> {
    pub accumulated_data: BlockHeaderAccumulatedData<T>,
    pub block: Block<C>,
}

/// The representation of a historical block in the blockchain. It is essentially identical to a
/// protocol-defined block but contains some extra metadata that clients such as block explorers
/// will find interesting.
#[derive(Debug, Clone, PartialEq)]
pub struct HistoricalBlock<C, T> {
    /// The number of blocks that have been mined since this block, including this one. The current
    /// tip will have one confirmation.
    pub confirmations: u64,
    /// The underlying block
    pub block: Block<C>,
    /// Accumulated data
    pub accumulated_data: BlockHeaderAccumulatedData<T>,
}

impl<C, T> HistoricalBlock<C, T> {
    pub fn new(
        block: Block<C>,
        confirmations: u64,
        accumulated_data: BlockHeaderAccumulatedData<T>,
    ) -> (res: HistoricalBlock<C, T>)
        ensures
            res.block == block,
            res.confirmations == confirmations,
            res.accumulated_data == accumulated_data,
    {
        HistoricalBlock { block, confirmations, accumulated_data }
    }

    pub fn confirmations(&self) -> (res: u64)
        ensures
            res == self.confirmations,
    {
        self.confirmations
    }

    /// Returns a reference to the block of the HistoricalBlock
    pub fn block(&self) -> (res: &Block<C>)
        ensures
            *res == self.block,
    {
        &self.block
    }

    pub fn hash(&self) -> (res: &HashOutput)
        ensures
            *res == self.accumulated_data.hash,
    {
        &self.accumulated_data.hash
    }

    pub fn into_block(self) -> (res: Block<C>)
        ensures
            res == self.block,
    {
        self.block
    }

    pub fn into_chain_block(self) -> (res: ChainBlock<C, T>)
        ensures
            res.block == self.block,
            res.accumulated_data == self.accumulated_data,
    {
        ChainBlock { accumulated_data: self.accumulated_data, block: self.block }
    }
}

impl<C, T> From<HistoricalBlock<C, T>> for Block<C> {
    fn from(block: HistoricalBlock<C, T>) -> (res: Block<C>) {
        block.block
    }
}

impl<C, T> vstd::std_specs::convert::FromSpecImpl<HistoricalBlock<C, T>> for Block<C> {
    open spec fn obeys_from_spec() -> bool {
        true
    }

    open spec fn from_spec(block: HistoricalBlock<C, T>) -> Block<C> {
        block.block
    }
}

} // verus!
