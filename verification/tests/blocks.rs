use tari_rpc::block::{Block, BlockHeaderAccumulatedData, ChainBlock, HistoricalBlock};

fn historical() -> HistoricalBlock<&'static str, u128> {
    HistoricalBlock::new(
        Block { contents: "block 7" },
        3,
        BlockHeaderAccumulatedData { hash: vec![0xAB, 0xCD], totals: 1 << 100 },
    )
}

#[test]
fn a_historical_block_holds_what_it_was_made_of() {
    let block = historical();
    assert_eq!(block.confirmations(), 3);
    assert_eq!(block.block(), &Block { contents: "block 7" });
    assert_eq!(block.hash(), &vec![0xAB, 0xCD]);
    assert_eq!(block.clone(), block);
}

#[test]
fn the_block_can_be_taken_out() {
    assert_eq!(historical().into_block(), Block { contents: "block 7" });
    assert_eq!(Block::from(historical()), historical().into_block());
}

#[test]
fn a_chain_block_keeps_the_accumulated_data() {
    let chain_block: ChainBlock<&'static str, u128> = historical().into_chain_block();
    assert_eq!(chain_block.block, Block { contents: "block 7" });
    assert_eq!(
        chain_block.accumulated_data,
        BlockHeaderAccumulatedData { hash: vec![0xAB, 0xCD], totals: 1 << 100 }
    );
}
