use ledger_core::{Block, Chain, Header, H256};

#[test]
fn test_new_chain_creates_genesis() {
    let chain = Chain::new();
    assert_eq!(chain.len(), 1);
    assert_eq!(chain.block(0).unwrap().header.number, 0);
    assert_eq!(chain.block(0).unwrap().header.parent_hash, H256::zero());
}

#[test]
fn test_chain_length_increases() {
    let mut chain = Chain::new();
    assert_eq!(chain.len(), 1);

    let block1 = Block::with_header(1, H256::from_low_u64_be(1), H256::zero(), 1000);
    chain.append_block(block1);
    assert_eq!(chain.len(), 2);

    let block2 = Block::with_header(2, H256::from_low_u64_be(2), H256::zero(), 2000);
    chain.append_block(block2);
    assert_eq!(chain.len(), 3);
}

#[test]
fn test_append_block() {
    let mut chain = Chain::new();

    let header = Header::new(1, H256::from_low_u64_be(100), H256::zero(), 5000);
    let block = Block::new(header);

    chain.append_block(block.clone());

    assert_eq!(chain.len(), 2);
    assert_eq!(chain.block(1), Some(&block));
}

#[test]
fn test_default_chain() {
    let chain = Chain::default();
    assert_eq!(chain.len(), 1);
    assert_eq!(chain.block(0).unwrap().header.number, 0);
}

#[test]
fn new_chain_holds_only_the_default_block() {
    let chain = Chain::new();
    assert_eq!(chain.len(), 1);
    assert_eq!(chain.block(0), Some(&Block::default()));
    assert_eq!(chain.block(1), None);
    assert!(!chain.is_empty());
}

#[test]
fn length_after_appends_is_one_more_than_count() {
    let mut chain = Chain::new();
    for n in 0..10u64 {
        chain.append_block(Block::with_header(n + 1, H256::zero(), H256::zero(), n));
        assert_eq!(chain.len() as u64, n + 2);
        assert!(!chain.is_empty());
    }
    let copy = chain.clone();
    assert_eq!(copy.len(), 11);
    assert_eq!(copy.block(10), chain.block(10));
}

#[test]
fn appended_blocks_are_not_checked() {
    let mut chain = Chain::new();
    let odd = Block::with_header(99, H256::from_low_u64_be(5), H256::zero(), 1);
    chain.append_block(odd);
    chain.append_block(Block::default());
    assert_eq!(chain.len(), 3);
    assert_eq!(chain.block(1), Some(&odd));
    assert_eq!(chain.block(2), Some(&Block::default()));
}

#[test]
fn blocks_keep_their_positions() {
    let mut chain = Chain::new();
    chain.append_block(Block::with_header(1, H256::zero(), H256::zero(), 0));
    chain.append_block(Block::with_header(2, H256::zero(), H256::zero(), 0));
    assert_eq!(chain.len(), 3);
    assert_eq!(chain.block(1).unwrap().header.number, 1);
    assert_eq!(chain.block(2).unwrap().header.number, 2);
}
