use ledger_core::{Block, Header, H256};

#[test]
fn test_default_header() {
    let header = Header::default();
    assert_eq!(header.number, 0);
    assert_eq!(header.parent_hash, H256::zero());
    assert_eq!(header.state_root, H256::zero());
    assert_eq!(header.timestamp, 0);
}

#[test]
fn test_new_header() {
    let number = 42;
    let parent_hash = H256::from_low_u64_be(1);
    let state_root = H256::from_low_u64_be(2);
    let timestamp = 1234567890;

    let header = Header::new(number, parent_hash, state_root, timestamp);

    assert_eq!(header.number, number);
    assert_eq!(header.parent_hash, parent_hash);
    assert_eq!(header.state_root, state_root);
    assert_eq!(header.timestamp, timestamp);
}

#[test]
fn test_default_block() {
    let block = Block::default();
    assert_eq!(block.header.number, 0);
    assert_eq!(block.header.parent_hash, H256::zero());
    assert_eq!(block.header.state_root, H256::zero());
    assert_eq!(block.header.timestamp, 0);
}

#[test]
fn test_instantiate_block() {
    let header = Header::new(
        1,
        H256::from_low_u64_be(100),
        H256::from_low_u64_be(200),
        1000,
    );
    let block = Block::new(header.clone());

    assert_eq!(block.header.number, 1);
    assert_eq!(block.header.parent_hash, H256::from_low_u64_be(100));
    assert_eq!(block.header.state_root, H256::from_low_u64_be(200));
    assert_eq!(block.header.timestamp, 1000);
}

#[test]
fn test_block_with_header() {
    let block = Block::with_header(
        5,
        H256::from_low_u64_be(50),
        H256::from_low_u64_be(75),
        5000,
    );

    assert_eq!(block.header.number, 5);
    assert_eq!(block.header.parent_hash, H256::from_low_u64_be(50));
    assert_eq!(block.header.state_root, H256::from_low_u64_be(75));
    assert_eq!(block.header.timestamp, 5000);
}

#[test]
fn test_genesis_block() {
    let genesis = Block::default();
    assert_eq!(genesis.header.number, 0);
    assert_eq!(genesis.header.parent_hash, H256::zero());
}

#[test]
fn test_block_equality() {
    let header1 = Header::new(
        1,
        H256::from_low_u64_be(10),
        H256::from_low_u64_be(20),
        1000,
    );
    let header2 = Header::new(
        1,
        H256::from_low_u64_be(10),
        H256::from_low_u64_be(20),
        1000,
    );
    let header3 = Header::new(
        2,
        H256::from_low_u64_be(10),
        H256::from_low_u64_be(20),
        1000,
    );

    let block1 = Block::new(header1);
    let block2 = Block::new(header2);
    let block3 = Block::new(header3);

    assert_eq!(block1, block2);
    assert_ne!(block1, block3);
}

#[test]
fn headers_differing_in_one_field_are_unequal() {
    let h = |n, p, s, t| Header::new(n, H256::from_low_u64_be(p), H256::from_low_u64_be(s), t);
    let base = h(3, 4, 5, 6);
    assert_eq!(base, h(3, 4, 5, 6));
    assert_ne!(base, h(9, 4, 5, 6));
    assert_ne!(base, h(3, 9, 5, 6));
    assert_ne!(base, h(3, 4, 9, 6));
    assert_ne!(base, h(3, 4, 5, 9));
    assert_eq!(Block::new(base), Block::with_header(3, H256::from_low_u64_be(4), H256::from_low_u64_be(5), 6));
    assert_ne!(Block::new(base), Block::new(h(3, 4, 5, 7)));
}

#[test]
fn with_header_matches_new_of_new() {
    let a = Block::with_header(7, H256::from_low_u64_be(8), H256::zero(), 9);
    let b = Block::new(Header::new(7, H256::from_low_u64_be(8), H256::zero(), 9));
    assert_eq!(a, b);
}

#[test]
fn from_low_u64_be_fills_the_low_bytes() {
    let h = H256::from_low_u64_be(0x0102030405060708);
    assert_eq!(h, H256 { hi: 0, lo: 0x0102030405060708 });
    assert_ne!(h, H256::zero());
    assert_eq!(H256::from_low_u64_be(0), H256::zero());
}
