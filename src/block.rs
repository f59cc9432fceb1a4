//! Block headers and blocks. Hashes in a header are carried as given: no
//! hash is computed or checked here.
use vstd::prelude::*;
use crate::types::H256;

verus! {

/// The header of the genesis block: every field zero.
pub open spec fn genesis_header() -> Header {
    Header {
        number: 0,
        parent_hash: H256 { hi: 0, lo: 0 },
        state_root: H256 { hi: 0, lo: 0 },
        timestamp: 0,
    }
}

/// Metadata of a block.
#[derive(Clone, Copy, Debug, PartialEq, Eq, Structural)]
pub struct Header {
    /// Height of the block in its chain.
    pub number: u64,
    /// Hash of the parent block.
    pub parent_hash: H256,
    /// Root of the state the block leads to.
    pub state_root: H256,
    /// Unix time in seconds.
    pub timestamp: u64,
}

impl Header {
    /// A header holding the given values.
    pub fn new(number: u64, parent_hash: H256, state_root: H256, timestamp: u64) -> (r: Header)
        ensures
            r == (Header { number, parent_hash, state_root, timestamp }),
    {
        Header { number, parent_hash, state_root, timestamp }
    }
}

impl Default for Header {
    /// The genesis header.
    fn default() -> (r: Header)
        ensures
            r == genesis_header(),
    {
        Header { number: 0, parent_hash: H256::zero(), state_root: H256::zero(), timestamp: 0 }
    }
}

/// A block: a header and, in this scope, nothing else.
#[derive(Clone, Copy, Debug, PartialEq, Eq, Structural)]
pub struct Block {
    pub header: Header,
}

impl Block {
    /// The block with the given header.
    pub fn new(header: Header) -> (r: Block)
        ensures
            r.header == header,
    {
        Block { header }
    }

    /// The block whose header holds the given values.
    pub fn with_header(
        number: u64,
        parent_hash: H256,
        state_root: H256,
        timestamp: u64,
    ) -> (r: Block)
        ensures
            r.header == (Header { number, parent_hash, state_root, timestamp }),
    {
        Block::new(Header::new(number, parent_hash, state_root, timestamp))
    }
}

impl Default for Block {
    /// The genesis block.
    fn default() -> (r: Block)
        ensures
            r.header == genesis_header(),
    {
        Block { header: Header::default() }
    }
}

/// Two headers are equal exactly when all four of their fields are: a
/// difference in any one of them makes them unequal.
pub proof fn lemma_header_eq_fields(a: Header, b: Header)
    ensures
        a == b <==> (a.number == b.number && a.parent_hash == b.parent_hash && a.state_root
            == b.state_root && a.timestamp == b.timestamp),
{
}

/// Two blocks are equal exactly when their headers are.
pub proof fn lemma_block_eq_fields(a: Block, b: Block)
    ensures
        a == b <==> a.header == b.header,
{
}

} // verus!
