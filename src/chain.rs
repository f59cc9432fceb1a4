//! An append-only chain of blocks, seeded with the genesis block.
use vstd::prelude::*;
use crate::block::{genesis_header, Block, Header};

verus! {

/// The blocks of a chain that has just been made: the genesis block alone.
pub open spec fn genesis_chain() -> Seq<Block> {
    seq![Block { header: genesis_header() }]
}

/// A sequence of blocks that always holds at least the genesis block.
/// Appended blocks are taken as they are: neither their number nor their
/// parent hash is checked against the tip.
#[derive(Debug)]
pub struct Chain {
    blocks: Vec<Block>,
}

impl View for Chain {
    type V = Seq<Block>;

    closed spec fn view(&self) -> Seq<Block> {
        self.blocks@
    }
}

impl Chain {
    #[verifier::type_invariant]
    closed spec fn never_empty(self) -> bool {
        self.blocks@.len() >= 1
    }

    /// A chain holding the genesis block alone.
    pub fn new() -> (r: Chain)
        ensures
            r@ == genesis_chain(),
    {
        let genesis = Block::default();
        let mut blocks: Vec<Block> = Vec::new();
        blocks.push(genesis);
        assert(blocks@ =~= genesis_chain());
        Chain { blocks }
    }

    /// Puts `block` at the end of the chain.
    pub fn append_block(&mut self, block: Block)
        ensures
            final(self)@ == old(self)@.push(block),
    {
        proof {
            use_type_invariant(&*self);
        }
        // The field holds a non-empty vector at every step: the new block
        // stands in it while the old blocks are taken out and extended.
        let mut blocks: Vec<Block> = Vec::new();
        blocks.push(block);
        core::mem::swap(&mut self.blocks, &mut blocks);
        blocks.push(block);
        self.blocks = blocks;
    }

    /// The number of blocks, the genesis block included.
    pub fn len(&self) -> (r: usize)
        ensures
            r == self@.len(),
            r >= 1,
    {
        proof {
            use_type_invariant(self);
        }
        self.blocks.len()
    }

    /// Whether the chain holds no block; never the case.
    pub fn is_empty(&self) -> (r: bool)
        ensures
            r == (self@.len() == 0),
            !r,
    {
        proof {
            use_type_invariant(self);
        }
        self.blocks.len() == 0
    }

    /// The block at `index`, counting the genesis block as 0.
    pub fn block(&self, index: usize) -> (r: Option<&Block>)
        ensures
            match r {
                Some(b) => index < self@.len() && *b == self@[index as int],
                None => index >= self@.len(),
            },
    {
        if index < self.blocks.len() {
            Some(&self.blocks[index])
        } else {
            None
        }
    }
}

impl Clone for Chain {
    fn clone(&self) -> (r: Chain)
        ensures
            r@ == self@,
    {
        proof {
            use_type_invariant(self);
        }
        let mut blocks: Vec<Block> = Vec::new();
        let mut i: usize = 0;
        while i < self.blocks.len()
            invariant
                i <= self.blocks@.len(),
                blocks@ == self.blocks@.subrange(0, i as int),
            decreases self.blocks@.len() - i,
        {
            blocks.push(self.blocks[i]);
            i = i + 1;
            assert(blocks@ =~= self.blocks@.subrange(0, i as int));
        }
        assert(blocks@ =~= self.blocks@);
        Chain { blocks }
    }
}

impl Default for Chain {
    fn default() -> (r: Chain)
        ensures
            r@ == genesis_chain(),
    {
        Chain::new()
    }
}

/// A new chain holds exactly one block, and that block is the genesis
/// block that `Block::default` gives.
pub proof fn lemma_new_chain_is_genesis(b: Block)
    requires
        b.header == genesis_header(),
    ensures
        genesis_chain().len() == 1,
        genesis_chain()[0] == b,
{
}

/// After any number of appends to a new chain, its length is one more than
/// the number of blocks appended. `chains[i]` is the chain after the first
/// `i` appends.
pub proof fn lemma_len_after_appends(chains: Seq<Seq<Block>>, appended: Seq<Block>)
    requires
        chains.len() == appended.len() + 1,
        chains[0] == genesis_chain(),
        forall|i: int|
            0 <= i < appended.len() ==> #[trigger] chains[i + 1] == chains[i].push(appended[i]),
    ensures
        chains.last().len() == 1 + appended.len(),
    decreases appended.len(),
{
    if appended.len() > 0 {
        let n = appended.len() - 1;
        let fewer = chains.drop_last();
        assert forall|i: int| 0 <= i < appended.drop_last().len() implies #[trigger] fewer[i + 1]
            == fewer[i].push(appended.drop_last()[i]) by {
            assert(chains[i + 1] == chains[i].push(appended[i]));
        }
        lemma_len_after_appends(fewer, appended.drop_last());
        assert(chains[n + 1] == chains[n].push(appended[n]));
    }
}

} // verus!
