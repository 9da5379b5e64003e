//! The stored-record form of a block, and chain reconstruction.
//!
//! The persistence collaborator stores one record per block: a numeric row
//! id plus the block's fields, with the integers widened to signed 64-bit
//! columns. Reconstruction maps records (already ordered by index) back to
//! blocks and revalidates the whole chain; a failed revalidation signals
//! the caller to discard the stored set and start a new chain.

use vstd::prelude::*;
use crate::block::Block;
use crate::blockchain::{Blockchain, spec_chain_valid};

verus! {

/// One stored block record, as the persistence collaborator keeps it.
#[derive(Debug, Clone, PartialEq)]
pub struct Model {
    /// The storage row id; not part of the block.
    pub id: i32,
    pub index: i64,
    pub timestamp: i64,
    pub proof_of_work: i64,
    pub previous_hash: String,
    pub hash: String,
    pub data: String,
}

/// The block a stored record stands for.
pub open spec fn spec_block_of(m: Model) -> Block {
    Block {
        index: m.index as u64,
        timestamp: m.timestamp as u64,
        proof_of_work: m.proof_of_work as u64,
        previous_hash: m.previous_hash,
        hash: m.hash,
        data: m.data,
    }
}

/// The stored record for a block, under the given row id.
pub open spec fn spec_record_of(b: Block, id: i32) -> Model {
    Model {
        id,
        index: b.index as i64,
        timestamp: b.timestamp as i64,
        proof_of_work: b.proof_of_work as i64,
        previous_hash: b.previous_hash,
        hash: b.hash,
        data: b.data,
    }
}

/// The blocks a sequence of stored records stands for, in order.
pub open spec fn spec_blocks_of(rs: Seq<Model>) -> Seq<Block> {
    rs.map_values(|m: Model| spec_block_of(m))
}

impl Block {
    /// The stored record for this block, under the given row id.
    pub fn to_record(&self, id: i32) -> (m: Model)
        ensures
            m == spec_record_of(*self, id),
    {
        Model {
            id,
            index: self.index as i64,
            timestamp: self.timestamp as i64,
            proof_of_work: self.proof_of_work as i64,
            previous_hash: self.previous_hash.clone(),
            hash: self.hash.clone(),
            data: self.data.clone(),
        }
    }
}

impl Model {
    /// The block this stored record stands for.
    pub fn to_block(&self) -> (b: Block)
        ensures
            b == spec_block_of(*self),
    {
        Block {
            index: self.index as u64,
            timestamp: self.timestamp as u64,
            proof_of_work: self.proof_of_work as u64,
            previous_hash: self.previous_hash.clone(),
            hash: self.hash.clone(),
            data: self.data.clone(),
        }
    }
}

/// Rebuilds a chain from stored records, ordered by index, and revalidates
/// it. Returns the chain exactly when records are present and the rebuilt
/// chain is valid; an empty or invalid stored set yields nothing, and the
/// caller discards it and starts a new chain.
pub fn reconstruct_chain(records: &Vec<Model>, difficulty: usize) -> (r: Option<Blockchain>)
    ensures
        match r {
            Some(bc) => {
                &&& records@.len() > 0
                &&& bc.difficulty == difficulty
                &&& bc.chain@ == spec_blocks_of(records@)
                &&& spec_chain_valid(bc.chain@)
            },
            None => records@.len() == 0 || !spec_chain_valid(spec_blocks_of(records@)),
        },
{
    if records.len() == 0 {
        return None;
    }
    let mut chain: Vec<Block> = Vec::new();
    let mut i: usize = 0;
    while i < records.len()
        invariant
            i <= records@.len(),
            chain@ == spec_blocks_of(records@.take(i as int)),
        decreases records@.len() - i,
    {
        chain.push(records[i].to_block());
        proof {
            assert(spec_blocks_of(records@.take(i as int + 1)) =~= spec_blocks_of(
                records@.take(i as int),
            ).push(spec_block_of(records@[i as int])));
        }
        i = i + 1;
    }
    proof {
        assert(records@.take(records@.len() as int) =~= records@);
    }
    let bc = Blockchain { chain, difficulty };
    if bc.is_chain_valid() {
        Some(bc)
    } else {
        None
    }
}

/// Writing a block to its stored-record form and reading it back yields
/// the block again, field for field.
pub proof fn lemma_record_round_trip(b: Block, id: i32)
    ensures
        spec_block_of(spec_record_of(b, id)) == b,
{
    let x = b.index;
    let t = b.timestamp;
    let p = b.proof_of_work;
    assert(x as i64 as u64 == x) by (bit_vector);
    assert(t as i64 as u64 == t) by (bit_vector);
    assert(p as i64 as u64 == p) by (bit_vector);
}

/// Writing every block of a sequence to its stored-record form and
/// reading the records back yields the original sequence of blocks.
pub proof fn lemma_chain_round_trip(s: Seq<Block>, ids: Seq<i32>)
    requires
        ids.len() == s.len(),
    ensures
        spec_blocks_of(s.map(|i: int, b: Block| spec_record_of(b, ids[i]))) == s,
{
    let rs = s.map(|i: int, b: Block| spec_record_of(b, ids[i]));
    assert forall|i: int| 0 <= i < s.len() implies spec_blocks_of(rs)[i] == s[i] by {
        lemma_record_round_trip(s[i], ids[i]);
    }
    assert(spec_blocks_of(rs) =~= s);
}

} // verus!
