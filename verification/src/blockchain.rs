//! The ordered block sequence: linkage rules, mining of new blocks, and
//! whole-chain validation.

use vstd::prelude::*;
use crate::block::{Block, has_leading_zeros};

verus! {

/// The blockchain: an append-only sequence of blocks, each linked to its
/// predecessor by hash, together with the difficulty every appended block
/// is mined at.
#[derive(Debug, Clone)]
pub struct Blockchain {
    /// The blocks, in index order.
    pub chain: Vec<Block>,
    /// The number of leading `'0'` characters a mined hash must have.
    pub difficulty: usize,
}

/// Chain validity: every block's stored hash is the digest of its own
/// fields, and every block after the first names its predecessor's hash.
pub open spec fn spec_chain_valid(s: Seq<Block>) -> bool {
    (forall|i: int| 0 <= i < s.len() ==> (#[trigger] s[i]).hash_consistent()) && (forall|i: int|
        1 <= i < s.len() ==> (#[trigger] s[i]).previous_hash@ == s[i - 1].hash@)
}

/// Every block's `index` field equals its position in the sequence.
pub open spec fn spec_indexed(s: Seq<Block>) -> bool {
    forall|i: int| 0 <= i < s.len() ==> (#[trigger] s[i]).index == i as u64
}

/// No nonce value at all gives `b`'s other fields a digest that meets the
/// difficulty: the case in which mining exhausts the nonce range.
pub open spec fn no_nonce_meets(b: Block, d: nat) -> bool {
    forall|n: u64| !has_leading_zeros(#[trigger] b.digest_with_nonce(n), d)
}

impl Blockchain {
    /// Well-formedness: at least the genesis block is present, indices
    /// equal positions, and the chain is valid.
    pub open spec fn wf(self) -> bool {
        self.chain@.len() >= 1 && spec_indexed(self.chain@) && spec_chain_valid(self.chain@)
    }

    /// Creates a chain holding exactly one freshly mined genesis block:
    /// index 0, empty predecessor hash, and the fixed genesis payload.
    pub fn new(difficulty: usize) -> (bc: Blockchain)
        ensures
            bc.difficulty == difficulty,
            bc.chain@.len() == 1,
            bc.chain@[0].index == 0,
            bc.chain@[0].previous_hash@ == Seq::<char>::empty(),
            bc.chain@[0].data@ == "genesis block"@,
            bc.chain@[0].hash_consistent(),
            bc.chain@[0].mined(difficulty as nat) || no_nonce_meets(
                bc.chain@[0],
                difficulty as nat,
            ),
            bc.wf(),
    {
        let mut genesis_block = Block::new(0, String::new(), "genesis block".to_owned());
        genesis_block.mine(difficulty);
        let bc = Blockchain { chain: vec![genesis_block], difficulty };
        bc
    }

    /// Mines a block carrying `data` at the chain's difficulty and appends
    /// it: the new block's index is the old length, its predecessor hash is
    /// the old last block's hash, and the rest of the chain stands
    /// unchanged. The chain is valid afterwards exactly when it was valid
    /// before.
    #[verifier::rlimit(60)]
    pub fn add_block(&mut self, data: String)
        requires
            old(self).chain@.len() >= 1,
        ensures
            final(self).difficulty == old(self).difficulty,
            final(self).chain@.len() == old(self).chain@.len() + 1,
            final(self).chain@.drop_last() == old(self).chain@,
            final(self).chain@.last().index == old(self).chain@.len() as u64,
            final(self).chain@.last().previous_hash@ == old(self).chain@.last().hash@,
            final(self).chain@.last().data == data,
            final(self).chain@.last().hash_consistent(),
            final(self).chain@.last().mined(old(self).difficulty as nat) || no_nonce_meets(
                final(self).chain@.last(),
                old(self).difficulty as nat,
            ),
            spec_chain_valid(final(self).chain@) <==> spec_chain_valid(old(self).chain@),
            old(self).wf() ==> final(self).wf(),
    {
        let len = self.chain.len();
        let last_hash = self.chain[len - 1].hash.clone();
        let mut new_block = Block::new(len as u64, last_hash, data);
        new_block.mine(self.difficulty);
        self.chain.push(new_block);
        proof {
            let s = old(self).chain@;
            let t = self.chain@;
            let b = t.last();
            assert(t == s.push(b));
            assert(t.drop_last() =~= s);
            if spec_chain_valid(s) {
                lemma_append_preserves_validity(s, b);
            }
            if spec_chain_valid(t) {
                lemma_valid_prefix(s, b);
            }
            if old(self).wf() {
                assert forall|i: int| 0 <= i < t.len() implies (#[trigger] t[i]).index
                    == i as u64 by {
                    if i < s.len() {
                        assert(t[i] == s[i]);
                    }
                }
            }
        }
    }

    /// Walks the whole chain and reports whether it is valid: every
    /// block's hash recomputes to its stored value, and every block after
    /// the first names its predecessor's hash. Read-only; an empty or
    /// single-block chain with correct hashes passes.
    pub fn is_chain_valid(&self) -> (r: bool)
        ensures
            r == spec_chain_valid(self.chain@),
    {
        let n = self.chain.len();
        let mut i: usize = 0;
        while i < n
            invariant
                n == self.chain@.len(),
                i <= n,
                forall|j: int| 0 <= j < i ==> (#[trigger] self.chain@[j]).hash_consistent(),
                forall|j: int|
                    1 <= j <= i && j < n ==> (#[trigger] self.chain@[j]).previous_hash@
                        == self.chain@[j - 1].hash@,
            decreases n - i,
        {
            let block = &self.chain[i];
            let computed_hash = block.calculate_hash();
            if computed_hash != block.hash {
                proof {
                    assert(!self.chain@[i as int].hash_consistent());
                }
                return false;
            }
            if i + 1 < n {
                if self.chain[i + 1].previous_hash != computed_hash {
                    proof {
                        let gi = i as int;
                        assert(self.chain@[gi + 1].previous_hash@ != self.chain@[gi].hash@);
                    }
                    return false;
                }
            }
            i = i + 1;
        }
        true
    }
}

/// Appending a hash-consistent block that names the last block's hash
/// keeps a valid chain valid.
pub proof fn lemma_append_preserves_validity(s: Seq<Block>, b: Block)
    requires
        spec_chain_valid(s),
        s.len() >= 1,
        b.hash_consistent(),
        b.previous_hash@ == s.last().hash@,
    ensures
        spec_chain_valid(s.push(b)),
{
    let t = s.push(b);
    assert forall|i: int| 0 <= i < t.len() implies (#[trigger] t[i]).hash_consistent() by {
        if i < s.len() {
            assert(t[i] == s[i]);
        } else {
            assert(t[i] == b);
        }
    }
    assert forall|i: int|
        1 <= i < t.len() implies (#[trigger] t[i]).previous_hash@ == t[i - 1].hash@ by {
        if i < s.len() {
            assert(t[i] == s[i]);
            assert(t[i - 1] == s[i - 1]);
        } else {
            assert(t[i] == b);
            assert(t[i - 1] == s.last());
        }
    }
}

/// A chain that is valid with one more block appended was valid before
/// the append.
pub proof fn lemma_valid_prefix(s: Seq<Block>, b: Block)
    requires
        spec_chain_valid(s.push(b)),
    ensures
        spec_chain_valid(s),
{
    let t = s.push(b);
    assert forall|i: int| 0 <= i < s.len() implies (#[trigger] s[i]).hash_consistent() by {
        assert(t[i] == s[i]);
        assert(t[i].hash_consistent());
    }
    assert forall|i: int|
        1 <= i < s.len() implies (#[trigger] s[i]).previous_hash@ == s[i - 1].hash@ by {
        assert(t[i] == s[i]);
        assert(t[i - 1] == s[i - 1]);
        assert(t[i].previous_hash@ == t[i - 1].hash@);
    }
}

/// A chain with any block whose stored hash is not the digest of its own
/// fields is invalid, whatever the rest of the chain holds.
pub proof fn lemma_tampered_block_invalid(s: Seq<Block>, i: int)
    requires
        0 <= i < s.len(),
        !s[i].hash_consistent(),
    ensures
        !spec_chain_valid(s),
{
}

/// A chain with any block that does not name its predecessor's hash is
/// invalid, even where every block's own hash recomputes correctly.
pub proof fn lemma_broken_link_invalid(s: Seq<Block>, i: int)
    requires
        1 <= i < s.len(),
        s[i].previous_hash@ != s[i - 1].hash@,
    ensures
        !spec_chain_valid(s),
{
}

} // verus!
