//! A single tamper-evident block.
//!
//! A block carries an opaque string payload, its position in the chain, the
//! hash of its predecessor, and its own hash: the digest of the block's
//! other fields (see `crate::hashing`). Mining searches for a
//! `proof_of_work` value whose digest begins with the required number of
//! `'0'` characters.

use vstd::prelude::*;
use vstd::string::StrSliceExecFns;
use crate::hashing::{compute_digest, digest_of, preimage_of, canonical_preimage};
use chrono::Utc;

verus! {

/// One block in the chain.
#[derive(Debug, Clone, PartialEq)]
pub struct Block {
    /// The position of this block in the chain, starting at 0.
    pub index: u64,
    /// Milliseconds since the epoch, captured when the block was created.
    pub timestamp: u64,
    /// The nonce found by mining.
    pub proof_of_work: u64,
    /// The hash of the immediately preceding block; empty for the genesis
    /// block.
    pub previous_hash: String,
    /// The digest of this block's own fields, with `hash` itself held at
    /// the empty string during computation.
    pub hash: String,
    /// The opaque application payload.
    pub data: String,
}

/// Holds when the first `d` characters of `s` exist and are all `'0'`.
pub open spec fn has_leading_zeros(s: Seq<char>, d: nat) -> bool {
    d <= s.len() && forall|i: int| 0 <= i < d ==> s[i] == '0'
}

impl Block {
    /// The digest of this block's fields, with the `hash` field excluded
    /// from its own preimage.
    pub open spec fn digest(self) -> Seq<char> {
        digest_of(self.index, self.timestamp, self.proof_of_work, self.previous_hash@, self.data@)
    }

    /// The digest of this block's fields with the nonce replaced by `n`.
    pub open spec fn digest_with_nonce(self, n: u64) -> Seq<char> {
        digest_of(self.index, self.timestamp, n, self.previous_hash@, self.data@)
    }

    /// Holds when the stored `hash` is the digest of the block's own
    /// fields.
    pub open spec fn hash_consistent(self) -> bool {
        self.hash@ == self.digest()
    }

    /// Holds when the stored `hash` meets the difficulty predicate.
    pub open spec fn mined(self, difficulty: nat) -> bool {
        has_leading_zeros(self.hash@, difficulty)
    }

    /// The canonical serialization of this block that is fed to SHA-256:
    /// its fields in declaration order as a JSON object, with `hash` held
    /// at the empty string.
    pub fn preimage(&self) -> (s: String)
        ensures
            s@ == preimage_of(
                self.index,
                self.timestamp,
                self.proof_of_work,
                self.previous_hash@,
                self.data@,
            ),
    {
        canonical_preimage(
            self.index,
            self.timestamp,
            self.proof_of_work,
            self.previous_hash.as_str(),
            self.data.as_str(),
        )
    }

    /// Recomputes the digest of this block's fields. The stored `hash` is
    /// not read: the result depends on the other fields alone.
    pub fn calculate_hash(&self) -> (r: String)
        ensures
            r@ == self.digest(),
            r@.len() == 64,
    {
        compute_digest(
            self.index,
            self.timestamp,
            self.proof_of_work,
            self.previous_hash.as_str(),
            self.data.as_str(),
        )
    }

    /// Creates a new, still unmined block: the timestamp is taken from the
    /// clock, the nonce starts at zero, and the stored hash is the digest
    /// of the fresh fields. The hash is not yet held to any difficulty.
    pub fn new(index: u64, previous_hash: String, data: String) -> (b: Block)
        ensures
            b.index == index,
            b.previous_hash == previous_hash,
            b.data == data,
            b.proof_of_work == 0,
            b.hash_consistent(),
    {
        let mut block = Block {
            index,
            timestamp: current_time_millis(),
            proof_of_work: 0,
            previous_hash,
            hash: String::new(),
            data,
        };
        block.hash = block.calculate_hash();
        block
    }

    /// Searches for a nonce whose digest begins with `difficulty` `'0'`
    /// characters, trying each value in turn from the current nonce up.
    /// The search is bounded only by the nonce's range: it stops short of
    /// the difficulty predicate only in the (practically unreachable) case
    /// that every remaining nonce value fails it.
    pub fn mine(&mut self, difficulty: usize)
        requires
            old(self).hash_consistent(),
        ensures
            final(self).index == old(self).index,
            final(self).timestamp == old(self).timestamp,
            final(self).previous_hash == old(self).previous_hash,
            final(self).data == old(self).data,
            final(self).proof_of_work >= old(self).proof_of_work,
            final(self).hash_consistent(),
            final(self).mined(difficulty as nat) || (final(self).proof_of_work == u64::MAX
                && forall|n: u64|
                old(self).proof_of_work <= n ==> !has_leading_zeros(
                    #[trigger] final(self).digest_with_nonce(n),
                    difficulty as nat,
                )),
            old(self).mined(difficulty as nat) ==> *final(self) == *old(self),
    {
        loop
            invariant
                self.index == old(self).index,
                self.timestamp == old(self).timestamp,
                self.previous_hash == old(self).previous_hash,
                self.data == old(self).data,
                self.proof_of_work >= old(self).proof_of_work,
                self.hash_consistent(),
                forall|n: u64|
                    old(self).proof_of_work <= n < self.proof_of_work ==> !has_leading_zeros(
                        #[trigger] old(self).digest_with_nonce(n),
                        difficulty as nat,
                    ),
                *self == *old(self) || !old(self).mined(difficulty as nat),
            ensures
                self.index == old(self).index,
                self.timestamp == old(self).timestamp,
                self.previous_hash == old(self).previous_hash,
                self.data == old(self).data,
                self.proof_of_work >= old(self).proof_of_work,
                self.hash_consistent(),
                self.mined(difficulty as nat) || (self.proof_of_work == u64::MAX && forall|n: u64|
                    old(self).proof_of_work <= n ==> !has_leading_zeros(
                        #[trigger] old(self).digest_with_nonce(n),
                        difficulty as nat,
                    )),
                old(self).mined(difficulty as nat) ==> *self == *old(self),
            decreases u64::MAX - self.proof_of_work,
        {
            if hash_meets_difficulty(self.hash.as_str(), difficulty) {
                break;
            }
            proof {
                assert(old(self).digest_with_nonce(self.proof_of_work) == self.digest());
            }
            if self.proof_of_work == u64::MAX {
                break;
            }
            self.proof_of_work = self.proof_of_work + 1;
            self.hash = self.calculate_hash();
        }
        proof {
            if !self.mined(difficulty as nat) {
                assert forall|n: u64| old(self).proof_of_work <= n implies !has_leading_zeros(
                    #[trigger] self.digest_with_nonce(n),
                    difficulty as nat,
                ) by {
                    assert(self.digest_with_nonce(n) == old(self).digest_with_nonce(n));
                    assert(!has_leading_zeros(old(self).digest_with_nonce(n), difficulty as nat));
                }
            }
        }
    }
}

/// Tests whether the first `difficulty` characters of `h` exist and are
/// all `'0'`.
pub fn hash_meets_difficulty(h: &str, difficulty: usize) -> (r: bool)
    ensures
        r == has_leading_zeros(h@, difficulty as nat),
{
    let len = h.unicode_len();
    if difficulty > len {
        return false;
    }
    let mut i: usize = 0;
    while i < difficulty
        invariant
            i <= difficulty <= h@.len(),
            forall|j: int| 0 <= j < i ==> h@[j] == '0',
        decreases difficulty - i,
    {
        if h.get_char(i) != '0' {
            return false;
        }
        i = i + 1;
    }
    true
}

/// Relies on chrono::Utc::now: the milliseconds-since-epoch reading of the
/// clock. The result depends on the moment of the call, so nothing is
/// promised of it.
#[verifier::external_body]
fn current_time_millis() -> u64 {
    Utc::now().timestamp_millis() as u64
}

} // verus!
