//! The proof-of-work search: the least nonce whose fingerprint begins with
//! the target, where the target gives way once the attempt budget is spent.

use vstd::prelude::*;
use vstd::string::*;

use super::block::{Block, BlockView};
use super::digest::FINGERPRINT_LENGTH;
use super::text::{starts_with, zeros, zeros_string};

verus! {

/// The number of unsuccessful attempts after which the target starts to
/// shrink.
pub const ATTEMPT_BUDGET: u64 = 1_000_000;

/// A search in progress: the block being sealed and the prefix its
/// fingerprint has to begin with.
pub struct ProofOfWork {
    pub block: Block,
    pub target: String,
}

/// The target that the attempt with nonce `attempt` is held to. The first
/// `ATTEMPT_BUDGET` attempts are held to `initial`. From then on the target
/// is a run of `'0'` that is one character shorter with every attempt, but
/// never shorter than one character.
pub open spec fn target_at(initial: Seq<char>, attempt: nat) -> Seq<char> {
    if attempt < ATTEMPT_BUDGET {
        initial
    } else {
        let dropped: int = attempt - ATTEMPT_BUDGET + 1;
        if initial.len() - dropped >= 1 {
            zeros((initial.len() - dropped) as nat)
        } else {
            zeros(1)
        }
    }
}

/// How a search ended.
#[derive(Clone, Copy, Debug, PartialEq, Eq, Structural)]
pub enum Strength {
    /// A nonce was found for the target that the search began with.
    Requested,
    /// A nonce was found for a target that had given way.
    Reduced,
    /// Every nonce was tried and none was found.
    Unsolved,
}

/// What a search found: the last nonce tried, the fingerprint it gives, and
/// how much that proves.
pub struct Solution {
    pub hash: String,
    pub nonce: u64,
    pub strength: Strength,
}

/// Whether the attempt with nonce `attempt` succeeds: the fingerprint of
/// `block` under that nonce begins with the target of that attempt.
pub open spec fn attempt_succeeds(block: BlockView, initial: Seq<char>, attempt: nat) -> bool {
    target_at(initial, attempt).is_prefix_of(block.with_nonce(attempt as u64).fingerprint())
}

/// Whether the search on `block` ends with nonce `nonce`: every smaller
/// nonce fails, and `nonce` succeeds or is the last nonce there is.
pub open spec fn search_stops_at(block: BlockView, initial: Seq<char>, nonce: nat) -> bool {
    &&& nonce <= u64::MAX
    &&& forall|m: nat| m < nonce ==> !#[trigger] attempt_succeeds(block, initial, m)
    &&& (attempt_succeeds(block, initial, nonce) || nonce == u64::MAX)
}

/// What a search that stops at `nonce` proves.
pub open spec fn strength_at(block: BlockView, initial: Seq<char>, nonce: nat) -> Strength {
    if !attempt_succeeds(block, initial, nonce) {
        Strength::Unsolved
    } else if target_at(initial, nonce) == initial {
        Strength::Requested
    } else {
        Strength::Reduced
    }
}

/// A search that stops within the attempt budget has found a nonce for the
/// target it began with: the fingerprint under that nonce begins with it.
pub proof fn lemma_solved_within_budget(block: BlockView, initial: Seq<char>, nonce: nat)
    requires
        search_stops_at(block, initial, nonce),
        nonce < ATTEMPT_BUDGET,
    ensures
        initial.is_prefix_of(block.sealed(nonce as u64).hash),
        strength_at(block, initial, nonce) == Strength::Requested,
{
}

/// A search that stops before the last nonce has found a nonce for the
/// target of that attempt, which is never empty once the budget is spent.
pub proof fn lemma_solved_before_the_end(block: BlockView, initial: Seq<char>, nonce: nat)
    requires
        search_stops_at(block, initial, nonce),
        nonce < u64::MAX,
    ensures
        target_at(initial, nonce).is_prefix_of(block.sealed(nonce as u64).hash),
        nonce >= ATTEMPT_BUDGET ==> target_at(initial, nonce).len() >= 1,
        strength_at(block, initial, nonce) != Strength::Unsolved,
{
}

impl ProofOfWork {
    /// A search on `block` whose target is `difficulty` characters `'0'`.
    pub fn new(block: Block, difficulty: usize) -> (search: Self)
        ensures
            search.block == block,
            search.target@ == zeros(difficulty as nat),
    {
        ProofOfWork { block, target: zeros_string(difficulty) }
    }

    /// Tries the nonces from 0 upwards and returns the first that succeeds,
    /// with the fingerprint it gives. The block is left carrying that nonce
    /// and the target is left as the last attempt saw it.
    pub fn run(&mut self) -> (found: (String, u64))
        ensures
            search_stops_at(old(self).block@, old(self).target@, found.1 as nat),
            found.0@ == old(self).block@.with_nonce(found.1).fingerprint(),
            found.0@.len() == FINGERPRINT_LENGTH,
            final(self).block@ == old(self).block@.with_nonce(found.1),
            final(self).block.transactions@ == old(self).block.transactions@,
            final(self).target@ == target_at(old(self).target@, found.1 as nat),
    {
        let solution = self.search();
        (solution.hash, solution.nonce)
    }

    /// The same search as [`ProofOfWork::run`], which also tells whether the
    /// nonce was found for the target that the search began with.
    pub fn search(&mut self) -> (solution: Solution)
        ensures
            search_stops_at(old(self).block@, old(self).target@, solution.nonce as nat),
            solution.hash@ == old(self).block@.with_nonce(solution.nonce).fingerprint(),
            solution.hash@.len() == FINGERPRINT_LENGTH,
            solution.strength == strength_at(
                old(self).block@,
                old(self).target@,
                solution.nonce as nat,
            ),
            final(self).block@ == old(self).block@.with_nonce(solution.nonce),
            final(self).block.transactions@ == old(self).block.transactions@,
            final(self).target@ == target_at(old(self).target@, solution.nonce as nat),
    {
        let ghost block = self.block@;
        let initial = self.target.clone();
        let mut nonce: u64 = 0;
        self.block.nonce = nonce;
        let mut hash = self.block.calculate_hash();
        let mut solved = starts_with(hash.as_str(), self.target.as_str());
        while !solved && nonce < u64::MAX
            invariant
                initial@ == old(self).target@,
                self.block@ == block.with_nonce(nonce),
                self.block.transactions@ == old(self).block.transactions@,
                self.target@ == target_at(initial@, nonce as nat),
                hash@ == block.with_nonce(nonce).fingerprint(),
                hash@.len() == FINGERPRINT_LENGTH,
                solved == attempt_succeeds(block, initial@, nonce as nat),
                forall|m: nat| m < nonce ==> !#[trigger] attempt_succeeds(block, initial@, m),
            decreases u64::MAX - nonce,
        {
            nonce += 1;
            if nonce >= ATTEMPT_BUDGET {
                let length: usize = self.target.as_str().unicode_len();
                let shorter: usize = if length <= 1 {
                    1
                } else {
                    length - 1
                };
                self.target = zeros_string(shorter);
            }
            self.block.nonce = nonce;
            hash = self.block.calculate_hash();
            solved = starts_with(hash.as_str(), self.target.as_str());
        }
        let strength = if !solved {
            Strength::Unsolved
        } else if self.target == initial {
            Strength::Requested
        } else {
            Strength::Reduced
        };
        Solution { hash, nonce, strength }
    }

    /// Whether the block's fingerprint begins with the target and is the
    /// hash that the block stores.
    pub fn validate(&self) -> (ok: bool)
        ensures
            ok == (self.target@.is_prefix_of(self.block@.fingerprint()) && self.block@.is_intact()),
    {
        let hash = self.block.calculate_hash();
        starts_with(hash.as_str(), self.target.as_str()) && hash == self.block.hash
    }
}

} // verus!
