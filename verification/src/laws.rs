//! The laws of the ledger: properties that hold of every chain and every
//! consensus pass, stated over the same spec functions the operations'
//! contracts use.

use vstd::prelude::*;
use vstd::utf8::encode_utf8;
use crate::ledger::ChainView;
use crate::ledger::accepts;
use crate::ledger::best_fold;
use crate::ledger::spec_valid_chain;
use crate::ledger::valid_step;
use crate::model::BlockView;
use crate::model::block_hash_chars;
use crate::pow::pow_hash;
use crate::pow::pow_text;
use crate::pow::spec_valid_proof;
use crate::sha::sha256_of;
use crate::text::hex_of;

verus! {

/// Block indices run 1, 2, 3, … with no gaps or repeats.
pub open spec fn indices_sequential(chain: Seq<BlockView>) -> bool {
    forall|i: int| 0 <= i < chain.len() ==> #[trigger] chain[i].index == i + 1
}

/// Monotonic indexing is kept by mining: a ledger whose block indices run
/// 1..N, extended by a block whose index is N + 1 — exactly what `mine`
/// guarantees of the block it seals — again has indices 1..N+1.
pub proof fn lemma_sequential_indices_extend(chain: Seq<BlockView>, b: BlockView)
    requires
        indices_sequential(chain),
        b.index == chain.len() + 1,
    ensures
        indices_sequential(chain.push(b)),
{
    let grown = chain.push(b);
    assert forall|i: int| 0 <= i < grown.len() implies #[trigger] grown[i].index == i + 1 by {
        if i < chain.len() {
            assert(grown[i] == chain[i]);
        }
    }
}

/// The hash-link invariant: in any chain the validator accepts, every
/// block beyond the first records the canonical hash of its predecessor.
pub proof fn lemma_valid_chain_hash_link(chain: Seq<BlockView>, difficulty: nat, i: int)
    requires
        spec_valid_chain(chain, difficulty),
        1 <= i < chain.len(),
    ensures
        chain[i].previous_hash == block_hash_chars(chain[i - 1]),
{
    assert(valid_step(chain[i - 1], chain[i], difficulty));
}

/// The proof-of-work invariant: in any chain the validator accepts, the
/// hex digest of the concatenated decimal texts of each adjacent pair of
/// proofs opens with `difficulty` zero characters.
pub proof fn lemma_valid_chain_proof_of_work(chain: Seq<BlockView>, difficulty: nat, i: int)
    requires
        spec_valid_chain(chain, difficulty),
        1 <= i < chain.len(),
    ensures
        spec_valid_proof(chain[i - 1].proof, chain[i].proof, difficulty),
        forall|k: int|
            0 <= k < difficulty ==> #[trigger] hex_of(
                sha256_of(encode_utf8(pow_text(chain[i - 1].proof, chain[i].proof))),
            )[k] == '0',
{
    assert(valid_step(chain[i - 1], chain[i], difficulty));
    assert forall|k: int|
        0 <= k < difficulty implies #[trigger] hex_of(
        sha256_of(encode_utf8(pow_text(chain[i - 1].proof, chain[i].proof))),
    )[k] == '0' by {
        assert(pow_hash(chain[i - 1].proof, chain[i].proof)[k] == '0');
    }
}

/// Idempotent no-op consensus: when no candidate reports a length beyond
/// the local chain's, the consensus pass selects nothing and the best
/// known length stays the local one. Together with `resolve_conflicts`'s
/// contract this leaves the local chain untouched.
pub proof fn lemma_consensus_noop(cands: Seq<ChainView>, local_len: int, difficulty: nat)
    requires
        forall|i: int| 0 <= i < cands.len() ==> #[trigger] cands[i].length <= local_len,
    ensures
        best_fold(cands, local_len, difficulty).0 is None,
        best_fold(cands, local_len, difficulty).1 == local_len,
    decreases cands.len(),
{
    if cands.len() > 0 {
        assert(forall|i: int|
            0 <= i < cands.drop_last().len() ==> #[trigger] cands.drop_last()[i].length
                <= local_len);
        lemma_consensus_noop(cands.drop_last(), local_len, difficulty);
    }
}

/// Only a valid chain is ever adopted: whatever candidate the consensus
/// pass selects passes validation, agrees with its reported length, and
/// strictly exceeds the local chain's length; when it selects none, the
/// best known length is still the local one.
pub proof fn lemma_consensus_selects_valid(cands: Seq<ChainView>, local_len: int, difficulty: nat)
    ensures
        best_fold(cands, local_len, difficulty).1 >= local_len,
        (match best_fold(cands, local_len, difficulty).0 {
            Some(j) => 0 <= j < cands.len() && spec_valid_chain(cands[j].chain, difficulty)
                && cands[j].length == cands[j].chain.len() && cands[j].length > local_len
                && cands[j].length == best_fold(cands, local_len, difficulty).1,
            None => best_fold(cands, local_len, difficulty).1 == local_len,
        }),
    decreases cands.len(),
{
    if cands.len() > 0 {
        lemma_consensus_selects_valid(cands.drop_last(), local_len, difficulty);
    }
}

/// A valid candidate longer than the local chain is never passed over:
/// if any candidate beats the local length outright, the consensus pass
/// selects one.
pub proof fn lemma_consensus_adopts_when_acceptable(
    cands: Seq<ChainView>,
    local_len: int,
    difficulty: nat,
    i: int,
)
    requires
        0 <= i < cands.len(),
        accepts(local_len, cands[i], difficulty),
    ensures
        best_fold(cands, local_len, difficulty).0 is Some,
    decreases cands.len(),
{
    lemma_consensus_selects_valid(cands, local_len, difficulty);
    if cands.len() > 0 {
        let shorter = cands.drop_last();
        if i < cands.len() - 1 {
            assert(shorter[i] == cands[i]);
            lemma_consensus_adopts_when_acceptable(shorter, local_len, difficulty, i);
        } else {
            lemma_consensus_selects_valid(shorter, local_len, difficulty);
        }
    }
}

/// Longest valid wins: the length the consensus pass ends with is at
/// least that of every candidate that beats the local length outright —
/// in particular, a longer but invalid chain never displaces a shorter
/// valid one, since only a valid candidate is selected and its length
/// dominates every acceptable candidate's.
pub proof fn lemma_consensus_adopts_longest(
    cands: Seq<ChainView>,
    local_len: int,
    difficulty: nat,
)
    ensures
        forall|i: int|
            0 <= i < cands.len() && accepts(local_len, #[trigger] cands[i], difficulty)
                ==> best_fold(cands, local_len, difficulty).1 >= cands[i].length,
    decreases cands.len(),
{
    lemma_consensus_selects_valid(cands, local_len, difficulty);
    if cands.len() > 0 {
        let shorter = cands.drop_last();
        lemma_consensus_adopts_longest(shorter, local_len, difficulty);
        lemma_consensus_selects_valid(shorter, local_len, difficulty);
        assert forall|i: int|
            0 <= i < cands.len() && accepts(local_len, #[trigger] cands[i], difficulty)
                implies best_fold(cands, local_len, difficulty).1 >= cands[i].length by {
            if i < cands.len() - 1 {
                assert(shorter[i] == cands[i]);
            }
        }
    }
}

/// Mining keeps the chain acceptable to the validator: a chain the
/// validator accepts, extended by a block forming a valid step from its
/// last block — exactly what `mine` guarantees of the block it seals —
/// is again accepted.
pub proof fn lemma_valid_chain_extend(chain: Seq<BlockView>, b: BlockView, difficulty: nat)
    requires
        chain.len() >= 1,
        spec_valid_chain(chain, difficulty),
        valid_step(chain.last(), b, difficulty),
    ensures
        spec_valid_chain(chain.push(b), difficulty),
{
    let grown = chain.push(b);
    assert forall|i: int|
        1 <= i < grown.len() implies #[trigger] valid_step(grown[i - 1], grown[i], difficulty) by {
        if i < chain.len() {
            assert(grown[i - 1] == chain[i - 1]);
            assert(grown[i] == chain[i]);
            assert(valid_step(chain[i - 1], chain[i], difficulty));
        } else {
            assert(grown[i - 1] == chain.last());
            assert(grown[i] == b);
        }
    }
}

} // verus!
