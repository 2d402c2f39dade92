//! The proof-of-work engine: the difficulty predicate over a pair of
//! proofs, and the nonce search.

use vstd::prelude::*;
use vstd::string::StringExecFns;
use vstd::string::StrSliceExecFns;
use vstd::utf8::encode_utf8;
use crate::text::dec_of;
use crate::text::hex_of;
use crate::text::u64_to_string;
use crate::sha::sha256_of;
use crate::sha::sha256_hex;

verus! {

/// The text whose digest the difficulty predicate inspects: the decimal
/// rendering of the previous proof followed by that of the candidate.
pub open spec fn pow_text(last_proof: u64, proof: u64) -> Seq<char> {
    dec_of(last_proof as nat) + dec_of(proof as nat)
}

/// The hex digest the difficulty predicate inspects.
pub open spec fn pow_hash(last_proof: u64, proof: u64) -> Seq<char> {
    hex_of(sha256_of(encode_utf8(pow_text(last_proof, proof))))
}

/// The difficulty predicate: the first `difficulty` hex characters of the
/// digest of `pow_text` are all `0`.
pub open spec fn spec_valid_proof(last_proof: u64, proof: u64, difficulty: nat) -> bool {
    forall|i: int| 0 <= i < difficulty ==> pow_hash(last_proof, proof)[i] == '0'
}

/// Decide the difficulty predicate. The difficulty counts leading zero hex
/// characters of a 64-character digest, so it is capped at 64.
pub fn check_proof(last_proof: u64, proof: u64, difficulty: usize) -> (r: bool)
    requires
        difficulty <= 64,
    ensures
        r == spec_valid_proof(last_proof, proof, difficulty as nat),
{
    let mut s = u64_to_string(last_proof);
    let p = u64_to_string(proof);
    s.append(p.as_str());
    let h = sha256_hex(s.as_str().as_bytes());
    let hs = h.as_str();
    let mut i: usize = 0;
    while i < difficulty
        invariant
            difficulty <= 64,
            i <= difficulty,
            hs@ == pow_hash(last_proof, proof),
            hs@.len() == 64,
            forall|j: int| 0 <= j < i ==> hs@[j] == '0',
        decreases difficulty - i,
    {
        let c = hs.get_char(i);
        if c != '0' {
            proof {
                assert(pow_hash(last_proof, proof)[i as int] != '0');
            }
            return false;
        }
        i += 1;
    }
    true
}

/// Search for the least proof below `budget` that satisfies the difficulty
/// predicate; `None` says that no proof below `budget` does.
pub fn find_proof(last_proof: u64, difficulty: usize, budget: u64) -> (r: Option<u64>)
    requires
        difficulty <= 64,
    ensures
        r matches Some(p) ==> p < budget && spec_valid_proof(last_proof, p, difficulty as nat)
            && forall|q: u64| q < p ==> !spec_valid_proof(last_proof, q, difficulty as nat),
        r is None ==> forall|q: u64|
            q < budget ==> !spec_valid_proof(last_proof, q, difficulty as nat),
{
    let mut p: u64 = 0;
    while p < budget
        invariant
            difficulty <= 64,
            p <= budget,
            forall|q: u64| q < p ==> !spec_valid_proof(last_proof, q, difficulty as nat),
        decreases budget - p,
    {
        if check_proof(last_proof, p, difficulty) {
            return Some(p);
        }
        p += 1;
    }
    None
}

/// Search upward from zero for the least proof that satisfies the
/// difficulty predicate. The search has no bound of its own, so it asks
/// that a satisfying proof exist; a caller needing cancellation uses
/// `find_proof` with a budget instead.
pub fn search_proof(last_proof: u64, difficulty: usize) -> (r: u64)
    requires
        difficulty <= 64,
        exists|p: u64| spec_valid_proof(last_proof, p, difficulty as nat),
    ensures
        spec_valid_proof(last_proof, r, difficulty as nat),
        forall|q: u64| q < r ==> !spec_valid_proof(last_proof, q, difficulty as nat),
{
    let ghost w = choose|p: u64| spec_valid_proof(last_proof, p, difficulty as nat);
    let mut p: u64 = 0;
    loop
        invariant
            difficulty <= 64,
            p <= w,
            spec_valid_proof(last_proof, w, difficulty as nat),
            forall|q: u64| q < p ==> !spec_valid_proof(last_proof, q, difficulty as nat),
        decreases w - p,
    {
        if check_proof(last_proof, p, difficulty) {
            return p;
        }
        proof {
            assert(p != w);
        }
        p = p + 1;
    }
}

} // verus!
