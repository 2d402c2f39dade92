//! A minimal single-process distributed ledger: an append-only chain of
//! blocks, each linked to its predecessor by a canonical digest, extended
//! through a proof-of-work puzzle, and reconciled across peers by a
//! longest-valid-chain rule.

pub mod laws;
pub mod ledger;
pub mod model;
pub mod pow;
pub mod net;
pub mod sha;
pub mod time;
pub mod text;

use vstd::prelude::*;

verus! {

} // verus!
