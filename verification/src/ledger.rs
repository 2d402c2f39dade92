//! The ledger: the chain of blocks, the pending-transaction pool and the
//! peer set, with mining, validation and the longest-valid-chain consensus
//! rule over peer-supplied candidate chains.

use vstd::prelude::*;
use vstd::string::StringExecFns;
use crate::model::Block;
use crate::model::BlockView;
use crate::model::Transaction;
use crate::model::TxView;
use crate::model::block_hash;
use crate::model::block_hash_chars;
use crate::model::blocks_view;
use crate::model::clone_blocks;
use crate::model::txs_view;
use crate::net::host_port_parts_of;
use crate::net::parse_host_port;
use crate::pow::check_proof;
use crate::pow::find_proof;
use crate::pow::search_proof;
use crate::pow::spec_valid_proof;
use crate::text::dec_of;
use crate::text::u64_to_string;
use crate::time::timestamp;
use crate::time::timestamp_shape;

verus! {

/// The values of a sequence of strings.
pub open spec fn strs_view(ss: Seq<String>) -> Seq<Seq<char>> {
    ss.map_values(|s: String| s@)
}

/// A chain of blocks with its cached length: both the local chain and the
/// `{chain, length}` message a peer reports.
pub struct Chain {
    pub chain: Vec<Block>,
    pub length: u32,
}

/// The mathematical value of a `Chain`.
#[verifier::ext_equal]
pub ghost struct ChainView {
    pub chain: Seq<BlockView>,
    pub length: int,
}

impl View for Chain {
    type V = ChainView;

    open spec fn view(&self) -> ChainView {
        ChainView { chain: blocks_view(self.chain@), length: self.length as int }
    }
}

impl Clone for Chain {
    fn clone(&self) -> (r: Self)
        ensures
            r@ == self@,
    {
        let r = Chain { chain: clone_blocks(&self.chain), length: self.length };
        proof {
            assert(r@ =~= self@);
        }
        r
    }
}

/// The body of a node-registration request: peer addresses to register.
pub struct Nodes {
    pub nodes: Vec<String>,
}

/// What a ledger operation can report to its caller. Peer fetch and
/// decode failures never reach the ledger: the boundary skips such peers
/// and hands `resolve_conflicts` only the candidates it obtained.
#[derive(Clone, Copy, PartialEq, Eq, Structural, Debug)]
pub enum LedgerError {
    /// A peer address that is not a parseable URL with a host.
    InvalidAddress,
}

/// One adjacent pair of a valid chain: the later block records the
/// canonical hash of the earlier one, and its proof satisfies the
/// difficulty predicate chained from the earlier proof.
pub open spec fn valid_step(prev: BlockView, cur: BlockView, difficulty: nat) -> bool {
    &&& cur.previous_hash == block_hash_chars(prev)
    &&& spec_valid_proof(prev.proof, cur.proof, difficulty)
}

/// Chain validity: every adjacent pair is a valid step. A single-block
/// chain is trivially valid.
pub open spec fn spec_valid_chain(chain: Seq<BlockView>, difficulty: nat) -> bool {
    forall|i: int| 1 <= i < chain.len() ==> #[trigger] valid_step(chain[i - 1], chain[i], difficulty)
}

/// The reward transaction a mined block carries: a fixed sender of `0`,
/// the local node's identifier as recipient, and a fixed amount of `1`.
pub open spec fn reward_tx(node_identifier: Seq<char>) -> TxView {
    TxView { amount: "1"@, recipient: node_identifier, sender: "0"@ }
}

/// The normalized `host[:port]` form under which a peer is registered.
pub open spec fn normalized_addr(host: Seq<char>, port: Option<u16>) -> Seq<char> {
    match port {
        Some(p) => host + ":"@ + dec_of(p as nat),
        None => host,
    }
}

/// The normalized form of a parseable peer address.
pub open spec fn normalized_of(addr: Seq<char>) -> Seq<char> {
    match host_port_parts_of(addr) {
        Some(hp) => normalized_addr(hp.0, hp.1),
        None => Seq::empty(),
    }
}

/// The node set after registering one address: unchanged when the address
/// is unparseable or already present, otherwise with its normalized form
/// appended.
pub open spec fn add_node(nodes: Seq<Seq<char>>, addr: Seq<char>) -> Seq<Seq<char>> {
    match host_port_parts_of(addr) {
        Some(hp) => {
            let a = normalized_addr(hp.0, hp.1);
            if nodes.contains(a) {
                nodes
            } else {
                nodes.push(a)
            }
        },
        None => nodes,
    }
}

/// The node set after registering each address in order.
pub open spec fn nodes_after(nodes: Seq<Seq<char>>, addrs: Seq<Seq<char>>) -> Seq<Seq<char>>
    decreases addrs.len(),
{
    if addrs.len() == 0 {
        nodes
    } else {
        add_node(nodes_after(nodes, addrs.drop_last()), addrs.last())
    }
}

/// No address occurs twice.
pub open spec fn nodes_distinct(nodes: Seq<Seq<char>>) -> bool {
    forall|i: int, j: int| 0 <= i < j < nodes.len() ==> nodes[i] != nodes[j]
}

/// Whether a peer's candidate chain displaces the best one known so far:
/// its reported length strictly exceeds the best length, agrees with the
/// chain itself, and the chain passes validation.
pub open spec fn accepts(best_len: int, c: ChainView, difficulty: nat) -> bool {
    &&& c.length > best_len
    &&& c.length == c.chain.len()
    &&& spec_valid_chain(c.chain, difficulty)
}

/// The single pass of the consensus rule over candidate chains, left to
/// right: the index of the best candidate so far (if any) and the best
/// known length, starting from the local chain's length.
pub open spec fn best_fold(cands: Seq<ChainView>, local_len: int, difficulty: nat) -> (
    Option<int>,
    int,
)
    decreases cands.len(),
{
    if cands.len() == 0 {
        (None::<int>, local_len)
    } else {
        let prev = best_fold(cands.drop_last(), local_len, difficulty);
        if accepts(prev.1, cands.last(), difficulty) {
            (Some(cands.len() - 1), cands.last().length)
        } else {
            prev
        }
    }
}

/// The values of a sequence of candidate chains.
pub open spec fn chains_view(cs: Seq<Chain>) -> Seq<ChainView> {
    cs.map_values(|c: Chain| c@)
}

/// The aggregate root: the chain, the pending pool and the peer set.
/// Callers sharing one ledger serialize all mutations (a single exclusive
/// lock suffices); the methods themselves expect exclusive access.
pub struct Blockchain {
    chain: Chain,
    current_transactions: Vec<Transaction>,
    nodes: Vec<String>,
    difficulty: usize,
}

/// The mathematical value of a `Blockchain`.
#[verifier::ext_equal]
pub ghost struct LedgerView {
    pub chain: Seq<BlockView>,
    pub length: int,
    pub pool: Seq<TxView>,
    pub nodes: Seq<Seq<char>>,
    pub difficulty: nat,
}

impl View for Blockchain {
    type V = LedgerView;

    closed spec fn view(&self) -> LedgerView {
        LedgerView {
            chain: blocks_view(self.chain.chain@),
            length: self.chain.length as int,
            pool: txs_view(self.current_transactions@),
            nodes: strs_view(self.nodes@),
            difficulty: self.difficulty as nat,
        }
    }
}

impl Blockchain {
    /// A well-formed ledger: the cached length agrees with the chain, the
    /// chain holds at least the genesis block, the difficulty fits the
    /// 64-character digest, and no peer is registered twice.
    pub open spec fn wf(&self) -> bool {
        &&& self@.length == self@.chain.len()
        &&& self@.chain.len() >= 1
        &&& self@.difficulty <= 64
        &&& nodes_distinct(self@.nodes)
    }

    /// A fresh ledger at the standard difficulty of four leading zero hex
    /// characters.
    pub fn new() -> (r: Blockchain)
        ensures
            r.wf(),
            r@.chain.len() == 1,
            r@.chain[0].index == 1,
            r@.chain[0].previous_hash == "1"@,
            r@.chain[0].proof == 100,
            r@.chain[0].transactions == Seq::<TxView>::empty(),
            timestamp_shape(r@.chain[0].timestamp),
            r@.pool == Seq::<TxView>::empty(),
            r@.nodes == Seq::<Seq<char>>::empty(),
            r@.difficulty == 4,
    {
        Blockchain::with_difficulty(4)
    }

    /// A fresh ledger whose difficulty predicate demands the given number
    /// of leading zero hex characters. The chain starts at the genesis
    /// block: index 1, the sentinel previous hash `1` and the seed proof
    /// 100, sealed over an empty transaction batch.
    pub fn with_difficulty(difficulty: usize) -> (r: Blockchain)
        requires
            difficulty <= 64,
        ensures
            r.wf(),
            r@.chain.len() == 1,
            r@.chain[0].index == 1,
            r@.chain[0].previous_hash == "1"@,
            r@.chain[0].proof == 100,
            r@.chain[0].transactions == Seq::<TxView>::empty(),
            timestamp_shape(r@.chain[0].timestamp),
            r@.pool == Seq::<TxView>::empty(),
            r@.nodes == Seq::<Seq<char>>::empty(),
            r@.difficulty == difficulty,
    {
        let mut ledger = Blockchain {
            chain: Chain { chain: Vec::new(), length: 0 },
            current_transactions: Vec::new(),
            nodes: Vec::new(),
            difficulty,
        };
        let sentinel = "1".to_owned();
        let _genesis = ledger.new_block(100, Some(sentinel));
        proof {
            assert(ledger@.nodes =~= Seq::<Seq<char>>::empty());
            assert(ledger@.pool =~= Seq::<TxView>::empty());
        }
        ledger
    }

    /// The most recently sealed block.
    pub fn last_block(&self) -> (b: &Block)
        requires
            self@.chain.len() >= 1,
        ensures
            b@ == self@.chain.last(),
    {
        let i = self.chain.chain.len() - 1;
        &self.chain.chain[i]
    }

    /// Append a transfer to the pending pool; it will be sealed into the
    /// next mined block, whose index is returned. No field is validated.
    pub fn new_transaction(&mut self, sender: String, recipient: String, amount: String) -> (r:
        u32)
        requires
            old(self).wf(),
            old(self)@.length < u32::MAX,
        ensures
            final(self).wf(),
            final(self)@.pool == old(self)@.pool.push(
                TxView { amount: amount@, recipient: recipient@, sender: sender@ },
            ),
            final(self)@.chain == old(self)@.chain,
            final(self)@.length == old(self)@.length,
            final(self)@.nodes == old(self)@.nodes,
            final(self)@.difficulty == old(self)@.difficulty,
            r == old(self)@.length + 1,
    {
        let ghost t = TxView { amount: amount@, recipient: recipient@, sender: sender@ };
        self.current_transactions.push(Transaction { amount, recipient, sender });
        proof {
            assert(final(self)@.pool =~= old(self)@.pool.push(t));
        }
        self.chain.length + 1
    }

    /// Seal the pending pool into a new block: the pool is moved, not
    /// copied, and left empty. The previous hash is the given sentinel, or
    /// the canonical hash of the current last block when none is given.
    fn new_block(&mut self, proof: u64, previous_hash: Option<String>) -> (b: Block)
        requires
            old(self)@.length == old(self)@.chain.len(),
            old(self)@.chain.len() < u32::MAX,
            previous_hash is None ==> old(self)@.chain.len() >= 1,
        ensures
            final(self)@.chain == old(self)@.chain.push(b@),
            final(self)@.length == old(self)@.length + 1,
            final(self)@.pool == Seq::<TxView>::empty(),
            final(self)@.nodes == old(self)@.nodes,
            final(self)@.difficulty == old(self)@.difficulty,
            b@.index == old(self)@.chain.len() + 1,
            b@.proof == proof,
            b@.transactions == old(self)@.pool,
            timestamp_shape(b@.timestamp),
            (match previous_hash {
                Some(h) => b@.previous_hash == h@,
                None => b@.previous_hash == block_hash_chars(old(self)@.chain.last()),
            }),
    {
        let previous = match previous_hash {
            Some(h) => h,
            None => block_hash(self.last_block()),
        };
        let mut sealed: Vec<Transaction> = Vec::new();
        core::mem::swap(&mut sealed, &mut self.current_transactions);
        let block = Block {
            index: self.chain.length + 1,
            previous_hash: previous,
            proof,
            timestamp: timestamp(),
            transactions: sealed,
        };
        let b = block.clone();
        self.chain.chain.push(block);
        self.chain.length = self.chain.length + 1;
        proof {
            assert(final(self)@.chain =~= old(self)@.chain.push(b@));
            assert(final(self)@.pool =~= Seq::<TxView>::empty());
        }
        b
    }

    /// Decide the difficulty predicate for one pair of proofs.
    pub fn valid_proof(last_proof: u64, proof: u64, difficulty: usize) -> (r: bool)
        requires
            difficulty <= 64,
        ensures
            r == spec_valid_proof(last_proof, proof, difficulty as nat),
    {
        check_proof(last_proof, proof, difficulty)
    }

    /// Search for the least proof chaining from `last_proof` that meets
    /// this ledger's difficulty. The search has no bound: it asks that a
    /// satisfying proof exist; `mine_with_budget` bounds the search for a
    /// caller that cannot establish that.
    pub fn proof_of_work(&self, last_proof: u64) -> (r: u64)
        requires
            self@.difficulty <= 64,
            exists|p: u64| spec_valid_proof(last_proof, p, self@.difficulty),
        ensures
            spec_valid_proof(last_proof, r, self@.difficulty),
            forall|q: u64| q < r ==> !spec_valid_proof(last_proof, q, self@.difficulty),
    {
        search_proof(last_proof, self.difficulty)
    }

    /// Mine one block: find the proof of work chained from the last
    /// block's proof, append the reward transaction for this node, and
    /// seal the pool into a new block linked to the current last block.
    pub fn mine(&mut self, node_identifier: String) -> (b: Block)
        requires
            old(self).wf(),
            old(self)@.length < u32::MAX,
            exists|p: u64|
                spec_valid_proof(old(self)@.chain.last().proof, p, old(self)@.difficulty),
        ensures
            final(self).wf(),
            final(self)@.chain == old(self)@.chain.push(b@),
            final(self)@.length == old(self)@.length + 1,
            final(self)@.pool == Seq::<TxView>::empty(),
            final(self)@.nodes == old(self)@.nodes,
            final(self)@.difficulty == old(self)@.difficulty,
            b@.index == old(self)@.chain.len() + 1,
            b@.transactions == old(self)@.pool.push(reward_tx(node_identifier@)),
            b@.previous_hash == block_hash_chars(old(self)@.chain.last()),
            spec_valid_proof(old(self)@.chain.last().proof, b@.proof, old(self)@.difficulty),
            forall|q: u64|
                q < b@.proof ==> !spec_valid_proof(
                    old(self)@.chain.last().proof,
                    q,
                    old(self)@.difficulty,
                ),
            timestamp_shape(b@.timestamp),
            valid_step(old(self)@.chain.last(), b@, old(self)@.difficulty),
    {
        let ghost nid = node_identifier@;
        let last_proof = self.last_block().proof;
        let proof = self.proof_of_work(last_proof);
        let reward_sender = "0".to_owned();
        let reward_amount = "1".to_owned();
        let _next = self.new_transaction(reward_sender, node_identifier, reward_amount);
        proof {
            assert(self@.pool =~= old(self)@.pool.push(reward_tx(nid)));
        }
        self.new_block(proof, None)
    }

    /// Mine one block if a satisfying proof below `budget` exists; `None`
    /// reports that none does, with the ledger untouched.
    pub fn mine_with_budget(&mut self, node_identifier: String, budget: u64) -> (r: Option<Block>)
        requires
            old(self).wf(),
            old(self)@.length < u32::MAX,
        ensures
            final(self).wf(),
            r is None ==> final(self)@ == old(self)@ && forall|q: u64|
                q < budget ==> !spec_valid_proof(
                    old(self)@.chain.last().proof,
                    q,
                    old(self)@.difficulty,
                ),
            (match r {
                Some(b) => {
                    &&& b@.proof < budget
                    &&& final(self)@.chain == old(self)@.chain.push(b@)
                    &&& final(self)@.length == old(self)@.length + 1
                    &&& final(self)@.pool == Seq::<TxView>::empty()
                    &&& final(self)@.nodes == old(self)@.nodes
                    &&& final(self)@.difficulty == old(self)@.difficulty
                    &&& b@.index == old(self)@.chain.len() + 1
                    &&& b@.transactions == old(self)@.pool.push(reward_tx(node_identifier@))
                    &&& b@.previous_hash == block_hash_chars(old(self)@.chain.last())
                    &&& valid_step(old(self)@.chain.last(), b@, old(self)@.difficulty)
                },
                None => true,
            }),
    {
        let last_proof = self.last_block().proof;
        match find_proof(last_proof, self.difficulty, budget) {
            Some(p) => {
                proof {
                    assert(spec_valid_proof(
                        old(self)@.chain.last().proof,
                        p,
                        old(self)@.difficulty,
                    ));
                }
                let b = self.mine(node_identifier);
                proof {
                    assert(b@.proof <= p);
                }
                Some(b)
            },
            None => None,
        }
    }

    /// Validate a candidate chain: every later block must record the
    /// canonical hash of its predecessor and a proof satisfying the
    /// difficulty predicate chained from the predecessor's proof.
    pub fn valid_chain(&self, chain: &Vec<Block>) -> (r: bool)
        requires
            chain@.len() >= 1,
            self@.difficulty <= 64,
        ensures
            r == spec_valid_chain(blocks_view(chain@), self@.difficulty),
    {
        let ghost bv = blocks_view(chain@);
        let mut i: usize = 1;
        while i < chain.len()
            invariant
                1 <= i <= chain@.len(),
                bv == blocks_view(chain@),
                bv.len() == chain@.len(),
                self@.difficulty <= 64,
                forall|j: int| 1 <= j < i ==> #[trigger] valid_step(bv[j - 1], bv[j], self@.difficulty),
            decreases chain@.len() - i,
        {
            let prev = &chain[i - 1];
            let expected = block_hash(prev);
            if chain[i].previous_hash != expected {
                proof {
                    assert(!valid_step(bv[i - 1], bv[i as int], self@.difficulty));
                }
                return false;
            }
            if !check_proof(prev.proof, chain[i].proof, self.difficulty) {
                proof {
                    assert(!valid_step(bv[i - 1], bv[i as int], self@.difficulty));
                }
                return false;
            }
            proof {
                assert(valid_step(bv[i - 1], bv[i as int], self@.difficulty));
            }
            i += 1;
        }
        true
    }

    /// Register a peer address: parse it as a URL, extract `host[:port]`,
    /// and insert that form into the node set unless already present. An
    /// unparseable address is reported and leaves the ledger untouched.
    pub fn register_node(&mut self, node: String) -> (r: Result<(), LedgerError>)
        requires
            old(self).wf(),
        ensures
            final(self).wf(),
            final(self)@.chain == old(self)@.chain,
            final(self)@.length == old(self)@.length,
            final(self)@.pool == old(self)@.pool,
            final(self)@.difficulty == old(self)@.difficulty,
            r is Ok <==> host_port_parts_of(node@) is Some,
            r is Err ==> r == Err::<(), LedgerError>(LedgerError::InvalidAddress) && final(self)@.nodes == old(self)@.nodes,
            final(self)@.nodes == add_node(old(self)@.nodes, node@),
            r is Ok ==> final(self)@.nodes.contains(normalized_of(node@)),
    {
        match parse_host_port(node.as_str()) {
            None => Err(LedgerError::InvalidAddress),
            Some((host, port)) => {
                let mut addr = host;
                if let Some(p) = port {
                    addr.append(":");
                    let port_text = u64_to_string(p as u64);
                    addr.append(port_text.as_str());
                }
                proof {
                    assert(addr@ =~= normalized_of(node@));
                }
                let mut found = false;
                let mut i: usize = 0;
                while i < self.nodes.len()
                    invariant
                        i <= self.nodes@.len(),
                        *self == *old(self),
                        found <==> exists|j: int|
                            0 <= j < i && #[trigger] self@.nodes[j] == addr@,
                    decreases self.nodes@.len() - i,
                {
                    let hit = self.nodes[i] == addr;
                    proof {
                        assert(self@.nodes[i as int] == self.nodes@[i as int]@);
                        if hit {
                            assert(self@.nodes[i as int] == addr@);
                        }
                    }
                    if hit {
                        found = true;
                    }
                    i += 1;
                }
                proof {
                    if found {
                        let j = choose|j: int|
                            0 <= j < self@.nodes.len() && #[trigger] self@.nodes[j] == addr@;
                        assert(old(self)@.nodes.contains(addr@));
                    } else {
                        assert forall|j: int|
                            0 <= j < self@.nodes.len() implies #[trigger] self@.nodes[j]
                            != addr@ by {}
                        assert(!old(self)@.nodes.contains(addr@));
                    }
                }
                if !found {
                    let ghost prior = self@.nodes;
                    self.nodes.push(addr);
                    proof {
                        let grown = prior.push(addr@);
                        assert(final(self)@.nodes =~= grown);
                        assert(grown[grown.len() - 1] == addr@);
                        assert(grown.contains(addr@));
                        assert forall|x: int, y: int|
                            0 <= x < y < grown.len() implies grown[x] != grown[y] by {
                            if y == grown.len() - 1 {
                                if grown[x] == addr@ {
                                    assert(prior[x] == addr@);
                                    assert(prior.contains(addr@));
                                }
                            } else {
                                assert(prior[x] != prior[y]);
                            }
                        }
                    }
                } else {
                    proof {
                        assert(old(self)@.nodes.contains(addr@));
                    }
                }
                Ok(())
            },
        }
    }

    /// Register each address of a request in order, stopping at the first
    /// unparseable one.
    pub fn register_nodes(&mut self, nodes: Nodes) -> (r: Result<(), LedgerError>)
        requires
            old(self).wf(),
        ensures
            final(self).wf(),
            final(self)@.chain == old(self)@.chain,
            final(self)@.length == old(self)@.length,
            final(self)@.pool == old(self)@.pool,
            final(self)@.difficulty == old(self)@.difficulty,
            r is Ok <==> (forall|k: int|
                0 <= k < strs_view(nodes.nodes@).len() ==> host_port_parts_of(
                    strs_view(nodes.nodes@)[k],
                ) is Some),
            r is Ok ==> final(self)@.nodes == nodes_after(
                old(self)@.nodes,
                strs_view(nodes.nodes@),
            ),
            r is Err ==> r == Err::<(), LedgerError>(LedgerError::InvalidAddress) && exists|k: int|
                0 <= k < strs_view(nodes.nodes@).len() && host_port_parts_of(
                    #[trigger] strs_view(nodes.nodes@)[k],
                ) is None && (forall|j: int|
                    0 <= j < k ==> host_port_parts_of(strs_view(nodes.nodes@)[j]) is Some) && final(self)@.nodes == nodes_after(old(self)@.nodes, strs_view(nodes.nodes@).take(k)),
    {
        let ghost addrs = strs_view(nodes.nodes@);
        let mut i: usize = 0;
        proof {
            assert(addrs.take(0) =~= Seq::<Seq<char>>::empty());
        }
        while i < nodes.nodes.len()
            invariant
                i <= addrs.len(),
                addrs == strs_view(nodes.nodes@),
                addrs.len() == nodes.nodes@.len(),
                self.wf(),
                self@.chain == old(self)@.chain,
                self@.length == old(self)@.length,
                self@.pool == old(self)@.pool,
                self@.difficulty == old(self)@.difficulty,
                self@.nodes == nodes_after(old(self)@.nodes, addrs.take(i as int)),
                forall|j: int| 0 <= j < i ==> host_port_parts_of(#[trigger] addrs[j]) is Some,
            decreases addrs.len() - i,
        {
            let address = nodes.nodes[i].clone();
            let outcome = self.register_node(address);
            proof {
                let t = addrs.take(i + 1);
                assert(t.drop_last() =~= addrs.take(i as int));
                assert(t.last() == addrs[i as int]);
            }
            if outcome.is_err() {
                return Err(LedgerError::InvalidAddress);
            }
            i += 1;
        }
        proof {
            assert(addrs.take(addrs.len() as int) =~= addrs);
        }
        Ok(())
    }

    /// The consensus rule: one pass over candidate chains fetched from
    /// peers, keeping the longest one that exceeds the best known length,
    /// reports a length that agrees with the chain itself, and passes
    /// validation. If any such candidate was found the local chain is
    /// replaced by the best one and `true` is returned; otherwise the
    /// local ledger is untouched.
    pub fn resolve_conflicts(&mut self, candidates: &Vec<Chain>) -> (replaced: bool)
        requires
            old(self).wf(),
        ensures
            final(self).wf(),
            final(self)@.pool == old(self)@.pool,
            final(self)@.nodes == old(self)@.nodes,
            final(self)@.difficulty == old(self)@.difficulty,
            replaced == (best_fold(
                chains_view(candidates@),
                old(self)@.length,
                old(self)@.difficulty,
            ).0 is Some),
            !replaced ==> final(self)@ == old(self)@,
            replaced ==> (best_fold(
                chains_view(candidates@),
                old(self)@.length,
                old(self)@.difficulty,
            ).0 matches Some(j) && final(self)@.chain == chains_view(candidates@)[j].chain
                && final(self)@.length == chains_view(candidates@)[j].length && final(self)@.length > old(self)@.length && spec_valid_chain(
                final(self)@.chain,
                final(self)@.difficulty,
            )),
    {
        let ghost cv = chains_view(candidates@);
        let ghost d = self@.difficulty;
        let local_len = self.chain.length;
        let mut best_idx: Option<usize> = None;
        let mut best_len: u32 = local_len;
        let mut i: usize = 0;
        proof {
            assert(cv.take(0) =~= Seq::<ChainView>::empty());
        }
        while i < candidates.len()
            invariant
                i <= candidates@.len(),
                cv == chains_view(candidates@),
                cv.len() == candidates@.len(),
                d == self@.difficulty,
                *self == *old(self),
                self.wf(),
                local_len as int == self@.length,
                (match best_idx {
                    None => best_len == local_len && best_fold(cv.take(i as int), local_len as int, d)
                        == (None::<int>, local_len as int),
                    Some(j) => j < i && cv[j as int].length == best_len as int && best_fold(
                        cv.take(i as int),
                        local_len as int,
                        d,
                    ) == (Some(j as int), best_len as int) && accepts(
                        local_len as int,
                        cv[j as int],
                        d,
                    ),
                }),
            decreases candidates@.len() - i,
        {
            let c = &candidates[i];
            let mut take_it = false;
            if c.length > best_len && c.chain.len() == c.length as usize {
                if self.valid_chain(&c.chain) {
                    take_it = true;
                }
            }
            proof {
                let t = cv.take(i + 1);
                assert(t.drop_last() =~= cv.take(i as int));
                assert(t.last() == cv[i as int]);
                assert(cv[i as int] == candidates@[i as int]@);
                assert(take_it == accepts(best_len as int, cv[i as int], d));
            }
            if take_it {
                best_idx = Some(i);
                best_len = c.length;
            }
            i += 1;
        }
        proof {
            assert(cv.take(cv.len() as int) =~= cv);
        }
        match best_idx {
            Some(j) => {
                let adopted = candidates[j].clone();
                self.chain = adopted;
                true
            },
            None => false,
        }
    }

    /// A read-only copy of the chain and its length, for reporting and
    /// for serving peers.
    pub fn snapshot(&self) -> (r: Chain)
        ensures
            r@.chain == self@.chain,
            r@.length == self@.length,
    {
        self.chain.clone()
    }

    /// The transactions accepted since the last sealed block.
    pub fn current_transactions(&self) -> (r: &Vec<Transaction>)
        ensures
            txs_view(r@) == self@.pool,
    {
        &self.current_transactions
    }

    /// The registered peer addresses, in registration order.
    pub fn nodes(&self) -> (r: &Vec<String>)
        ensures
            strs_view(r@) == self@.nodes,
    {
        &self.nodes
    }

    /// The number of leading zero hex characters the difficulty predicate
    /// demands.
    pub fn difficulty(&self) -> (r: usize)
        ensures
            r == self@.difficulty,
    {
        self.difficulty
    }
}

} // verus!
