use blockchain::ledger::Blockchain;
use blockchain::ledger::Chain;
use blockchain::ledger::LedgerError;
use blockchain::ledger::Nodes;
use blockchain::model::Block;
use blockchain::model::Transaction;
use blockchain::model::block_hash;
use blockchain::sha::sha256_hex;
use blockchain::text::to_hex;
use blockchain::text::u64_to_string;
use blockchain::time::timestamp;

#[test]
fn genesis_invariant() {
    let ledger = Blockchain::new();
    let snapshot = ledger.snapshot();
    assert_eq!(snapshot.length, 1);
    assert_eq!(snapshot.chain.len(), 1);
    let genesis = &snapshot.chain[0];
    assert_eq!(genesis.index, 1);
    assert_eq!(genesis.previous_hash, "1");
    assert_eq!(genesis.proof, 100);
    assert!(genesis.transactions.is_empty());
    assert!(ledger.current_transactions().is_empty());
    assert!(ledger.nodes().is_empty());
    assert_eq!(ledger.difficulty(), 4);
}

#[test]
fn u64_rendering_exact() {
    assert_eq!(u64_to_string(0), "0");
    assert_eq!(u64_to_string(7), "7");
    assert_eq!(u64_to_string(1234567890), "1234567890");
    assert_eq!(u64_to_string(u64::MAX), "18446744073709551615");
}

#[test]
fn hex_rendering_exact() {
    let empty: Vec<u8> = Vec::new();
    assert_eq!(to_hex(&empty), "");
    assert_eq!(to_hex(&[0u8, 255u8, 16u8]), "00ff10");
}

#[test]
fn sha256_known_digest() {
    assert_eq!(
        sha256_hex("abc".as_bytes()),
        "ba7816bf8f01cfea414140de5dae2223b00361a396177a9cb410ff61f20015ad"
    );
    assert_eq!(sha256_hex("abc".as_bytes()), sha256_hex("abc".as_bytes()));
}

#[test]
fn proof_of_work_least_solution() {
    let ledger = Blockchain::new();
    let proof = ledger.proof_of_work(100);
    assert_eq!(proof, 35293);
    assert!(Blockchain::valid_proof(100, proof, 4));
    assert!(!Blockchain::valid_proof(100, proof - 1, 4));
    let digest = sha256_hex(format!("100{}", proof).as_bytes());
    assert!(digest.starts_with("0000"));
}

#[test]
fn mine_with_budget_boundaries() {
    let mut ledger = Blockchain::new();
    let missed = ledger.mine_with_budget(String::from("n1"), 35293);
    assert!(missed.is_none());
    assert_eq!(ledger.snapshot().length, 1);
    let sealed = ledger.mine_with_budget(String::from("n1"), 35294);
    let block = sealed.expect("the least proof lies below the budget");
    assert_eq!(block.proof, 35293);
    assert_eq!(block.index, 2);
}

#[test]
fn submit_then_mine_scenario() {
    let mut ledger = Blockchain::new();
    let next_index =
        ledger.new_transaction(String::from("a"), String::from("b"), String::from("5"));
    assert_eq!(next_index, 2);
    let genesis = ledger.snapshot().chain[0].clone();
    let block = ledger.mine(String::from("node-1"));
    assert_eq!(block.index, 2);
    assert_eq!(block.transactions.len(), 2);
    assert_eq!(block.transactions[0].sender, "a");
    assert_eq!(block.transactions[0].recipient, "b");
    assert_eq!(block.transactions[0].amount, "5");
    assert_eq!(block.transactions[1].sender, "0");
    assert_eq!(block.transactions[1].recipient, "node-1");
    assert_eq!(block.transactions[1].amount, "1");
    assert_eq!(block.previous_hash, block_hash(&genesis));
}

#[test]
fn pool_drained_after_mine() {
    let mut ledger = Blockchain::new();
    ledger.new_transaction(String::from("a"), String::from("b"), String::from("1.5"));
    ledger.new_transaction(String::from("b"), String::from("c"), String::from("2"));
    assert_eq!(ledger.current_transactions().len(), 2);
    let block = ledger.mine(String::from("n"));
    assert!(ledger.current_transactions().is_empty());
    assert_eq!(block.transactions.len(), 3);
    assert_eq!(block.transactions[0].sender, "a");
    assert_eq!(block.transactions[1].sender, "b");
    assert_eq!(block.transactions[2].sender, "0");
}

#[test]
fn mining_indices_monotonic() {
    let mut ledger = Blockchain::new();
    for _ in 0..3 {
        ledger.mine(String::from("n"));
    }
    let snapshot = ledger.snapshot();
    assert_eq!(snapshot.length, 4);
    for (i, block) in snapshot.chain.iter().enumerate() {
        assert_eq!(block.index as usize, i + 1);
    }
}

#[test]
fn validator_accepts_mined_chain() {
    let mut ledger = Blockchain::new();
    ledger.mine(String::from("n"));
    ledger.mine(String::from("n"));
    let snapshot = ledger.snapshot();
    assert!(ledger.valid_chain(&snapshot.chain));
    for i in 1..snapshot.chain.len() {
        assert_eq!(
            snapshot.chain[i].previous_hash,
            block_hash(&snapshot.chain[i - 1])
        );
        let digest = sha256_hex(
            format!(
                "{}{}",
                snapshot.chain[i - 1].proof,
                snapshot.chain[i].proof
            )
            .as_bytes(),
        );
        assert!(digest.starts_with("0000"));
    }
}

#[test]
fn validator_rejects_broken_link() {
    let mut ledger = Blockchain::new();
    ledger.mine(String::from("n"));
    let mut snapshot = ledger.snapshot();
    snapshot.chain[1].previous_hash = String::from("deadbeef");
    assert!(!ledger.valid_chain(&snapshot.chain));
}

#[test]
fn validator_rejects_bad_proof() {
    let mut ledger = Blockchain::new();
    ledger.mine(String::from("n"));
    let mut snapshot = ledger.snapshot();
    snapshot.chain[1].proof += 1;
    snapshot.chain[1].previous_hash = block_hash(&snapshot.chain[0]);
    assert!(!ledger.valid_chain(&snapshot.chain));
}

#[test]
fn register_node_strips_scheme_and_path() {
    let mut ledger = Blockchain::new();
    let outcome = ledger.register_node(String::from("http://192.168.1.5:5000/"));
    assert!(outcome.is_ok());
    assert_eq!(ledger.nodes().len(), 1);
    assert_eq!(ledger.nodes()[0], "192.168.1.5:5000");
}

#[test]
fn register_node_without_port() {
    let mut ledger = Blockchain::new();
    assert!(ledger.register_node(String::from("http://example.com/chain")).is_ok());
    assert_eq!(ledger.nodes()[0], "example.com");
}

#[test]
fn register_node_rejects_garbage() {
    let mut ledger = Blockchain::new();
    let outcome = ledger.register_node(String::from("not a url"));
    assert_eq!(outcome, Err(LedgerError::InvalidAddress));
    assert!(ledger.nodes().is_empty());
}

#[test]
fn register_nodes_deduplicates() {
    let mut ledger = Blockchain::new();
    let request = Nodes {
        nodes: vec![
            String::from("http://10.0.0.1:5000/"),
            String::from("http://10.0.0.2:5000/"),
            String::from("http://10.0.0.1:5000/"),
        ],
    };
    assert!(ledger.register_nodes(request).is_ok());
    assert_eq!(ledger.nodes().len(), 2);
    assert_eq!(ledger.nodes()[0], "10.0.0.1:5000");
    assert_eq!(ledger.nodes()[1], "10.0.0.2:5000");
}

#[test]
fn register_nodes_stops_at_invalid() {
    let mut ledger = Blockchain::new();
    let request = Nodes {
        nodes: vec![String::from("http://10.0.0.1:5000/"), String::from("::")],
    };
    assert_eq!(ledger.register_nodes(request), Err(LedgerError::InvalidAddress));
    assert_eq!(ledger.nodes().len(), 1);
}

fn chain_fingerprint(chain: &Chain) -> Vec<String> {
    let mut out = vec![u64_to_string(chain.length as u64)];
    for block in &chain.chain {
        out.push(block_hash(block));
    }
    out
}

#[test]
fn consensus_noop_when_no_longer_chain() {
    let mut ledger = Blockchain::new();
    ledger.mine(String::from("n"));
    let before = chain_fingerprint(&ledger.snapshot());
    let same_length_peer = ledger.snapshot();
    let short_peer = Chain { chain: vec![ledger.snapshot().chain[0].clone()], length: 1 };
    let replaced = ledger.resolve_conflicts(&vec![short_peer, same_length_peer]);
    assert!(!replaced);
    assert_eq!(chain_fingerprint(&ledger.snapshot()), before);
}

#[test]
fn consensus_ignores_inconsistent_length_report() {
    let mut ledger = Blockchain::new();
    let mut peer = Blockchain::new();
    peer.mine(String::from("p"));
    let mut lying = peer.snapshot();
    lying.length = 99;
    let replaced = ledger.resolve_conflicts(&vec![lying]);
    assert!(!replaced);
    assert_eq!(ledger.snapshot().length, 1);
}

#[test]
fn consensus_longest_valid_wins() {
    let mut ledger = Blockchain::new();
    let mut peer = Blockchain::new();
    peer.mine(String::from("p"));
    let valid_short = peer.snapshot();
    peer.mine(String::from("p"));
    let mut invalid_long = peer.snapshot();
    invalid_long.chain[2].previous_hash = String::from("deadbeef");
    let expected = chain_fingerprint(&valid_short);
    let replaced = ledger.resolve_conflicts(&vec![invalid_long, valid_short]);
    assert!(replaced);
    let adopted = ledger.snapshot();
    assert_eq!(adopted.length, 2);
    assert_eq!(chain_fingerprint(&adopted), expected);
}

#[test]
fn consensus_adopts_longest_of_several() {
    let mut ledger = Blockchain::new();
    let mut peer = Blockchain::new();
    peer.mine(String::from("p"));
    let two_blocks = peer.snapshot();
    peer.mine(String::from("p"));
    let three_blocks = peer.snapshot();
    let expected = chain_fingerprint(&three_blocks);
    let replaced = ledger.resolve_conflicts(&vec![two_blocks, three_blocks]);
    assert!(replaced);
    assert_eq!(chain_fingerprint(&ledger.snapshot()), expected);
}

#[test]
fn canonical_hash_is_structural() {
    let first = Block {
        index: 1,
        previous_hash: String::from("1"),
        proof: 100,
        timestamp: String::from("12.5"),
        transactions: vec![],
    };
    let second = Block {
        index: 1,
        previous_hash: String::from("1"),
        proof: 100,
        timestamp: String::from("12.5"),
        transactions: vec![],
    };
    assert_eq!(block_hash(&first), block_hash(&second));
    assert_eq!(
        block_hash(&first),
        "0cf6cd1d3fa9ceff62dac59b1f8b3c10a87918e5979a775a6f9218c2709c722d"
    );
}

#[test]
fn canonical_hash_covers_transactions() {
    let block = Block {
        index: 2,
        previous_hash: String::from("abc"),
        proof: 7,
        timestamp: String::from("0.0"),
        transactions: vec![
            Transaction {
                amount: String::from("5"),
                recipient: String::from("b"),
                sender: String::from("a"),
            },
            Transaction {
                amount: String::from("1"),
                recipient: String::from("n"),
                sender: String::from("0"),
            },
        ],
    };
    assert_eq!(
        block_hash(&block),
        "e59e9ec35ca81e191e445e651efd84b40983e38df4c9da48853f7f471d43adbe"
    );
}

#[test]
fn timestamp_is_seconds_dot_micros() {
    let text = timestamp();
    let mut parts = text.splitn(2, '.');
    let secs = parts.next().expect("whole seconds");
    let micros = parts.next().expect("microseconds");
    let seconds_value = secs.parse::<u64>().expect("decimal seconds");
    assert!(seconds_value > 0);
    assert!(micros.parse::<u64>().expect("decimal microseconds") < 1_000_000);
}
