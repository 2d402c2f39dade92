//! The ledger data model — transactions, blocks, chains — together with
//! the canonical encoding and the canonical hash of a block.
//!
//! The canonical encoding writes a block's fields in one fixed order with
//! one fixed textual rendering of numbers (see `text::dec_of`), so that two
//! processes encoding structurally identical block data obtain identical
//! bytes. Field text is inserted verbatim, without escaping: the encoding
//! is a deterministic byte string to digest, not a document to parse back.

use vstd::prelude::*;
use vstd::string::StringExecFns;
use vstd::utf8::encode_utf8;
use crate::text::dec_of;
use crate::text::hex_of;
use crate::text::u64_to_string;
use crate::sha::sha256_of;
use crate::sha::sha256_hex;

verus! {

/// One transfer: `amount` is kept as its canonical decimal text, exactly
/// the text that enters the canonical encoding. No validation is applied
/// to any field.
pub struct Transaction {
    pub amount: String,
    pub recipient: String,
    pub sender: String,
}

/// The mathematical value of a `Transaction`.
#[verifier::ext_equal]
pub ghost struct TxView {
    pub amount: Seq<char>,
    pub recipient: Seq<char>,
    pub sender: Seq<char>,
}

impl View for Transaction {
    type V = TxView;

    open spec fn view(&self) -> TxView {
        TxView { amount: self.amount@, recipient: self.recipient@, sender: self.sender@ }
    }
}

impl Clone for Transaction {
    fn clone(&self) -> (r: Self)
        ensures
            r@ == self@,
    {
        let r = Transaction {
            amount: self.amount.clone(),
            recipient: self.recipient.clone(),
            sender: self.sender.clone(),
        };
        proof {
            assert(r@ =~= self@);
        }
        r
    }
}

/// One sealed block. `previous_hash` is the canonical hash of the
/// predecessor block (or the genesis sentinel), as lowercase hex text.
pub struct Block {
    pub index: u32,
    pub previous_hash: String,
    pub proof: u64,
    pub timestamp: String,
    pub transactions: Vec<Transaction>,
}

/// The mathematical value of a `Block`.
#[verifier::ext_equal]
pub ghost struct BlockView {
    pub index: int,
    pub previous_hash: Seq<char>,
    pub proof: u64,
    pub timestamp: Seq<char>,
    pub transactions: Seq<TxView>,
}

/// The values of a sequence of transactions.
pub open spec fn txs_view(txs: Seq<Transaction>) -> Seq<TxView> {
    txs.map_values(|t: Transaction| t@)
}

impl View for Block {
    type V = BlockView;

    open spec fn view(&self) -> BlockView {
        BlockView {
            index: self.index as int,
            previous_hash: self.previous_hash@,
            proof: self.proof,
            timestamp: self.timestamp@,
            transactions: txs_view(self.transactions@),
        }
    }
}

fn clone_transactions(txs: &Vec<Transaction>) -> (r: Vec<Transaction>)
    ensures
        txs_view(r@) == txs_view(txs@),
{
    let mut r: Vec<Transaction> = Vec::new();
    let mut i: usize = 0;
    while i < txs.len()
        invariant
            i <= txs@.len(),
            r@.len() == i,
            forall|j: int| 0 <= j < i ==> r@[j]@ == txs@[j]@,
        decreases txs@.len() - i,
    {
        r.push(txs[i].clone());
        i += 1;
    }
    proof {
        assert(txs_view(r@) =~= txs_view(txs@));
    }
    r
}

impl Clone for Block {
    fn clone(&self) -> (r: Self)
        ensures
            r@ == self@,
    {
        let r = Block {
            index: self.index,
            previous_hash: self.previous_hash.clone(),
            proof: self.proof,
            timestamp: self.timestamp.clone(),
            transactions: clone_transactions(&self.transactions),
        };
        proof {
            assert(r@ =~= self@);
        }
        r
    }
}

/// The values of a sequence of blocks.
pub open spec fn blocks_view(bs: Seq<Block>) -> Seq<BlockView> {
    bs.map_values(|b: Block| b@)
}

pub(crate) fn clone_blocks(bs: &Vec<Block>) -> (r: Vec<Block>)
    ensures
        blocks_view(r@) == blocks_view(bs@),
{
    let mut r: Vec<Block> = Vec::new();
    let mut i: usize = 0;
    while i < bs.len()
        invariant
            i <= bs@.len(),
            r@.len() == i,
            forall|j: int| 0 <= j < i ==> r@[j]@ == bs@[j]@,
        decreases bs@.len() - i,
    {
        r.push(bs[i].clone());
        i += 1;
    }
    proof {
        assert(blocks_view(r@) =~= blocks_view(bs@));
    }
    r
}

/// The canonical encoding of one transaction: its fields in one fixed
/// order, each rendered as text.
pub open spec fn tx_encoding(t: TxView) -> Seq<char> {
    "{\"amount\":"@ + t.amount + ",\"recipient\":\""@ + t.recipient + "\",\"sender\":\""@
        + t.sender + "\"}"@
}

/// The canonical encoding of an ordered batch of transactions, separated
/// by commas.
pub open spec fn txs_encoding(txs: Seq<TxView>) -> Seq<char>
    decreases txs.len(),
{
    if txs.len() == 0 {
        Seq::empty()
    } else if txs.len() == 1 {
        tx_encoding(txs[0])
    } else {
        txs_encoding(txs.drop_last()) + ","@ + tx_encoding(txs.last())
    }
}

/// The canonical encoding of a block: every field, in one fixed order.
pub open spec fn block_encoding(b: BlockView) -> Seq<char> {
    "{\"index\":"@ + dec_of(b.index as nat) + ",\"previous_hash\":\""@ + b.previous_hash
        + "\",\"proof\":"@ + dec_of(b.proof as nat) + ",\"timestamp\":\""@ + b.timestamp
        + "\",\"transactions\":["@ + txs_encoding(b.transactions) + "]}"@
}

/// The canonical hash of a block: lowercase hex of the SHA-256 digest of
/// the UTF-8 bytes of the canonical encoding.
pub open spec fn block_hash_chars(b: BlockView) -> Seq<char> {
    hex_of(sha256_of(encode_utf8(block_encoding(b))))
}

pub fn encode_transaction(t: &Transaction) -> (r: String)
    ensures
        r@ == tx_encoding(t@),
{
    let mut s = String::new();
    s.append("{\"amount\":");
    s.append(t.amount.as_str());
    s.append(",\"recipient\":\"");
    s.append(t.recipient.as_str());
    s.append("\",\"sender\":\"");
    s.append(t.sender.as_str());
    s.append("\"}");
    proof {
        assert(s@ =~= tx_encoding(t@));
    }
    s
}

fn encode_transactions(txs: &Vec<Transaction>) -> (r: String)
    ensures
        r@ == txs_encoding(txs_view(txs@)),
{
    let ghost m = txs_view(txs@);
    let mut s = String::new();
    let mut i: usize = 0;
    proof {
        assert(m.take(0) =~= Seq::<TxView>::empty());
    }
    while i < txs.len()
        invariant
            i <= txs@.len(),
            m == txs_view(txs@),
            m.len() == txs@.len(),
            s@ == txs_encoding(m.take(i as int)),
        decreases txs@.len() - i,
    {
        if i > 0 {
            s.append(",");
        }
        let e = encode_transaction(&txs[i]);
        s.append(e.as_str());
        proof {
            let t = m.take(i + 1);
            assert(t.drop_last() =~= m.take(i as int));
            assert(t.last() == m[i as int]);
            assert(m[i as int] == txs@[i as int]@);
            assert(s@ =~= txs_encoding(t));
        }
        i += 1;
    }
    proof {
        assert(m.take(m.len() as int) =~= m);
    }
    s
}

/// Build the canonical encoding of a block.
pub fn encode_block(b: &Block) -> (r: String)
    ensures
        r@ == block_encoding(b@),
{
    let mut s = String::new();
    s.append("{\"index\":");
    let index_text = u64_to_string(b.index as u64);
    s.append(index_text.as_str());
    s.append(",\"previous_hash\":\"");
    s.append(b.previous_hash.as_str());
    s.append("\",\"proof\":");
    let proof_text = u64_to_string(b.proof);
    s.append(proof_text.as_str());
    s.append(",\"timestamp\":\"");
    s.append(b.timestamp.as_str());
    s.append("\",\"transactions\":[");
    let txs_text = encode_transactions(&b.transactions);
    s.append(txs_text.as_str());
    s.append("]}");
    proof {
        assert(s@ =~= block_encoding(b@));
    }
    s
}

/// The canonical hash of a block, as lowercase hex text.
pub fn block_hash(b: &Block) -> (r: String)
    ensures
        r@ == block_hash_chars(b@),
        r@.len() == 64,
{
    let encoded = encode_block(b);
    sha256_hex(encoded.as_str().as_bytes())
}

} // verus!
