//! Records of the transaction, output and pool tables.

use vstd::prelude::*;
use crate::bytes::{
    copy_bytes, copy_range, lemma_le_bytes_len, lemma_u64_le_round_trip, push_bytes, push_u64_le,
    read_array32, read_u64_le, u64_le,
};
use crate::consensus::{
    rct_base_len, rct_base_len_of, transaction_hash, transaction_hash_of, transaction_prefix,
    transaction_prefix_of,
};
use crate::error::DecodeError;
use crate::record::{check_length, hash_at, length_mismatch, u64_at, Record};

verus! {

/// Length in bytes of a stored `TxIndex`.
pub const TX_INDEX_LEN: usize = 56;

/// Where the transaction with a given hash stands in the chain.
#[derive(Clone, Copy, Debug, PartialEq, Eq)]
pub struct TxIndex {
    /// Hash of the transaction.
    pub tx_hash: [u8; 32],
    /// Number of the transaction, in order of insertion.
    pub tx_id: u64,
    /// Height or time before which the outputs cannot be spent.
    pub unlock_time: u64,
    /// Height of the block that holds the transaction.
    pub block_id: u64,
}

/// A `TxIndex` as contracts speak of it.
pub struct TxIndexView {
    pub tx_hash: Seq<u8>,
    pub tx_id: u64,
    pub unlock_time: u64,
    pub block_id: u64,
}

impl View for TxIndex {
    type V = TxIndexView;

    open spec fn view(&self) -> TxIndexView {
        TxIndexView {
            tx_hash: self.tx_hash@,
            tx_id: self.tx_id,
            unlock_time: self.unlock_time,
            block_id: self.block_id,
        }
    }
}

impl Record for TxIndex {
    open spec fn valid(v: TxIndexView) -> bool {
        v.tx_hash.len() == 32
    }

    open spec fn encoding(v: TxIndexView) -> Seq<u8> {
        v.tx_hash + u64_le(v.tx_id) + u64_le(v.unlock_time) + u64_le(v.block_id)
    }

    open spec fn decoding(bytes: Seq<u8>) -> Result<TxIndexView, DecodeError> {
        match length_mismatch(bytes.len(), TX_INDEX_LEN as nat) {
            Some(e) => Err(e),
            None => Ok(
                TxIndexView {
                    tx_hash: hash_at(bytes, 0),
                    tx_id: u64_at(bytes, 32),
                    unlock_time: u64_at(bytes, 40),
                    block_id: u64_at(bytes, 48),
                },
            ),
        }
    }

    proof fn lemma_decode_encode(v: TxIndexView) {
        let e = Self::encoding(v);
        lemma_u64_le_round_trip(v.tx_id);
        lemma_u64_le_round_trip(v.unlock_time);
        lemma_u64_le_round_trip(v.block_id);
        assert(e.subrange(0, 32) =~= v.tx_hash);
        assert(e.subrange(32, 40) =~= u64_le(v.tx_id));
        assert(e.subrange(40, 48) =~= u64_le(v.unlock_time));
        assert(e.subrange(48, 56) =~= u64_le(v.block_id));
    }

    proof fn lemma_decoding_valid(bytes: Seq<u8>) {
    }

    fn encode(&self) -> (out: Vec<u8>) {
        let mut out: Vec<u8> = Vec::new();
        push_bytes(&mut out, self.tx_hash.as_slice());
        push_u64_le(&mut out, self.tx_id);
        push_u64_le(&mut out, self.unlock_time);
        push_u64_le(&mut out, self.block_id);
        assert(out@ =~= Self::encoding(self@));
        out
    }

    fn decode(bytes: &[u8]) -> (r: Result<Self, DecodeError>) {
        match check_length(bytes.len(), TX_INDEX_LEN) {
            Some(e) => Err(e),
            None => Ok(
                TxIndex {
                    tx_hash: read_array32(bytes, 0),
                    tx_id: read_u64_le(bytes, 32),
                    unlock_time: read_u64_le(bytes, 40),
                    block_id: read_u64_le(bytes, 48),
                },
            ),
        }
    }
}

/// Length in bytes of a stored `OutTx`.
pub const OUT_TX_LEN: usize = 48;

/// The transaction that created an output, and the output's place in it.
#[derive(Clone, Copy, Debug, PartialEq, Eq)]
pub struct OutTx {
    /// Number of the output, in order of insertion.
    pub output_id: u64,
    /// Hash of the transaction that created the output.
    pub tx_hash: [u8; 32],
    /// Index of the output among the outputs of that transaction.
    pub local_index: u64,
}

/// An `OutTx` as contracts speak of it.
pub struct OutTxView {
    pub output_id: u64,
    pub tx_hash: Seq<u8>,
    pub local_index: u64,
}

impl View for OutTx {
    type V = OutTxView;

    open spec fn view(&self) -> OutTxView {
        OutTxView {
            output_id: self.output_id,
            tx_hash: self.tx_hash@,
            local_index: self.local_index,
        }
    }
}

impl Record for OutTx {
    open spec fn valid(v: OutTxView) -> bool {
        v.tx_hash.len() == 32
    }

    open spec fn encoding(v: OutTxView) -> Seq<u8> {
        u64_le(v.output_id) + v.tx_hash + u64_le(v.local_index)
    }

    open spec fn decoding(bytes: Seq<u8>) -> Result<OutTxView, DecodeError> {
        match length_mismatch(bytes.len(), OUT_TX_LEN as nat) {
            Some(e) => Err(e),
            None => Ok(
                OutTxView {
                    output_id: u64_at(bytes, 0),
                    tx_hash: hash_at(bytes, 8),
                    local_index: u64_at(bytes, 40),
                },
            ),
        }
    }

    proof fn lemma_decode_encode(v: OutTxView) {
        let e = Self::encoding(v);
        lemma_u64_le_round_trip(v.output_id);
        lemma_u64_le_round_trip(v.local_index);
        assert(e.subrange(0, 8) =~= u64_le(v.output_id));
        assert(e.subrange(8, 40) =~= v.tx_hash);
        assert(e.subrange(40, 48) =~= u64_le(v.local_index));
    }

    proof fn lemma_decoding_valid(bytes: Seq<u8>) {
    }

    fn encode(&self) -> (out: Vec<u8>) {
        let mut out: Vec<u8> = Vec::new();
        push_u64_le(&mut out, self.output_id);
        push_bytes(&mut out, self.tx_hash.as_slice());
        push_u64_le(&mut out, self.local_index);
        assert(out@ =~= Self::encoding(self@));
        out
    }

    fn decode(bytes: &[u8]) -> (r: Result<Self, DecodeError>) {
        match check_length(bytes.len(), OUT_TX_LEN) {
            Some(e) => Err(e),
            None => Ok(
                OutTx {
                    output_id: read_u64_le(bytes, 0),
                    tx_hash: read_array32(bytes, 8),
                    local_index: read_u64_le(bytes, 40),
                },
            ),
        }
    }
}

/// Length in bytes of a stored `PreRctOutkey`.
pub const PRE_RCT_OUTKEY_LEN: usize = 64;

/// An output made before RingCT: its key and when it can be spent.
#[derive(Clone, Copy, Debug, PartialEq, Eq)]
pub struct PreRctOutkey {
    /// Index of the output among the outputs of the same amount.
    pub amount_index: u64,
    /// Number of the output, in order of insertion.
    pub output_id: u64,
    /// The output's public key.
    pub pubkey: [u8; 32],
    /// Height or time before which the output cannot be spent.
    pub unlock_time: u64,
    /// Height of the block that created the output.
    pub height: u64,
}

/// A `PreRctOutkey` as contracts speak of it.
pub struct PreRctOutkeyView {
    pub amount_index: u64,
    pub output_id: u64,
    pub pubkey: Seq<u8>,
    pub unlock_time: u64,
    pub height: u64,
}

impl View for PreRctOutkey {
    type V = PreRctOutkeyView;

    open spec fn view(&self) -> PreRctOutkeyView {
        PreRctOutkeyView {
            amount_index: self.amount_index,
            output_id: self.output_id,
            pubkey: self.pubkey@,
            unlock_time: self.unlock_time,
            height: self.height,
        }
    }
}

impl Record for PreRctOutkey {
    open spec fn valid(v: PreRctOutkeyView) -> bool {
        v.pubkey.len() == 32
    }

    open spec fn encoding(v: PreRctOutkeyView) -> Seq<u8> {
        u64_le(v.amount_index) + u64_le(v.output_id) + v.pubkey + u64_le(v.unlock_time) + u64_le(
            v.height,
        )
    }

    open spec fn decoding(bytes: Seq<u8>) -> Result<PreRctOutkeyView, DecodeError> {
        match length_mismatch(bytes.len(), PRE_RCT_OUTKEY_LEN as nat) {
            Some(e) => Err(e),
            None => Ok(
                PreRctOutkeyView {
                    amount_index: u64_at(bytes, 0),
                    output_id: u64_at(bytes, 8),
                    pubkey: hash_at(bytes, 16),
                    unlock_time: u64_at(bytes, 48),
                    height: u64_at(bytes, 56),
                },
            ),
        }
    }

    proof fn lemma_decode_encode(v: PreRctOutkeyView) {
        let e = Self::encoding(v);
        lemma_u64_le_round_trip(v.amount_index);
        lemma_u64_le_round_trip(v.output_id);
        lemma_u64_le_round_trip(v.unlock_time);
        lemma_u64_le_round_trip(v.height);
        assert(e.subrange(0, 8) =~= u64_le(v.amount_index));
        assert(e.subrange(8, 16) =~= u64_le(v.output_id));
        assert(e.subrange(16, 48) =~= v.pubkey);
        assert(e.subrange(48, 56) =~= u64_le(v.unlock_time));
        assert(e.subrange(56, 64) =~= u64_le(v.height));
    }

    proof fn lemma_decoding_valid(bytes: Seq<u8>) {
    }

    fn encode(&self) -> (out: Vec<u8>) {
        let mut out: Vec<u8> = Vec::new();
        push_u64_le(&mut out, self.amount_index);
        push_u64_le(&mut out, self.output_id);
        push_bytes(&mut out, self.pubkey.as_slice());
        push_u64_le(&mut out, self.unlock_time);
        push_u64_le(&mut out, self.height);
        assert(out@ =~= Self::encoding(self@));
        out
    }

    fn decode(bytes: &[u8]) -> (r: Result<Self, DecodeError>) {
        match check_length(bytes.len(), PRE_RCT_OUTKEY_LEN) {
            Some(e) => Err(e),
            None => Ok(
                PreRctOutkey {
                    amount_index: read_u64_le(bytes, 0),
                    output_id: read_u64_le(bytes, 8),
                    pubkey: read_array32(bytes, 16),
                    unlock_time: read_u64_le(bytes, 48),
                    height: read_u64_le(bytes, 56),
                },
            ),
        }
    }
}

/// Length in bytes of a stored `RctOutkey`.
pub const RCT_OUTKEY_LEN: usize = 96;

/// A RingCT output: its key, when it can be spent, and the commitment to
/// its amount.
#[derive(Clone, Copy, Debug, PartialEq, Eq)]
pub struct RctOutkey {
    /// Index of the output among the outputs of the same amount.
    pub amount_index: u64,
    /// Number of the output, in order of insertion.
    pub output_id: u64,
    /// The output's public key.
    pub pubkey: [u8; 32],
    /// Height or time before which the output cannot be spent.
    pub unlock_time: u64,
    /// Height of the block that created the output.
    pub height: u64,
    /// Commitment to the output's amount.
    pub commitment: [u8; 32],
}

/// An `RctOutkey` as contracts speak of it.
pub struct RctOutkeyView {
    pub amount_index: u64,
    pub output_id: u64,
    pub pubkey: Seq<u8>,
    pub unlock_time: u64,
    pub height: u64,
    pub commitment: Seq<u8>,
}

impl View for RctOutkey {
    type V = RctOutkeyView;

    open spec fn view(&self) -> RctOutkeyView {
        RctOutkeyView {
            amount_index: self.amount_index,
            output_id: self.output_id,
            pubkey: self.pubkey@,
            unlock_time: self.unlock_time,
            height: self.height,
            commitment: self.commitment@,
        }
    }
}

impl Record for RctOutkey {
    open spec fn valid(v: RctOutkeyView) -> bool {
        v.pubkey.len() == 32 && v.commitment.len() == 32
    }

    open spec fn encoding(v: RctOutkeyView) -> Seq<u8> {
        u64_le(v.amount_index) + u64_le(v.output_id) + v.pubkey + u64_le(v.unlock_time) + u64_le(
            v.height,
        ) + v.commitment
    }

    open spec fn decoding(bytes: Seq<u8>) -> Result<RctOutkeyView, DecodeError> {
        match length_mismatch(bytes.len(), RCT_OUTKEY_LEN as nat) {
            Some(e) => Err(e),
            None => Ok(
                RctOutkeyView {
                    amount_index: u64_at(bytes, 0),
                    output_id: u64_at(bytes, 8),
                    pubkey: hash_at(bytes, 16),
                    unlock_time: u64_at(bytes, 48),
                    height: u64_at(bytes, 56),
                    commitment: hash_at(bytes, 64),
                },
            ),
        }
    }

    proof fn lemma_decode_encode(v: RctOutkeyView) {
        let e = Self::encoding(v);
        lemma_u64_le_round_trip(v.amount_index);
        lemma_u64_le_round_trip(v.output_id);
        lemma_u64_le_round_trip(v.unlock_time);
        lemma_u64_le_round_trip(v.height);
        assert(e.subrange(0, 8) =~= u64_le(v.amount_index));
        assert(e.subrange(8, 16) =~= u64_le(v.output_id));
        assert(e.subrange(16, 48) =~= v.pubkey);
        assert(e.subrange(48, 56) =~= u64_le(v.unlock_time));
        assert(e.subrange(56, 64) =~= u64_le(v.height));
        assert(e.subrange(64, 96) =~= v.commitment);
    }

    proof fn lemma_decoding_valid(bytes: Seq<u8>) {
    }

    fn encode(&self) -> (out: Vec<u8>) {
        let mut out: Vec<u8> = Vec::new();
        push_u64_le(&mut out, self.amount_index);
        push_u64_le(&mut out, self.output_id);
        push_bytes(&mut out, self.pubkey.as_slice());
        push_u64_le(&mut out, self.unlock_time);
        push_u64_le(&mut out, self.height);
        push_bytes(&mut out, self.commitment.as_slice());
        assert(out@ =~= Self::encoding(self@));
        out
    }

    fn decode(bytes: &[u8]) -> (r: Result<Self, DecodeError>) {
        match check_length(bytes.len(), RCT_OUTKEY_LEN) {
            Some(e) => Err(e),
            None => Ok(
                RctOutkey {
                    amount_index: read_u64_le(bytes, 0),
                    output_id: read_u64_le(bytes, 8),
                    pubkey: read_array32(bytes, 16),
                    unlock_time: read_u64_le(bytes, 48),
                    height: read_u64_le(bytes, 56),
                    commitment: read_array32(bytes, 64),
                },
            ),
        }
    }
}

/// The stored form of a list of integers: eight bytes each, in order.
pub open spec fn u64_list_le(items: Seq<u64>) -> Seq<u8>
    decreases items.len(),
{
    if items.len() == 0 {
        Seq::empty()
    } else {
        u64_list_le(items.drop_last()) + u64_le(items.last())
    }
}

/// The list of the integers held by each eight bytes of `bytes` in turn.
pub open spec fn u64_list_of_le(bytes: Seq<u8>) -> Seq<u64> {
    Seq::new(bytes.len() / 8, |i: int| u64_at(bytes, 8 * i))
}

/// A list of `n` integers is stored in `8 * n` bytes.
pub proof fn lemma_u64_list_le_len(items: Seq<u64>)
    ensures
        u64_list_le(items).len() == 8 * items.len(),
    decreases items.len(),
{
    if items.len() > 0 {
        lemma_u64_list_le_len(items.drop_last());
        lemma_le_bytes_len(items.last() as nat, 8);
    }
}

/// Reading back a stored list gives the list again.
pub proof fn lemma_u64_list_round_trip(items: Seq<u64>)
    ensures
        u64_list_of_le(u64_list_le(items)) == items,
    decreases items.len(),
{
    let e = u64_list_le(items);
    lemma_u64_list_le_len(items);
    if items.len() > 0 {
        let front = items.drop_last();
        let fe = u64_list_le(front);
        lemma_u64_list_round_trip(front);
        lemma_u64_list_le_len(front);
        lemma_u64_le_round_trip(items.last());
        assert forall|i: int| 0 <= i < items.len() implies u64_list_of_le(e)[i] == items[i] by {
            if i < front.len() {
                assert(e.subrange(8 * i, 8 * i + 8) =~= fe.subrange(8 * i, 8 * i + 8));
                assert(u64_list_of_le(fe)[i] == front[i]);
            } else {
                assert(e.subrange(8 * i, 8 * i + 8) =~= u64_le(items.last()));
            }
        }
    }
    assert(u64_list_of_le(e) =~= items);
}

/// For each output of a transaction, its index among the outputs of the
/// same amount.
#[derive(Clone, Debug, PartialEq, Eq)]
pub struct TxOutputIdx {
    pub indices: Vec<u64>,
}

impl View for TxOutputIdx {
    type V = Seq<u64>;

    open spec fn view(&self) -> Seq<u64> {
        self.indices@
    }
}

impl Record for TxOutputIdx {
    open spec fn valid(v: Seq<u64>) -> bool {
        true
    }

    open spec fn encoding(v: Seq<u64>) -> Seq<u8> {
        u64_list_le(v)
    }

    open spec fn decoding(bytes: Seq<u8>) -> Result<Seq<u64>, DecodeError> {
        if bytes.len() % 8 != 0 {
            Err(DecodeError::UnexpectedEnd)
        } else {
            Ok(u64_list_of_le(bytes))
        }
    }

    proof fn lemma_decode_encode(v: Seq<u64>) {
        lemma_u64_list_le_len(v);
        lemma_u64_list_round_trip(v);
    }

    proof fn lemma_decoding_valid(bytes: Seq<u8>) {
    }

    fn encode(&self) -> (out: Vec<u8>) {
        let mut out: Vec<u8> = Vec::new();
        let mut i: usize = 0;
        assert(self.indices@.subrange(0, 0) =~= Seq::<u64>::empty());
        while i < self.indices.len()
            invariant
                i <= self.indices@.len(),
                out@ == u64_list_le(self.indices@.subrange(0, i as int)),
            decreases self.indices@.len() - i,
        {
            push_u64_le(&mut out, self.indices[i]);
            proof {
                let next = self.indices@.subrange(0, i + 1);
                assert(next.drop_last() =~= self.indices@.subrange(0, i as int));
            }
            i = i + 1;
        }
        assert(self.indices@.subrange(0, i as int) =~= self.indices@);
        out
    }

    fn decode(bytes: &[u8]) -> (r: Result<Self, DecodeError>) {
        let len = bytes.len();
        if len % 8 != 0 {
            return Err(DecodeError::UnexpectedEnd);
        }
        let count = len / 8;
        let mut indices: Vec<u64> = Vec::new();
        let mut i: usize = 0;
        while i < count
            invariant
                i <= count,
                count == len / 8,
                len == bytes@.len(),
                len % 8 == 0,
                indices@.len() == i,
                forall|j: int| 0 <= j < i ==> indices@[j] == u64_at(bytes@, 8 * j),
            decreases count - i,
        {
            indices.push(read_u64_le(bytes, 8 * i));
            i = i + 1;
        }
        assert(indices@ =~= u64_list_of_le(bytes@));
        Ok(TxOutputIdx { indices })
    }
}

/// Length in bytes of a stored `TxPoolMeta`.
pub const TX_POOL_META_LEN: usize = 192;

/// Length in bytes of the unused tail of a stored `TxPoolMeta`.
pub const TX_POOL_META_PADDING: usize = 76;

/// What the pool records of a transaction that waits in it.
#[derive(Clone, Copy, Debug, PartialEq, Eq)]
pub struct TxPoolMeta {
    /// Hash of the highest block that the transaction's inputs refer to.
    pub max_used_block_id: [u8; 32],
    /// Hash of the block at which the transaction last failed to verify.
    pub last_failed_id: [u8; 32],
    /// Weight of the transaction.
    pub weight: u64,
    /// Fee that the transaction pays.
    pub fee: u64,
    /// Height of the highest block that the transaction's inputs refer to.
    pub max_used_block_height: u64,
    /// Height at which the transaction last failed to verify.
    pub last_failed_height: u64,
    /// Time at which the transaction was received.
    pub receive_time: u64,
    /// Time at which the transaction was last relayed.
    pub last_relayed_time: u64,
    /// Not zero where the transaction came in a block.
    pub kept_by_block: u8,
    /// Not zero where the transaction has been relayed.
    pub relayed: u8,
    /// Not zero where the transaction must not be relayed.
    pub do_not_relay: u8,
    /// One bit for each of: double spend seen, pruned, local, Dandelion++
    /// stem, forwarding; lowest bit first.
    pub flags: u8,
}

/// A `TxPoolMeta` as contracts speak of it.
pub struct TxPoolMetaView {
    pub max_used_block_id: Seq<u8>,
    pub last_failed_id: Seq<u8>,
    pub weight: u64,
    pub fee: u64,
    pub max_used_block_height: u64,
    pub last_failed_height: u64,
    pub receive_time: u64,
    pub last_relayed_time: u64,
    pub kept_by_block: u8,
    pub relayed: u8,
    pub do_not_relay: u8,
    pub flags: u8,
}

impl View for TxPoolMeta {
    type V = TxPoolMetaView;

    open spec fn view(&self) -> TxPoolMetaView {
        TxPoolMetaView {
            max_used_block_id: self.max_used_block_id@,
            last_failed_id: self.last_failed_id@,
            weight: self.weight,
            fee: self.fee,
            max_used_block_height: self.max_used_block_height,
            last_failed_height: self.last_failed_height,
            receive_time: self.receive_time,
            last_relayed_time: self.last_relayed_time,
            kept_by_block: self.kept_by_block,
            relayed: self.relayed,
            do_not_relay: self.do_not_relay,
            flags: self.flags,
        }
    }
}

/// True where bit `bit` of `flags` is set, bit 0 being the lowest.
pub open spec fn flag_set(flags: u8, bit: nat) -> bool {
    (flags as nat / crate::bytes::pow2(bit)) % 2 == 1
}

impl TxPoolMeta {
    /// True where a transaction spending the same inputs has been seen.
    pub fn double_spend_seen(&self) -> (set: bool)
        ensures
            set == flag_set(self.flags, 0),
    {
        proof {
            crate::bytes::lemma_pow2_values();
        }
        self.flags % 2 == 1
    }

    /// True where the pool holds the transaction without its prunable part.
    pub fn pruned(&self) -> (set: bool)
        ensures
            set == flag_set(self.flags, 1),
    {
        proof {
            crate::bytes::lemma_pow2_values();
        }
        (self.flags / 2) % 2 == 1
    }

    /// True where the transaction was made by this node.
    pub fn is_local(&self) -> (set: bool)
        ensures
            set == flag_set(self.flags, 2),
    {
        proof {
            crate::bytes::lemma_pow2_values();
        }
        (self.flags / 4) % 2 == 1
    }

    /// True where the transaction is in the stem phase of Dandelion++.
    pub fn dandelionpp_stem(&self) -> (set: bool)
        ensures
            set == flag_set(self.flags, 3),
    {
        proof {
            crate::bytes::lemma_pow2_values();
        }
        (self.flags / 8) % 2 == 1
    }

    /// True where the transaction is being forwarded.
    pub fn is_forwarding(&self) -> (set: bool)
        ensures
            set == flag_set(self.flags, 4),
    {
        proof {
            crate::bytes::lemma_pow2_values();
        }
        (self.flags / 16) % 2 == 1
    }
}

/// `n` bytes that are all zero.
pub open spec fn zeros(n: nat) -> Seq<u8> {
    Seq::new(n, |i: int| 0u8)
}

/// Appends `n` zero bytes to `out`.
fn push_zeros(out: &mut Vec<u8>, n: usize)
    ensures
        final(out)@ == old(out)@ + zeros(n as nat),
{
    let mut i: usize = 0;
    assert(out@ =~= old(out)@ + zeros(0));
    while i < n
        invariant
            i <= n,
            out@ == old(out)@ + zeros(i as nat),
        decreases n - i,
    {
        out.push(0u8);
        i = i + 1;
        assert(out@ =~= old(out)@ + zeros(i as nat));
    }
}

impl Record for TxPoolMeta {
    open spec fn valid(v: TxPoolMetaView) -> bool {
        v.max_used_block_id.len() == 32 && v.last_failed_id.len() == 32
    }

    open spec fn encoding(v: TxPoolMetaView) -> Seq<u8> {
        v.max_used_block_id + v.last_failed_id + u64_le(v.weight) + u64_le(v.fee) + u64_le(
            v.max_used_block_height,
        ) + u64_le(v.last_failed_height) + u64_le(v.receive_time) + u64_le(v.last_relayed_time)
            + seq![v.kept_by_block, v.relayed, v.do_not_relay, v.flags] + zeros(
            TX_POOL_META_PADDING as nat,
        )
    }

    open spec fn decoding(bytes: Seq<u8>) -> Result<TxPoolMetaView, DecodeError> {
        match length_mismatch(bytes.len(), TX_POOL_META_LEN as nat) {
            Some(e) => Err(e),
            None => Ok(
                TxPoolMetaView {
                    max_used_block_id: hash_at(bytes, 0),
                    last_failed_id: hash_at(bytes, 32),
                    weight: u64_at(bytes, 64),
                    fee: u64_at(bytes, 72),
                    max_used_block_height: u64_at(bytes, 80),
                    last_failed_height: u64_at(bytes, 88),
                    receive_time: u64_at(bytes, 96),
                    last_relayed_time: u64_at(bytes, 104),
                    kept_by_block: bytes[112],
                    relayed: bytes[113],
                    do_not_relay: bytes[114],
                    flags: bytes[115],
                },
            ),
        }
    }

    proof fn lemma_decode_encode(v: TxPoolMetaView) {
        let e = Self::encoding(v);
        lemma_u64_le_round_trip(v.weight);
        lemma_u64_le_round_trip(v.fee);
        lemma_u64_le_round_trip(v.max_used_block_height);
        lemma_u64_le_round_trip(v.last_failed_height);
        lemma_u64_le_round_trip(v.receive_time);
        lemma_u64_le_round_trip(v.last_relayed_time);
        assert(e.len() == 192);
        assert(e.subrange(0, 32) =~= v.max_used_block_id);
        assert(e.subrange(32, 64) =~= v.last_failed_id);
        assert(e.subrange(64, 72) =~= u64_le(v.weight));
        assert(e.subrange(72, 80) =~= u64_le(v.fee));
        assert(e.subrange(80, 88) =~= u64_le(v.max_used_block_height));
        assert(e.subrange(88, 96) =~= u64_le(v.last_failed_height));
        assert(e.subrange(96, 104) =~= u64_le(v.receive_time));
        assert(e.subrange(104, 112) =~= u64_le(v.last_relayed_time));
        assert(e[112] == v.kept_by_block);
        assert(e[113] == v.relayed);
        assert(e[114] == v.do_not_relay);
        assert(e[115] == v.flags);
    }

    proof fn lemma_decoding_valid(bytes: Seq<u8>) {
    }

    fn encode(&self) -> (out: Vec<u8>) {
        let mut out: Vec<u8> = Vec::new();
        push_bytes(&mut out, self.max_used_block_id.as_slice());
        push_bytes(&mut out, self.last_failed_id.as_slice());
        push_u64_le(&mut out, self.weight);
        push_u64_le(&mut out, self.fee);
        push_u64_le(&mut out, self.max_used_block_height);
        push_u64_le(&mut out, self.last_failed_height);
        push_u64_le(&mut out, self.receive_time);
        push_u64_le(&mut out, self.last_relayed_time);
        let ghost fields = out@;
        out.push(self.kept_by_block);
        out.push(self.relayed);
        out.push(self.do_not_relay);
        out.push(self.flags);
        assert(out@ =~= fields + seq![
            self.kept_by_block,
            self.relayed,
            self.do_not_relay,
            self.flags,
        ]);
        push_zeros(&mut out, TX_POOL_META_PADDING);
        assert(out@ =~= Self::encoding(self@));
        out
    }

    fn decode(bytes: &[u8]) -> (r: Result<Self, DecodeError>) {
        match check_length(bytes.len(), TX_POOL_META_LEN) {
            Some(e) => Err(e),
            None => Ok(
                TxPoolMeta {
                    max_used_block_id: read_array32(bytes, 0),
                    last_failed_id: read_array32(bytes, 32),
                    weight: read_u64_le(bytes, 64),
                    fee: read_u64_le(bytes, 72),
                    max_used_block_height: read_u64_le(bytes, 80),
                    last_failed_height: read_u64_le(bytes, 88),
                    receive_time: read_u64_le(bytes, 96),
                    last_relayed_time: read_u64_le(bytes, 104),
                    kept_by_block: bytes[112],
                    relayed: bytes[113],
                    do_not_relay: bytes[114],
                    flags: bytes[115],
                },
            ),
        }
    }
}

/// A transaction in consensus encoding, with the hash that the encoding
/// gives it.
#[derive(Debug, PartialEq, Eq)]
pub struct Transaction {
    blob: Vec<u8>,
    hash: [u8; 32],
}

/// A `Transaction` as contracts speak of it.
pub struct TransactionView {
    /// The transaction in consensus encoding.
    pub blob: Seq<u8>,
    /// The transaction's hash.
    pub hash: Seq<u8>,
}

impl View for Transaction {
    type V = TransactionView;

    closed spec fn view(&self) -> TransactionView {
        TransactionView { blob: self.blob@, hash: self.hash@ }
    }
}

impl Transaction {
    /// The hash is the one that the encoding gives the transaction.
    #[verifier::type_invariant]
    spec fn well_formed(self) -> bool {
        transaction_hash_of(self.blob@) == Some(self.hash@)
    }

    /// The transaction in consensus encoding.
    pub fn blob(&self) -> (bytes: &Vec<u8>)
        ensures
            bytes@ == self@.blob,
            Self::valid(self@),
    {
        proof {
            use_type_invariant(self);
        }
        &self.blob
    }

    /// The transaction's hash: the key under which the pool stores it.
    pub fn hash(&self) -> (hash: [u8; 32])
        ensures
            hash@ == self@.hash,
            Self::valid(self@),
    {
        proof {
            use_type_invariant(self);
        }
        self.hash
    }
}

impl Clone for Transaction {
    fn clone(&self) -> (copy: Self)
        ensures
            copy@ == self@,
    {
        proof {
            use_type_invariant(self);
        }
        Transaction { blob: copy_bytes(self.blob.as_slice()), hash: self.hash }
    }
}

impl Record for Transaction {
    open spec fn valid(v: TransactionView) -> bool {
        transaction_hash_of(v.blob) == Some(v.hash)
    }

    open spec fn encoding(v: TransactionView) -> Seq<u8> {
        v.blob
    }

    open spec fn decoding(bytes: Seq<u8>) -> Result<TransactionView, DecodeError> {
        match transaction_hash_of(bytes) {
            Some(hash) => Ok(TransactionView { blob: bytes, hash }),
            None => Err(DecodeError::Rejected),
        }
    }

    proof fn lemma_decode_encode(v: TransactionView) {
    }

    proof fn lemma_decoding_valid(bytes: Seq<u8>) {
    }

    fn encode(&self) -> (out: Vec<u8>) {
        proof {
            use_type_invariant(self);
        }
        copy_bytes(self.blob.as_slice())
    }

    fn decode(bytes: &[u8]) -> (r: Result<Self, DecodeError>) {
        match transaction_hash(bytes) {
            Some(hash) => Ok(Transaction { blob: copy_bytes(bytes), hash }),
            None => Err(DecodeError::Rejected),
        }
    }
}

/// How many of the bytes of a pruned transaction are its prefix, or why
/// the bytes are none: a pruned transaction is a transaction prefix in
/// consensus encoding and, unless the prefix is of version 1 or has no
/// input, the base of its RingCT signatures after it, and nothing more.
pub open spec fn pruned_prefix_len(bytes: Seq<u8>) -> Result<nat, DecodeError> {
    match transaction_prefix_of(bytes) {
        None => Err(DecodeError::Rejected),
        Some(shape) => if shape.len > bytes.len() {
            Err(DecodeError::Rejected)
        } else if shape.version == 1 || shape.inputs == 0 {
            if shape.len == bytes.len() {
                Ok(shape.len as nat)
            } else {
                Err(DecodeError::TrailingBytes)
            }
        } else {
            match rct_base_len_of(
                bytes.subrange(shape.len as int, bytes.len() as int),
                shape.inputs as nat,
                shape.outputs as nat,
            ) {
                None => Err(DecodeError::Rejected),
                Some(n) => if shape.len + n == bytes.len() {
                    Ok(shape.len as nat)
                } else {
                    Err(DecodeError::TrailingBytes)
                },
            }
        },
    }
}

/// How many of the bytes of a pruned transaction are its prefix, or why
/// the bytes are none.
pub fn check_pruned(bytes: &[u8]) -> (r: Result<usize, DecodeError>)
    ensures
        match r {
            Ok(n) => pruned_prefix_len(bytes@) == Ok::<nat, DecodeError>(n as nat) && n
                <= bytes@.len(),
            Err(e) => pruned_prefix_len(bytes@) == Err::<nat, DecodeError>(e),
        },
{
    let shape = match transaction_prefix(bytes) {
        Some(shape) => shape,
        None => {
            return Err(DecodeError::Rejected);
        },
    };
    let len = bytes.len();
    if shape.version == 1 || shape.inputs == 0 {
        if shape.len == len {
            Ok(shape.len)
        } else {
            Err(DecodeError::TrailingBytes)
        }
    } else {
        let rest = copy_range(bytes, shape.len, len);
        match rct_base_len(rest.as_slice(), shape.inputs, shape.outputs) {
            None => Err(DecodeError::Rejected),
            Some(n) => {
                if n == len - shape.len {
                    Ok(shape.len)
                } else {
                    Err(DecodeError::TrailingBytes)
                }
            },
        }
    }
}

/// A transaction without its prunable part: a transaction prefix in
/// consensus encoding, then the base of its RingCT signatures where it has
/// one.
#[derive(Debug, PartialEq, Eq)]
pub struct TransactionPruned {
    blob: Vec<u8>,
    prefix_len: usize,
}

/// A `TransactionPruned` as contracts speak of it.
pub struct TransactionPrunedView {
    /// The stored bytes.
    pub blob: Seq<u8>,
    /// How many of them are the transaction prefix.
    pub prefix_len: nat,
}

impl View for TransactionPruned {
    type V = TransactionPrunedView;

    closed spec fn view(&self) -> TransactionPrunedView {
        TransactionPrunedView { blob: self.blob@, prefix_len: self.prefix_len as nat }
    }
}

impl TransactionPruned {
    /// The prefix is as long as the layout of the stored bytes says, and no
    /// longer than they are.
    #[verifier::type_invariant]
    spec fn well_formed(self) -> bool {
        pruned_prefix_len(self.blob@) == Ok::<nat, DecodeError>(self.prefix_len as nat)
            && self.prefix_len <= self.blob@.len()
    }

    /// The stored bytes.
    pub fn blob(&self) -> (bytes: &Vec<u8>)
        ensures
            bytes@ == self@.blob,
            Self::valid(self@),
    {
        proof {
            use_type_invariant(self);
        }
        &self.blob
    }

    /// How many of the stored bytes are the transaction prefix.
    pub fn prefix_len(&self) -> (len: usize)
        ensures
            len == self@.prefix_len,
            len <= self@.blob.len(),
            Self::valid(self@),
    {
        proof {
            use_type_invariant(self);
        }
        self.prefix_len
    }
}

impl Clone for TransactionPruned {
    fn clone(&self) -> (copy: Self)
        ensures
            copy@ == self@,
    {
        proof {
            use_type_invariant(self);
        }
        TransactionPruned { blob: copy_bytes(self.blob.as_slice()), prefix_len: self.prefix_len }
    }
}

impl Record for TransactionPruned {
    open spec fn valid(v: TransactionPrunedView) -> bool {
        pruned_prefix_len(v.blob) == Ok::<nat, DecodeError>(v.prefix_len)
    }

    open spec fn encoding(v: TransactionPrunedView) -> Seq<u8> {
        v.blob
    }

    open spec fn decoding(bytes: Seq<u8>) -> Result<TransactionPrunedView, DecodeError> {
        match pruned_prefix_len(bytes) {
            Ok(prefix_len) => Ok(TransactionPrunedView { blob: bytes, prefix_len }),
            Err(e) => Err(e),
        }
    }

    proof fn lemma_decode_encode(v: TransactionPrunedView) {
    }

    proof fn lemma_decoding_valid(bytes: Seq<u8>) {
    }

    fn encode(&self) -> (out: Vec<u8>) {
        proof {
            use_type_invariant(self);
        }
        copy_bytes(self.blob.as_slice())
    }

    fn decode(bytes: &[u8]) -> (r: Result<Self, DecodeError>) {
        match check_pruned(bytes) {
            Ok(prefix_len) => Ok(TransactionPruned { blob: copy_bytes(bytes), prefix_len }),
            Err(e) => Err(e),
        }
    }
}

} // verus!
