//! Records of the block tables.

use vstd::prelude::*;
use crate::bytes::{
    copy_bytes, copy_range, lemma_u64_le_round_trip, push_bytes, push_u64_le, read_array32,
    read_u64_le, u64_le,
};
use crate::consensus::{block_id, block_id_of};
use crate::error::DecodeError;
use crate::record::{check_length, hash_at, length_mismatch, u64_at, Record};

verus! {

/// Length in bytes of a stored `BlockInfo`.
pub const BLOCK_INFO_LEN: usize = 96;

/// What the chain records of the block at one height.
#[derive(Clone, Copy, Debug, PartialEq, Eq)]
pub struct BlockInfo {
    /// Height of the block.
    pub height: u64,
    /// Time at which the block was mined.
    pub timestamp: u64,
    /// Coins generated up to and including this block.
    pub total_coins_generated: u64,
    /// Weight of the block.
    pub weight: u64,
    /// Low 64 bits of the cumulative difficulty.
    pub diff_lo: u64,
    /// High 64 bits of the cumulative difficulty.
    pub diff_hi: u64,
    /// Hash of the block.
    pub block_hash: [u8; 32],
    /// Number of RingCT outputs up to and including this block.
    pub cum_rct: u64,
    /// Long-term weight of the block.
    pub long_term_block_weight: u64,
}

/// A `BlockInfo` as contracts speak of it.
pub struct BlockInfoView {
    pub height: u64,
    pub timestamp: u64,
    pub total_coins_generated: u64,
    pub weight: u64,
    pub diff_lo: u64,
    pub diff_hi: u64,
    pub block_hash: Seq<u8>,
    pub cum_rct: u64,
    pub long_term_block_weight: u64,
}

impl BlockInfoView {
    /// Work done on the chain up to and including this block.
    pub open spec fn cumulative_difficulty(self) -> nat {
        (self.diff_hi as nat) * 0x1_0000_0000_0000_0000 + self.diff_lo as nat
    }
}

impl View for BlockInfo {
    type V = BlockInfoView;

    open spec fn view(&self) -> BlockInfoView {
        BlockInfoView {
            height: self.height,
            timestamp: self.timestamp,
            total_coins_generated: self.total_coins_generated,
            weight: self.weight,
            diff_lo: self.diff_lo,
            diff_hi: self.diff_hi,
            block_hash: self.block_hash@,
            cum_rct: self.cum_rct,
            long_term_block_weight: self.long_term_block_weight,
        }
    }
}

impl BlockInfo {
    /// Work done on the chain up to and including this block.
    pub fn cumulative_difficulty(&self) -> (total: u128)
        ensures
            total == self@.cumulative_difficulty(),
    {
        let hi: u128 = self.diff_hi as u128;
        let lo: u128 = self.diff_lo as u128;
        hi * 0x1_0000_0000_0000_0000 + lo
    }
}

impl Record for BlockInfo {
    open spec fn valid(v: BlockInfoView) -> bool {
        v.block_hash.len() == 32
    }

    open spec fn encoding(v: BlockInfoView) -> Seq<u8> {
        u64_le(v.height) + u64_le(v.timestamp) + u64_le(v.total_coins_generated) + u64_le(v.weight)
            + u64_le(v.diff_lo) + u64_le(v.diff_hi) + v.block_hash + u64_le(v.cum_rct) + u64_le(
            v.long_term_block_weight,
        )
    }

    open spec fn decoding(bytes: Seq<u8>) -> Result<BlockInfoView, DecodeError> {
        match length_mismatch(bytes.len(), BLOCK_INFO_LEN as nat) {
            Some(e) => Err(e),
            None => Ok(
                BlockInfoView {
                    height: u64_at(bytes, 0),
                    timestamp: u64_at(bytes, 8),
                    total_coins_generated: u64_at(bytes, 16),
                    weight: u64_at(bytes, 24),
                    diff_lo: u64_at(bytes, 32),
                    diff_hi: u64_at(bytes, 40),
                    block_hash: hash_at(bytes, 48),
                    cum_rct: u64_at(bytes, 80),
                    long_term_block_weight: u64_at(bytes, 88),
                },
            ),
        }
    }

    proof fn lemma_decode_encode(v: BlockInfoView) {
        let e = Self::encoding(v);
        lemma_u64_le_round_trip(v.height);
        lemma_u64_le_round_trip(v.timestamp);
        lemma_u64_le_round_trip(v.total_coins_generated);
        lemma_u64_le_round_trip(v.weight);
        lemma_u64_le_round_trip(v.diff_lo);
        lemma_u64_le_round_trip(v.diff_hi);
        lemma_u64_le_round_trip(v.cum_rct);
        lemma_u64_le_round_trip(v.long_term_block_weight);
        assert(e.subrange(0, 8) =~= u64_le(v.height));
        assert(e.subrange(8, 16) =~= u64_le(v.timestamp));
        assert(e.subrange(16, 24) =~= u64_le(v.total_coins_generated));
        assert(e.subrange(24, 32) =~= u64_le(v.weight));
        assert(e.subrange(32, 40) =~= u64_le(v.diff_lo));
        assert(e.subrange(40, 48) =~= u64_le(v.diff_hi));
        assert(e.subrange(48, 80) =~= v.block_hash);
        assert(e.subrange(80, 88) =~= u64_le(v.cum_rct));
        assert(e.subrange(88, 96) =~= u64_le(v.long_term_block_weight));
    }

    proof fn lemma_decoding_valid(bytes: Seq<u8>) {
    }

    fn encode(&self) -> (out: Vec<u8>) {
        let mut out: Vec<u8> = Vec::new();
        push_u64_le(&mut out, self.height);
        push_u64_le(&mut out, self.timestamp);
        push_u64_le(&mut out, self.total_coins_generated);
        push_u64_le(&mut out, self.weight);
        push_u64_le(&mut out, self.diff_lo);
        push_u64_le(&mut out, self.diff_hi);
        push_bytes(&mut out, self.block_hash.as_slice());
        push_u64_le(&mut out, self.cum_rct);
        push_u64_le(&mut out, self.long_term_block_weight);
        assert(out@ =~= Self::encoding(self@));
        out
    }

    fn decode(bytes: &[u8]) -> (r: Result<Self, DecodeError>) {
        match check_length(bytes.len(), BLOCK_INFO_LEN) {
            Some(e) => Err(e),
            None => Ok(
                BlockInfo {
                    height: read_u64_le(bytes, 0),
                    timestamp: read_u64_le(bytes, 8),
                    total_coins_generated: read_u64_le(bytes, 16),
                    weight: read_u64_le(bytes, 24),
                    diff_lo: read_u64_le(bytes, 32),
                    diff_hi: read_u64_le(bytes, 40),
                    block_hash: read_array32(bytes, 48),
                    cum_rct: read_u64_le(bytes, 80),
                    long_term_block_weight: read_u64_le(bytes, 88),
                },
            ),
        }
    }
}

/// Length in bytes of a stored `BlockHeight`.
pub const BLOCK_HEIGHT_LEN: usize = 40;

/// The height at which the block with a given hash stands.
#[derive(Clone, Copy, Debug, PartialEq, Eq)]
pub struct BlockHeight {
    /// Hash of the block.
    pub block_hash: [u8; 32],
    /// Height of the block.
    pub height: u64,
}

/// A `BlockHeight` as contracts speak of it.
pub struct BlockHeightView {
    pub block_hash: Seq<u8>,
    pub height: u64,
}

impl View for BlockHeight {
    type V = BlockHeightView;

    open spec fn view(&self) -> BlockHeightView {
        BlockHeightView { block_hash: self.block_hash@, height: self.height }
    }
}

impl Record for BlockHeight {
    open spec fn valid(v: BlockHeightView) -> bool {
        v.block_hash.len() == 32
    }

    open spec fn encoding(v: BlockHeightView) -> Seq<u8> {
        v.block_hash + u64_le(v.height)
    }

    open spec fn decoding(bytes: Seq<u8>) -> Result<BlockHeightView, DecodeError> {
        match length_mismatch(bytes.len(), BLOCK_HEIGHT_LEN as nat) {
            Some(e) => Err(e),
            None => Ok(BlockHeightView { block_hash: hash_at(bytes, 0), height: u64_at(bytes, 32) }),
        }
    }

    proof fn lemma_decode_encode(v: BlockHeightView) {
        let e = Self::encoding(v);
        lemma_u64_le_round_trip(v.height);
        assert(e.subrange(0, 32) =~= v.block_hash);
        assert(e.subrange(32, 40) =~= u64_le(v.height));
    }

    proof fn lemma_decoding_valid(bytes: Seq<u8>) {
    }

    fn encode(&self) -> (out: Vec<u8>) {
        let mut out: Vec<u8> = Vec::new();
        push_bytes(&mut out, self.block_hash.as_slice());
        push_u64_le(&mut out, self.height);
        assert(out@ =~= Self::encoding(self@));
        out
    }

    fn decode(bytes: &[u8]) -> (r: Result<Self, DecodeError>) {
        match check_length(bytes.len(), BLOCK_HEIGHT_LEN) {
            Some(e) => Err(e),
            None => Ok(
                BlockHeight { block_hash: read_array32(bytes, 0), height: read_u64_le(bytes, 32) },
            ),
        }
    }
}

/// A block in consensus encoding, with the identifier that the encoding
/// gives it.
#[derive(Debug, PartialEq, Eq)]
pub struct Block {
    blob: Vec<u8>,
    id: [u8; 32],
}

/// A `Block` as contracts speak of it.
pub struct BlockView {
    /// The block in consensus encoding.
    pub blob: Seq<u8>,
    /// The block's identifier.
    pub id: Seq<u8>,
}

impl View for Block {
    type V = BlockView;

    closed spec fn view(&self) -> BlockView {
        BlockView { blob: self.blob@, id: self.id@ }
    }
}

impl Block {
    /// The identifier is the one that the encoding gives the block.
    #[verifier::type_invariant]
    spec fn well_formed(self) -> bool {
        block_id_of(self.blob@) == Some(self.id@)
    }

    /// The block in consensus encoding.
    pub fn blob(&self) -> (bytes: &Vec<u8>)
        ensures
            bytes@ == self@.blob,
            Self::valid(self@),
    {
        proof {
            use_type_invariant(self);
        }
        &self.blob
    }

    /// The block's identifier: the key under which an alternative block is
    /// stored.
    pub fn id(&self) -> (id: [u8; 32])
        ensures
            id@ == self@.id,
            Self::valid(self@),
    {
        proof {
            use_type_invariant(self);
        }
        self.id
    }
}

impl Clone for Block {
    fn clone(&self) -> (copy: Self)
        ensures
            copy@ == self@,
    {
        proof {
            use_type_invariant(self);
        }
        Block { blob: copy_bytes(self.blob.as_slice()), id: self.id }
    }
}

impl Record for Block {
    open spec fn valid(v: BlockView) -> bool {
        block_id_of(v.blob) == Some(v.id)
    }

    open spec fn encoding(v: BlockView) -> Seq<u8> {
        v.blob
    }

    open spec fn decoding(bytes: Seq<u8>) -> Result<BlockView, DecodeError> {
        match block_id_of(bytes) {
            Some(id) => Ok(BlockView { blob: bytes, id }),
            None => Err(DecodeError::Rejected),
        }
    }

    proof fn lemma_decode_encode(v: BlockView) {
    }

    proof fn lemma_decoding_valid(bytes: Seq<u8>) {
    }

    fn encode(&self) -> (out: Vec<u8>) {
        proof {
            use_type_invariant(self);
        }
        copy_bytes(self.blob.as_slice())
    }

    fn decode(bytes: &[u8]) -> (r: Result<Self, DecodeError>) {
        match block_id(bytes) {
            Some(id) => Ok(Block { blob: copy_bytes(bytes), id }),
            None => Err(DecodeError::Rejected),
        }
    }
}

/// Length in bytes of what a stored `AltBlock` holds before its block.
pub const ALT_BLOCK_HEADER_LEN: usize = 40;

/// A block of a fork that is not the main chain, with what is known of the
/// fork up to it.
#[derive(Clone, Debug, PartialEq, Eq)]
pub struct AltBlock {
    /// Height of the block.
    pub height: u64,
    /// Weight of the fork up to and including this block.
    pub cumulative_weight: u64,
    /// Low 64 bits of the fork's cumulative difficulty.
    pub cumulative_difficulty_low: u64,
    /// High 64 bits of the fork's cumulative difficulty.
    pub cumulative_difficulty_high: u64,
    /// Coins generated on the fork up to and including this block.
    pub already_generated_coins: u64,
    /// The block itself.
    pub block: Block,
}

/// An `AltBlock` as contracts speak of it.
pub struct AltBlockView {
    pub height: u64,
    pub cumulative_weight: u64,
    pub cumulative_difficulty_low: u64,
    pub cumulative_difficulty_high: u64,
    pub already_generated_coins: u64,
    pub block: BlockView,
}

impl View for AltBlock {
    type V = AltBlockView;

    open spec fn view(&self) -> AltBlockView {
        AltBlockView {
            height: self.height,
            cumulative_weight: self.cumulative_weight,
            cumulative_difficulty_low: self.cumulative_difficulty_low,
            cumulative_difficulty_high: self.cumulative_difficulty_high,
            already_generated_coins: self.already_generated_coins,
            block: self.block@,
        }
    }
}

impl Record for AltBlock {
    open spec fn valid(v: AltBlockView) -> bool {
        Block::valid(v.block)
    }

    open spec fn encoding(v: AltBlockView) -> Seq<u8> {
        u64_le(v.height) + u64_le(v.cumulative_weight) + u64_le(v.cumulative_difficulty_low)
            + u64_le(v.cumulative_difficulty_high) + u64_le(v.already_generated_coins)
            + v.block.blob
    }

    open spec fn decoding(bytes: Seq<u8>) -> Result<AltBlockView, DecodeError> {
        if bytes.len() < ALT_BLOCK_HEADER_LEN {
            Err(DecodeError::UnexpectedEnd)
        } else {
            match Block::decoding(bytes.subrange(ALT_BLOCK_HEADER_LEN as int, bytes.len() as int)) {
                Ok(block) => Ok(
                    AltBlockView {
                        height: u64_at(bytes, 0),
                        cumulative_weight: u64_at(bytes, 8),
                        cumulative_difficulty_low: u64_at(bytes, 16),
                        cumulative_difficulty_high: u64_at(bytes, 24),
                        already_generated_coins: u64_at(bytes, 32),
                        block,
                    },
                ),
                Err(e) => Err(e),
            }
        }
    }

    proof fn lemma_decode_encode(v: AltBlockView) {
        let e = Self::encoding(v);
        lemma_u64_le_round_trip(v.height);
        lemma_u64_le_round_trip(v.cumulative_weight);
        lemma_u64_le_round_trip(v.cumulative_difficulty_low);
        lemma_u64_le_round_trip(v.cumulative_difficulty_high);
        lemma_u64_le_round_trip(v.already_generated_coins);
        assert(e.subrange(0, 8) =~= u64_le(v.height));
        assert(e.subrange(8, 16) =~= u64_le(v.cumulative_weight));
        assert(e.subrange(16, 24) =~= u64_le(v.cumulative_difficulty_low));
        assert(e.subrange(24, 32) =~= u64_le(v.cumulative_difficulty_high));
        assert(e.subrange(32, 40) =~= u64_le(v.already_generated_coins));
        assert(e.subrange(40, e.len() as int) =~= v.block.blob);
    }

    proof fn lemma_decoding_valid(bytes: Seq<u8>) {
    }

    fn encode(&self) -> (out: Vec<u8>) {
        let mut out: Vec<u8> = Vec::new();
        push_u64_le(&mut out, self.height);
        push_u64_le(&mut out, self.cumulative_weight);
        push_u64_le(&mut out, self.cumulative_difficulty_low);
        push_u64_le(&mut out, self.cumulative_difficulty_high);
        push_u64_le(&mut out, self.already_generated_coins);
        push_bytes(&mut out, self.block.blob().as_slice());
        assert(out@ =~= Self::encoding(self@));
        out
    }

    fn decode(bytes: &[u8]) -> (r: Result<Self, DecodeError>) {
        if bytes.len() < ALT_BLOCK_HEADER_LEN {
            return Err(DecodeError::UnexpectedEnd);
        }
        let rest = copy_range(bytes, ALT_BLOCK_HEADER_LEN, bytes.len());
        match Block::decode(rest.as_slice()) {
            Ok(block) => Ok(
                AltBlock {
                    height: read_u64_le(bytes, 0),
                    cumulative_weight: read_u64_le(bytes, 8),
                    cumulative_difficulty_low: read_u64_le(bytes, 16),
                    cumulative_difficulty_high: read_u64_le(bytes, 24),
                    already_generated_coins: read_u64_le(bytes, 32),
                    block,
                },
            ),
            Err(e) => Err(e),
        }
    }
}

} // verus!
