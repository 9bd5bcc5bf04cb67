//! Records that are a single integer or a single hash.

use vstd::prelude::*;
use crate::bytes::{
    lemma_u32_le_round_trip, lemma_u64_le_round_trip, push_bytes, push_u32_le, push_u64_le,
    read_array32, read_u32_le, read_u64_le, u32_le, u32_of_le, u64_le, u64_of_le,
};
use crate::error::DecodeError;
use crate::record::{check_length, length_mismatch, Record};

verus! {

impl Record for u8 {
    open spec fn valid(v: u8) -> bool {
        true
    }

    open spec fn encoding(v: u8) -> Seq<u8> {
        seq![v]
    }

    open spec fn decoding(bytes: Seq<u8>) -> Result<u8, DecodeError> {
        match length_mismatch(bytes.len(), 1) {
            Some(e) => Err(e),
            None => Ok(bytes[0]),
        }
    }

    proof fn lemma_decode_encode(v: u8) {
    }

    proof fn lemma_decoding_valid(bytes: Seq<u8>) {
    }

    fn encode(&self) -> (out: Vec<u8>) {
        let mut out: Vec<u8> = Vec::new();
        out.push(*self);
        assert(out@ =~= seq![*self]);
        out
    }

    fn decode(bytes: &[u8]) -> (r: Result<Self, DecodeError>) {
        match check_length(bytes.len(), 1) {
            Some(e) => Err(e),
            None => Ok(bytes[0]),
        }
    }
}

impl Record for u32 {
    open spec fn valid(v: u32) -> bool {
        true
    }

    open spec fn encoding(v: u32) -> Seq<u8> {
        u32_le(v)
    }

    open spec fn decoding(bytes: Seq<u8>) -> Result<u32, DecodeError> {
        match length_mismatch(bytes.len(), 4) {
            Some(e) => Err(e),
            None => Ok(u32_of_le(bytes)),
        }
    }

    proof fn lemma_decode_encode(v: u32) {
        lemma_u32_le_round_trip(v);
    }

    proof fn lemma_decoding_valid(bytes: Seq<u8>) {
    }

    fn encode(&self) -> (out: Vec<u8>) {
        let mut out: Vec<u8> = Vec::new();
        push_u32_le(&mut out, *self);
        assert(out@ =~= u32_le(*self));
        out
    }

    fn decode(bytes: &[u8]) -> (r: Result<Self, DecodeError>) {
        match check_length(bytes.len(), 4) {
            Some(e) => Err(e),
            None => {
                assert(bytes@.subrange(0, 4) =~= bytes@);
                Ok(read_u32_le(bytes, 0))
            },
        }
    }
}

impl Record for u64 {
    open spec fn valid(v: u64) -> bool {
        true
    }

    open spec fn encoding(v: u64) -> Seq<u8> {
        u64_le(v)
    }

    open spec fn decoding(bytes: Seq<u8>) -> Result<u64, DecodeError> {
        match length_mismatch(bytes.len(), 8) {
            Some(e) => Err(e),
            None => Ok(u64_of_le(bytes)),
        }
    }

    proof fn lemma_decode_encode(v: u64) {
        lemma_u64_le_round_trip(v);
    }

    proof fn lemma_decoding_valid(bytes: Seq<u8>) {
    }

    fn encode(&self) -> (out: Vec<u8>) {
        let mut out: Vec<u8> = Vec::new();
        push_u64_le(&mut out, *self);
        assert(out@ =~= u64_le(*self));
        out
    }

    fn decode(bytes: &[u8]) -> (r: Result<Self, DecodeError>) {
        match check_length(bytes.len(), 8) {
            Some(e) => Err(e),
            None => {
                assert(bytes@.subrange(0, 8) =~= bytes@);
                Ok(read_u64_le(bytes, 0))
            },
        }
    }
}

/// Length in bytes of a hash.
pub const HASH_LEN: usize = 32;

/// A 32-byte hash, stored as it is.
#[derive(Clone, Copy, Debug, PartialEq, Eq)]
pub struct Hash {
    pub bytes: [u8; 32],
}

impl View for Hash {
    type V = Seq<u8>;

    open spec fn view(&self) -> Seq<u8> {
        self.bytes@
    }
}

impl Record for Hash {
    open spec fn valid(v: Seq<u8>) -> bool {
        v.len() == HASH_LEN
    }

    open spec fn encoding(v: Seq<u8>) -> Seq<u8> {
        v
    }

    open spec fn decoding(bytes: Seq<u8>) -> Result<Seq<u8>, DecodeError> {
        match length_mismatch(bytes.len(), HASH_LEN as nat) {
            Some(e) => Err(e),
            None => Ok(bytes),
        }
    }

    proof fn lemma_decode_encode(v: Seq<u8>) {
    }

    proof fn lemma_decoding_valid(bytes: Seq<u8>) {
    }

    fn encode(&self) -> (out: Vec<u8>) {
        let mut out: Vec<u8> = Vec::new();
        push_bytes(&mut out, self.bytes.as_slice());
        assert(out@ =~= self.bytes@);
        out
    }

    fn decode(bytes: &[u8]) -> (r: Result<Self, DecodeError>) {
        match check_length(bytes.len(), HASH_LEN) {
            Some(e) => Err(e),
            None => {
                assert(bytes@.subrange(0, 32) =~= bytes@);
                Ok(Hash { bytes: read_array32(bytes, 0) })
            },
        }
    }
}

} // verus!
