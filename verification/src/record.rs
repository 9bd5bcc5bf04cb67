//! The stored form of each kind of record: one codec per record type.

use vstd::prelude::*;
use crate::error::DecodeError;

pub mod block;
pub mod scalar;
pub mod transaction;

verus! {

/// A record with a stored form. `encoding` and `decoding` say over the
/// record's view what `encode` and `decode` compute.
pub trait Record: View + Sized {
    /// The views that are views of a record of this type.
    spec fn valid(v: Self::V) -> bool;

    /// The stored form of a record.
    spec fn encoding(v: Self::V) -> Seq<u8>;

    /// The record that `bytes` are the stored form of, or why they are none.
    spec fn decoding(bytes: Seq<u8>) -> Result<Self::V, DecodeError>;

    /// Decoding the stored form of a record gives the record again.
    proof fn lemma_decode_encode(v: Self::V)
        requires
            Self::valid(v),
        ensures
            Self::decoding(Self::encoding(v)) == Ok::<Self::V, DecodeError>(v),
    ;

    /// What decodes is the view of a record.
    proof fn lemma_decoding_valid(bytes: Seq<u8>)
        ensures
            Self::decoding(bytes) matches Ok(v) ==> Self::valid(v),
    ;

    /// Writes the record in its stored form.
    fn encode(&self) -> (out: Vec<u8>)
        ensures
            Self::valid(self@),
            out@ == Self::encoding(self@),
    ;

    /// Reads a record from its stored form, all of `bytes`.
    fn decode(bytes: &[u8]) -> (r: Result<Self, DecodeError>)
        ensures
            match r {
                Ok(rec) => Self::decoding(bytes@) == Ok::<Self::V, DecodeError>(rec@),
                Err(e) => Self::decoding(bytes@) == Err::<Self::V, DecodeError>(e),
            },
    ;
}

/// The failure of a record of `len` bytes where `want` are expected, if the
/// two differ.
pub open spec fn length_mismatch(len: nat, want: nat) -> Option<DecodeError> {
    if len < want {
        Some(DecodeError::UnexpectedEnd)
    } else if len > want {
        Some(DecodeError::TrailingBytes)
    } else {
        None
    }
}

/// Compares the length of a record's bytes with the length of its layout.
pub fn check_length(len: usize, want: usize) -> (r: Option<DecodeError>)
    ensures
        r == length_mismatch(len as nat, want as nat),
{
    if len < want {
        Some(DecodeError::UnexpectedEnd)
    } else if len > want {
        Some(DecodeError::TrailingBytes)
    } else {
        None
    }
}

/// The integer held in the eight bytes of `bytes` that start at `at`.
pub open spec fn u64_at(bytes: Seq<u8>, at: int) -> u64 {
    crate::bytes::u64_of_le(bytes.subrange(at, at + 8))
}

/// The thirty-two bytes of `bytes` that start at `at`.
pub open spec fn hash_at(bytes: Seq<u8>, at: int) -> Seq<u8> {
    bytes.subrange(at, at + 32)
}

} // verus!
