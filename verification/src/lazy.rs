//! A value read from the database that is either still the stored bytes or
//! already the record they decode to.

use vstd::prelude::*;
use crate::bytes::copy_bytes;
use crate::error::{DecodeError, Error};
use crate::record::Record;

verus! {

/// A record, decoded or not yet.
#[derive(Clone, Debug, PartialEq, Eq)]
pub enum Lazy<T> {
    /// The stored bytes, as they were read.
    Undecoded(Vec<u8>),
    /// The record.
    Decoded(T),
}

/// A `Lazy` as contracts speak of it.
pub enum LazyView<V> {
    Undecoded(Seq<u8>),
    Decoded(V),
}

impl<T: Record> View for Lazy<T> {
    type V = LazyView<T::V>;

    open spec fn view(&self) -> LazyView<T::V> {
        match self {
            Lazy::Undecoded(bytes) => LazyView::Undecoded(bytes@),
            Lazy::Decoded(rec) => LazyView::Decoded(rec@),
        }
    }
}

impl<T: Record> Lazy<T> {
    /// True unless the value holds a record that is not valid.
    pub open spec fn valid(v: LazyView<T::V>) -> bool {
        match v {
            LazyView::Undecoded(_) => true,
            LazyView::Decoded(rec) => T::valid(rec),
        }
    }

    /// The record that the value stands for, or why its bytes are none.
    pub open spec fn forced(v: LazyView<T::V>) -> Result<T::V, DecodeError> {
        match v {
            LazyView::Undecoded(bytes) => T::decoding(bytes),
            LazyView::Decoded(rec) => Ok(rec),
        }
    }

    /// The stored bytes that the value stands for.
    pub open spec fn raw(v: LazyView<T::V>) -> Seq<u8> {
        match v {
            LazyView::Undecoded(bytes) => bytes,
            LazyView::Decoded(rec) => T::encoding(rec),
        }
    }

    /// True where the record has been decoded already.
    pub fn is_decoded(&self) -> (decoded: bool)
        ensures
            decoded == (self@ is Decoded),
    {
        match self {
            Lazy::Undecoded(_) => false,
            Lazy::Decoded(_) => true,
        }
    }

    /// The record: decoded now where it was not yet, handed on where it was.
    pub fn force(self) -> (r: Result<T, Error>)
        ensures
            match r {
                Ok(rec) => Self::forced(self@) == Ok::<T::V, DecodeError>(rec@),
                Err(e) => Self::forced(self@) matches Err(d) && e == Error::MoneroDecodingError(d),
            },
    {
        match self {
            Lazy::Undecoded(bytes) => match T::decode(bytes.as_slice()) {
                Ok(rec) => Ok(rec),
                Err(d) => Err(Error::MoneroDecodingError(d)),
            },
            Lazy::Decoded(rec) => Ok(rec),
        }
    }

    /// The stored bytes: copied where the value still holds them, encoded
    /// where it holds the record.
    pub fn to_bytes(&self) -> (out: Vec<u8>)
        ensures
            Self::valid(self@),
            out@ == Self::raw(self@),
    {
        match self {
            Lazy::Undecoded(bytes) => copy_bytes(bytes.as_slice()),
            Lazy::Decoded(rec) => rec.encode(),
        }
    }

    /// Forcing the stored bytes of a value gives what forcing the value
    /// gives: it does not matter whether a record was decoded on the way.
    pub proof fn lemma_force_raw(v: LazyView<T::V>)
        requires
            Self::valid(v),
        ensures
            Self::forced(LazyView::Undecoded(Self::raw(v))) == Self::forced(v),
    {
        match v {
            LazyView::Undecoded(_) => {},
            LazyView::Decoded(rec) => {
                T::lemma_decode_encode(rec);
            },
        }
    }

    /// What forcing gives is a valid record.
    pub proof fn lemma_forced_valid(v: LazyView<T::V>)
        requires
            Self::valid(v),
        ensures
            Self::forced(v) matches Ok(rec) ==> T::valid(rec),
    {
        match v {
            LazyView::Undecoded(bytes) => {
                T::lemma_decoding_valid(bytes);
            },
            LazyView::Decoded(_) => {},
        }
    }
}

} // verus!
