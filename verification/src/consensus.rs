//! Blocks and transactions in consensus encoding, as the `monero` crate
//! reads them.

use vstd::prelude::*;

verus! {

/// The identifier that `monero::Block::id` gives the block that
/// `monero::consensus::deserialize` reads from all of `blob`; `None` where
/// the bytes are not such a block.
pub uninterp spec fn block_id_of(blob: Seq<u8>) -> Option<Seq<u8>>;

/// The hash that `monero::cryptonote::hash::Hashable::hash` gives the
/// transaction that `monero::consensus::deserialize` reads from all of
/// `blob`; `None` where the bytes are not such a transaction.
pub uninterp spec fn transaction_hash_of(blob: Seq<u8>) -> Option<Seq<u8>>;

/// What is read of a transaction prefix: how many bytes it takes, its
/// version, and how many inputs and outputs it has.
#[derive(Clone, Copy, Debug, PartialEq, Eq, Structural)]
pub struct PrefixShape {
    pub len: usize,
    pub version: u64,
    pub inputs: usize,
    pub outputs: usize,
}

/// What `monero::consensus::encode::deserialize_partial` reads from the
/// front of `blob` for a `monero::TransactionPrefix`; `None` where `blob`
/// does not start with one.
pub uninterp spec fn transaction_prefix_of(blob: Seq<u8>) -> Option<PrefixShape>;

/// The number of bytes that
/// `monero::util::ringct::RctSigBase::consensus_decode` reads from the
/// front of `rest` for a transaction of so many inputs and outputs; `None`
/// where `rest` does not start with such a base.
pub uninterp spec fn rct_base_len_of(rest: Seq<u8>, inputs: nat, outputs: nat) -> Option<nat>;

/// Calls `monero::consensus::deserialize` for a `monero::Block` and, on the
/// block read, `monero::Block::id`. The identifier is a function of the
/// bytes alone; it is `None` exactly where the bytes do not decode.
#[verifier::external_body]
pub(crate) fn block_id(blob: &[u8]) -> (id: Option<[u8; 32]>)
    ensures
        match id {
            Some(h) => block_id_of(blob@) == Some(h@),
            None => block_id_of(blob@) is None,
        },
{
    match monero::consensus::deserialize::<monero::Block>(blob) {
        Ok(block) => Some(block.id().to_bytes()),
        Err(_) => None,
    }
}

/// Calls `monero::consensus::deserialize` for a `monero::Transaction` and,
/// on the transaction read, `monero::cryptonote::hash::Hashable::hash`. The
/// hash is a function of the bytes alone; it is `None` exactly where the
/// bytes do not decode.
#[verifier::external_body]
pub(crate) fn transaction_hash(blob: &[u8]) -> (hash: Option<[u8; 32]>)
    ensures
        match hash {
            Some(h) => transaction_hash_of(blob@) == Some(h@),
            None => transaction_hash_of(blob@) is None,
        },
{
    match monero::consensus::deserialize::<monero::Transaction>(blob) {
        Ok(tx) => Some(monero::cryptonote::hash::Hashable::hash(&tx).to_bytes()),
        Err(_) => None,
    }
}

/// Calls `monero::consensus::encode::deserialize_partial` for a
/// `monero::TransactionPrefix` and hands on the count of bytes read and,
/// of the prefix read, the version and the lengths of its lists of inputs
/// and outputs. All four are functions of the bytes alone, and the count is
/// never more than there are bytes; the result is `None` exactly where no
/// prefix decodes.
#[verifier::external_body]
pub(crate) fn transaction_prefix(blob: &[u8]) -> (shape: Option<PrefixShape>)
    ensures
        shape == transaction_prefix_of(blob@),
        shape matches Some(s) ==> s.len <= blob@.len(),
{
    match monero::consensus::encode::deserialize_partial::<monero::TransactionPrefix>(blob) {
        Ok((prefix, len)) => Some(
            PrefixShape {
                len,
                version: prefix.version.0,
                inputs: prefix.inputs.len(),
                outputs: prefix.outputs.len(),
            },
        ),
        Err(_) => None,
    }
}

/// Calls `monero::util::ringct::RctSigBase::consensus_decode` on a
/// `std::io::Cursor` over `rest` and hands on how far the cursor came. The
/// count is a function of the three arguments alone and never more than
/// there are bytes; it is `None` exactly where no base decodes.
#[verifier::external_body]
pub(crate) fn rct_base_len(rest: &[u8], inputs: usize, outputs: usize) -> (len: Option<usize>)
    ensures
        match len {
            Some(n) => rct_base_len_of(rest@, inputs as nat, outputs as nat) == Some(n as nat) && n
                <= rest@.len(),
            None => rct_base_len_of(rest@, inputs as nat, outputs as nat) is None,
        },
{
    let mut reader = std::io::Cursor::new(rest);
    match monero::util::ringct::RctSigBase::consensus_decode(&mut reader, inputs, outputs) {
        Ok(_) => usize::try_from(reader.position()).ok(),
        Err(_) => None,
    }
}

} // verus!
