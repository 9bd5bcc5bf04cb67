//! What is written for each insertion, and when a write is refused.

use vstd::prelude::*;
use crate::bytes::copy_bytes;
use crate::error::{DecodeError, Error};
use crate::lookup::Query;
use crate::record::block::{AltBlock, AltBlockView};
use crate::record::transaction::{Transaction, TransactionView, TxPoolMeta, TxPoolMetaView};
use crate::record::Record;
use crate::schema::{KeyMode, Table, NO_DUP_DATA};

verus! {

/// One insertion: a key and a value for a table.
#[derive(Clone, Debug, PartialEq, Eq)]
pub struct Write {
    /// The table written to.
    pub table: Table,
    /// The key.
    pub key: Vec<u8>,
    /// The value.
    pub value: Vec<u8>,
    /// Whether a key and value that are stored already are refused.
    pub no_duplicate: bool,
}

/// A `Write` as contracts speak of it.
pub struct WriteView {
    pub table: Table,
    pub key: Seq<u8>,
    pub value: Seq<u8>,
    pub no_duplicate: bool,
}

impl View for Write {
    type V = WriteView;

    open spec fn view(&self) -> WriteView {
        WriteView {
            table: self.table,
            key: self.key@,
            value: self.value@,
            no_duplicate: self.no_duplicate,
        }
    }
}

impl WriteView {
    /// The engine's write flags for the insertion.
    pub open spec fn flags(self) -> u32 {
        if self.no_duplicate {
            NO_DUP_DATA
        } else {
            0
        }
    }

    /// True unless the insertion has a key for a table with integer keys
    /// that is not eight bytes long: the engine reads such a key as an
    /// integer of the machine's width, whatever its length.
    pub open spec fn fits(self) -> bool {
        self.table.spec_key_mode() == KeyMode::Integer ==> self.key.len() == 8
    }
}

impl Write {
    /// The engine's write flags for the insertion.
    pub fn flags(&self) -> (bits: u32)
        ensures
            bits == self@.flags(),
    {
        if self.no_duplicate {
            NO_DUP_DATA
        } else {
            0
        }
    }
}

/// True where every insertion of `writes` fits its table.
pub open spec fn all_fit(writes: Seq<Write>) -> bool {
    forall|i: int| 0 <= i < writes.len() ==> (#[trigger] writes[i])@.fits()
}

/// The insertion of `value` under `key` in `table` that refuses a pair that
/// is stored already.
pub open spec fn insertion(table: Table, key: Seq<u8>, value: Seq<u8>) -> WriteView {
    WriteView { table, key, value, no_duplicate: true }
}

/// The views of a list of insertions, in order.
pub open spec fn writes_view(writes: Seq<Write>) -> Seq<WriteView> {
    writes.map_values(|w: Write| w@)
}

/// The insertions that store an alternative block: the block, under its
/// identifier.
pub open spec fn alt_block_insertions(alt_block: AltBlockView) -> Seq<WriteView> {
    seq![insertion(Table::AltBlocks, alt_block.block.id, AltBlock::encoding(alt_block))]
}

/// The insertions that store a pool entry: first what the pool records of
/// the transaction, then the transaction, both under its hash.
pub open spec fn pool_entry_insertions(tx: TransactionView, meta: TxPoolMetaView) -> Seq<
    WriteView,
> {
    seq![
        insertion(Table::TxpoolMeta, tx.hash, TxPoolMeta::encoding(meta)),
        insertion(Table::TxpoolBlob, tx.hash, Transaction::encoding(tx)),
    ]
}

/// Refuses a write on a store opened read-only.
pub fn check_writable(read_only: bool) -> (r: Result<(), Error>)
    ensures
        r == (if read_only {
            Err::<(), Error>(Error::ReadOnly)
        } else {
            Ok::<(), Error>(())
        }),
{
    if read_only {
        Err(Error::ReadOnly)
    } else {
        Ok(())
    }
}

/// The insertions that store an alternative block, or the read-only error.
pub fn plan_alt_block(read_only: bool, alt_block: &AltBlock) -> (r: Result<Vec<Write>, Error>)
    ensures
        match r {
            Ok(writes) => !read_only && writes_view(writes@) == alt_block_insertions(alt_block@)
                && all_fit(writes@),
            Err(e) => read_only && e == Error::ReadOnly,
        },
{
    match check_writable(read_only) {
        Ok(()) => {},
        Err(e) => {
            return Err(e);
        },
    }
    let id = alt_block.block.id();
    let mut writes: Vec<Write> = Vec::new();
    writes.push(
        Write {
            table: Table::AltBlocks,
            key: copy_bytes(id.as_slice()),
            value: alt_block.encode(),
            no_duplicate: true,
        },
    );
    assert(writes_view(writes@) =~= alt_block_insertions(alt_block@));
    Ok(writes)
}

/// The insertions that store a pool entry, or the read-only error.
pub fn plan_pool_entry(read_only: bool, tx: &Transaction, meta: &TxPoolMeta) -> (r: Result<
    Vec<Write>,
    Error,
>)
    ensures
        match r {
            Ok(writes) => !read_only && writes_view(writes@) == pool_entry_insertions(tx@, meta@)
                && all_fit(writes@),
            Err(e) => read_only && e == Error::ReadOnly,
        },
{
    match check_writable(read_only) {
        Ok(()) => {},
        Err(e) => {
            return Err(e);
        },
    }
    let hash = tx.hash();
    let mut writes: Vec<Write> = Vec::new();
    writes.push(
        Write {
            table: Table::TxpoolMeta,
            key: copy_bytes(hash.as_slice()),
            value: meta.encode(),
            no_duplicate: true,
        },
    );
    writes.push(
        Write {
            table: Table::TxpoolBlob,
            key: copy_bytes(hash.as_slice()),
            value: tx.encode(),
            no_duplicate: true,
        },
    );
    assert(writes_view(writes@) =~= pool_entry_insertions(tx@, meta@));
    Ok(writes)
}

/// True where the lookup that answers `q` reads the table and the key that
/// `w` writes, so that it finds what `w` stored.
pub open spec fn reads_back(q: Query, w: WriteView) -> bool {
    q.lookup().table == w.table && q.lookup().key == w.key
}

/// What is stored for an alternative block is found again by the block's
/// identifier, and decodes to the alternative block that was stored.
pub proof fn lemma_alt_block_read_back(alt_block: AltBlockView, id: &[u8])
    requires
        AltBlock::valid(alt_block),
        id@ == alt_block.block.id,
    ensures
        alt_block_insertions(alt_block).len() == 1,
        reads_back(Query::AltBlock(id), alt_block_insertions(alt_block)[0]),
        AltBlock::decoding(alt_block_insertions(alt_block)[0].value) == Ok::<
            AltBlockView,
            DecodeError,
        >(alt_block),
{
    AltBlock::lemma_decode_encode(alt_block);
}

/// What is stored for a pool entry is a pair: the lookups of the pool's
/// record and of the transaction, made with the transaction's hash, find
/// the two values stored, and these decode to the record and the
/// transaction that were stored together.
pub proof fn lemma_pool_entry_read_back(tx: TransactionView, meta: TxPoolMetaView, hash: &[u8])
    requires
        Transaction::valid(tx),
        TxPoolMeta::valid(meta),
        hash@ == tx.hash,
    ensures
        pool_entry_insertions(tx, meta).len() == 2,
        reads_back(Query::TxpoolMeta(hash), pool_entry_insertions(tx, meta)[0]),
        reads_back(Query::TxpoolTx(hash), pool_entry_insertions(tx, meta)[1]),
        pool_entry_insertions(tx, meta)[0].key == pool_entry_insertions(tx, meta)[1].key,
        TxPoolMeta::decoding(pool_entry_insertions(tx, meta)[0].value) == Ok::<
            TxPoolMetaView,
            DecodeError,
        >(meta),
        Transaction::decoding(pool_entry_insertions(tx, meta)[1].value) == Ok::<
            TransactionView,
            DecodeError,
        >(tx),
{
    TxPoolMeta::lemma_decode_encode(meta);
    Transaction::lemma_decode_encode(tx);
}

} // verus!
