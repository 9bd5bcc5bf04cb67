//! From what a caller asks for to what the engine is asked: the table, the
//! key, the value to look for among a key's values, and how the cursor is
//! positioned.

use vstd::prelude::*;
use vstd::string::*;
use crate::bytes::{copy_bytes, push_bytes, u64_le, u64_to_le_bytes};
use crate::error::Error;
use crate::record::scalar::HASH_LEN;
use crate::order::{lemma_equal_rank_is_equal_lead, order, Order};
use crate::record::block::{BlockHeight, BlockHeightView, BlockInfo, BlockInfoView};
use crate::record::transaction::{
    OutTx, OutTxView, PreRctOutkey, PreRctOutkeyView, RctOutkey, RctOutkeyView, TxIndex,
    TxIndexView,
};
use crate::record::Record;
use crate::schema::{CursorOp, KeyMode, Table};

verus! {

/// A value kept in the table of properties.
#[derive(Clone, Copy, Debug, PartialEq, Eq, Structural)]
pub enum Property {
    /// The version of the database's layout.
    Version,
    /// The seed by which the database prunes.
    PruningSeed,
    /// The largest size of a block.
    MaxBlockSize,
}

/// One question that the database answers.
#[derive(Clone, Copy, Debug)]
pub enum Query<'a> {
    /// The alternative block with this hash.
    AltBlock(&'a [u8]),
    /// The block at this height.
    Block(u64),
    /// What is recorded of the block at this height.
    BlockInfo(u64),
    /// The height of the block with this hash.
    BlockHeight(&'a [u8]),
    /// The hard fork version in force at this height.
    HfVersion(u64),
    /// The transaction with this number, without its prunable part.
    TxPruned(u64),
    /// The prunable part of the transaction with this number.
    TxPrunable(u64),
    /// The output with this index among the outputs of this amount.
    OutputKey(u64, u64),
    /// The amount-local indices of the outputs of the transaction with this
    /// number.
    TxOutputIdx(u64),
    /// The hash of the prunable part of the transaction with this number.
    TxsPrunableHash(u64),
    /// The height of the transaction with this number, while it is near the
    /// tip.
    TxsPrunableTip(u64),
    /// The first entry of the table of prunable tips.
    PrunableTip,
    /// The transaction that made the output with this number.
    OutputTx(u64),
    /// The place in the chain of the transaction with this hash.
    TxIndices(&'a [u8]),
    /// The spend marker of this key image.
    KeyImage(&'a [u8]),
    /// The pool's transaction with this hash.
    TxpoolTx(&'a [u8]),
    /// What the pool records of the transaction with this hash.
    TxpoolMeta(&'a [u8]),
    /// A property of the database.
    Property(Property),
}

/// What the engine is asked.
#[derive(Clone, Debug, PartialEq, Eq)]
pub struct Lookup {
    /// The table to read.
    pub table: Table,
    /// The key handed to the cursor.
    pub key: Vec<u8>,
    /// The value handed to the cursor.
    pub data: Vec<u8>,
    /// How the cursor is positioned.
    pub op: CursorOp,
}

/// A `Lookup` as contracts speak of it.
pub struct LookupView {
    pub table: Table,
    pub key: Seq<u8>,
    pub data: Seq<u8>,
    pub op: CursorOp,
}

impl View for Lookup {
    type V = LookupView;

    open spec fn view(&self) -> LookupView {
        LookupView { table: self.table, key: self.key@, data: self.data@, op: self.op }
    }
}

/// The key of the tables that find their entries by value alone: eight
/// zero bytes.
pub open spec fn zero_key() -> Seq<u8> {
    seq![0u8, 0u8, 0u8, 0u8, 0u8, 0u8, 0u8, 0u8]
}

/// What is handed to the cursor where the operation does not read it: one
/// zero byte.
pub open spec fn unused() -> Seq<u8> {
    seq![0u8]
}

/// The entry of `table` with the key `key`.
pub open spec fn exact(table: Table, key: Seq<u8>) -> LookupView {
    LookupView { table, key, data: unused(), op: CursorOp::SetKey }
}

/// Among the values of `key` in `table`, the one that `sub_key` leads.
pub open spec fn in_duplicates(table: Table, key: Seq<u8>, sub_key: Seq<u8>) -> LookupView {
    LookupView { table, key, data: sub_key, op: CursorOp::GetBoth }
}

/// The first entry of `table`.
pub open spec fn first(table: Table) -> LookupView {
    LookupView { table, key: unused(), data: unused(), op: CursorOp::First }
}

/// The entry of `table` after the one at which the cursor stands.
pub open spec fn next(table: Table) -> LookupView {
    LookupView { table, key: unused(), data: unused(), op: CursorOp::Next }
}

/// The step of a walk over `table` after `seen` entries: to the first
/// entry where none was seen yet, and to the next entry after that.
pub open spec fn walk_step(table: Table, seen: u64) -> LookupView {
    if seen == 0 {
        first(table)
    } else {
        next(table)
    }
}

impl Property {
    /// The key of the property: its name in ASCII and a zero byte.
    pub open spec fn spec_key(self) -> Seq<u8> {
        match self {
            // "version"
            Property::Version => seq![0x76u8, 0x65u8, 0x72u8, 0x73u8, 0x69u8, 0x6fu8, 0x6eu8, 0u8],
            // "pruning_seed"
            Property::PruningSeed => seq![
                0x70u8,
                0x72u8,
                0x75u8,
                0x6eu8,
                0x69u8,
                0x6eu8,
                0x67u8,
                0x5fu8,
                0x73u8,
                0x65u8,
                0x65u8,
                0x64u8,
                0u8,
            ],
            // "max_block_size"
            Property::MaxBlockSize => seq![
                0x6du8,
                0x61u8,
                0x78u8,
                0x5fu8,
                0x62u8,
                0x6cu8,
                0x6fu8,
                0x63u8,
                0x6bu8,
                0x5fu8,
                0x73u8,
                0x69u8,
                0x7au8,
                0x65u8,
                0u8,
            ],
        }
    }

    /// The key of the property: its name in ASCII and a zero byte.
    pub fn key(self) -> (key: Vec<u8>)
        ensures
            key@ == self.spec_key(),
    {
        let mut key: Vec<u8> = Vec::new();
        match self {
            Property::Version => {
                let name: [u8; 7] = [0x76, 0x65, 0x72, 0x73, 0x69, 0x6f, 0x6e];
                push_bytes(&mut key, name.as_slice());
            },
            Property::PruningSeed => {
                let name: [u8; 12] = [
                    0x70,
                    0x72,
                    0x75,
                    0x6e,
                    0x69,
                    0x6e,
                    0x67,
                    0x5f,
                    0x73,
                    0x65,
                    0x65,
                    0x64,
                ];
                push_bytes(&mut key, name.as_slice());
            },
            Property::MaxBlockSize => {
                let name: [u8; 14] = [
                    0x6d,
                    0x61,
                    0x78,
                    0x5f,
                    0x62,
                    0x6c,
                    0x6f,
                    0x63,
                    0x6b,
                    0x5f,
                    0x73,
                    0x69,
                    0x7a,
                    0x65,
                ];
                push_bytes(&mut key, name.as_slice());
            },
        }
        key.push(0u8);
        assert(key@ =~= self.spec_key());
        key
    }
}

impl<'a> Query<'a> {
    /// The hash that the question is asked about, where it is asked about
    /// one.
    pub open spec fn hash_input(self) -> Option<Seq<u8>> {
        match self {
            Query::AltBlock(h)
            | Query::BlockHeight(h)
            | Query::TxIndices(h)
            | Query::KeyImage(h)
            | Query::TxpoolTx(h)
            | Query::TxpoolMeta(h) => Some(h@),
            _ => None,
        }
    }

    /// True unless the question is asked about a hash that is not 32 bytes
    /// long.
    pub open spec fn well_formed(self) -> bool {
        match self.hash_input() {
            Some(h) => h.len() == HASH_LEN,
            None => true,
        }
    }

    /// What the engine is asked to answer the question.
    pub open spec fn lookup(self) -> LookupView {
        match self {
            Query::AltBlock(h) => exact(Table::AltBlocks, h@),
            Query::Block(height) => exact(Table::Blocks, u64_le(height)),
            Query::BlockInfo(height) => in_duplicates(Table::BlockInfo, zero_key(), u64_le(height)),
            Query::BlockHeight(h) => in_duplicates(Table::BlockHeights, zero_key(), h@),
            Query::HfVersion(height) => exact(Table::HfVersions, u64_le(height)),
            Query::TxPruned(id) => exact(Table::TxsPruned, u64_le(id)),
            Query::TxPrunable(id) => exact(Table::TxsPrunable, u64_le(id)),
            Query::OutputKey(amount, index) => in_duplicates(
                Table::OutputAmounts,
                u64_le(amount),
                u64_le(index),
            ),
            Query::TxOutputIdx(id) => exact(Table::TxOutputs, u64_le(id)),
            Query::TxsPrunableHash(id) => exact(Table::TxsPrunableHash, u64_le(id)),
            Query::TxsPrunableTip(id) => exact(Table::TxsPrunableTip, u64_le(id)),
            Query::PrunableTip => first(Table::TxsPrunableTip),
            Query::OutputTx(id) => in_duplicates(Table::OutputTxs, zero_key(), u64_le(id)),
            Query::TxIndices(h) => in_duplicates(Table::TxIndices, zero_key(), h@),
            Query::KeyImage(k) => in_duplicates(Table::SpentKeys, zero_key(), k@),
            Query::TxpoolTx(h) => exact(Table::TxpoolBlob, h@),
            Query::TxpoolMeta(h) => exact(Table::TxpoolMeta, h@),
            Query::Property(p) => exact(Table::Properties, p.spec_key()),
        }
    }

    /// What the engine is asked to answer the question, or a value error
    /// where the question is asked about a hash that is not 32 bytes long.
    pub fn plan(self) -> (r: Result<Lookup, Error>)
        ensures
            match r {
                Ok(lookup) => self.well_formed() && lookup@ == self.lookup() && lookup@.fits(),
                Err(e) => !self.well_formed() && is_hash_length_error(e),
            },
    {
        proof {
            if self.well_formed() {
                lemma_lookup_fits_table(self);
            }
        }
        match self {
            Query::AltBlock(h) => exact_by_hash(Table::AltBlocks, h),
            Query::Block(height) => Ok(exact_by_key(Table::Blocks, u64_to_le_bytes(height))),
            Query::BlockInfo(height) => Ok(
                by_sub_key(Table::BlockInfo, u64_to_le_bytes(height)),
            ),
            Query::BlockHeight(h) => by_sub_hash(Table::BlockHeights, h),
            Query::HfVersion(height) => Ok(
                exact_by_key(Table::HfVersions, u64_to_le_bytes(height)),
            ),
            Query::TxPruned(id) => Ok(exact_by_key(Table::TxsPruned, u64_to_le_bytes(id))),
            Query::TxPrunable(id) => Ok(exact_by_key(Table::TxsPrunable, u64_to_le_bytes(id))),
            Query::OutputKey(amount, index) => Ok(
                Lookup {
                    table: Table::OutputAmounts,
                    key: u64_to_le_bytes(amount),
                    data: u64_to_le_bytes(index),
                    op: CursorOp::GetBoth,
                },
            ),
            Query::TxOutputIdx(id) => Ok(exact_by_key(Table::TxOutputs, u64_to_le_bytes(id))),
            Query::TxsPrunableHash(id) => Ok(
                exact_by_key(Table::TxsPrunableHash, u64_to_le_bytes(id)),
            ),
            Query::TxsPrunableTip(id) => Ok(
                exact_by_key(Table::TxsPrunableTip, u64_to_le_bytes(id)),
            ),
            Query::PrunableTip => Ok(first_lookup(Table::TxsPrunableTip)),
            Query::OutputTx(id) => Ok(by_sub_key(Table::OutputTxs, u64_to_le_bytes(id))),
            Query::TxIndices(h) => by_sub_hash(Table::TxIndices, h),
            Query::KeyImage(k) => by_sub_hash(Table::SpentKeys, k),
            Query::TxpoolTx(h) => exact_by_hash(Table::TxpoolBlob, h),
            Query::TxpoolMeta(h) => exact_by_hash(Table::TxpoolMeta, h),
            Query::Property(p) => Ok(exact_by_key(Table::Properties, p.key())),
        }
    }
}

/// Why a hash of the wrong length is refused.
pub open spec fn hash_length_reason() -> Seq<char> {
    "hash is not 32 bytes long"@
}

/// True of the value error that refuses a hash of the wrong length.
pub open spec fn is_hash_length_error(e: Error) -> bool {
    e matches Error::ValueError(reason) && reason@ == hash_length_reason()
}

/// The error for a hash that is not 32 bytes long.
pub fn hash_length_error() -> (e: Error)
    ensures
        is_hash_length_error(e),
{
    Error::ValueError("hash is not 32 bytes long".to_owned())
}

/// Eight zero bytes.
pub fn zero_key_bytes() -> (key: Vec<u8>)
    ensures
        key@ == zero_key(),
{
    let mut key: Vec<u8> = Vec::new();
    let mut i: usize = 0;
    while i < 8
        invariant
            i <= 8,
            key@.len() == i,
            forall|j: int| 0 <= j < i ==> key@[j] == 0u8,
        decreases 8 - i,
    {
        key.push(0u8);
        i = i + 1;
    }
    assert(key@ =~= zero_key());
    key
}

/// One zero byte.
pub fn unused_bytes() -> (bytes: Vec<u8>)
    ensures
        bytes@ == unused(),
{
    let mut bytes: Vec<u8> = Vec::new();
    bytes.push(0u8);
    assert(bytes@ =~= unused());
    bytes
}

/// The lookup of the first entry of `table`.
pub fn first_lookup(table: Table) -> (lookup: Lookup)
    ensures
        lookup@ == first(table),
        lookup@.fits(),
{
    Lookup { table, key: unused_bytes(), data: unused_bytes(), op: CursorOp::First }
}

/// The lookup that takes a walk over `table` one step on after `seen`
/// entries.
pub fn walk_lookup(table: Table, seen: u64) -> (lookup: Lookup)
    ensures
        lookup@ == walk_step(table, seen),
        lookup@.fits(),
{
    if seen == 0 {
        first_lookup(table)
    } else {
        Lookup { table, key: unused_bytes(), data: unused_bytes(), op: CursorOp::Next }
    }
}

/// The lookup of the entry of `table` with the key `key`.
pub fn exact_by_key(table: Table, key: Vec<u8>) -> (lookup: Lookup)
    ensures
        lookup@ == exact(table, key@),
{
    Lookup { table, key, data: unused_bytes(), op: CursorOp::SetKey }
}

/// The lookup, under the zero key of `table`, of the value that `sub_key`
/// leads.
pub fn by_sub_key(table: Table, sub_key: Vec<u8>) -> (lookup: Lookup)
    ensures
        lookup@ == in_duplicates(table, zero_key(), sub_key@),
{
    Lookup { table, key: zero_key_bytes(), data: sub_key, op: CursorOp::GetBoth }
}

/// The lookup of the entry of `table` whose key is the hash `hash`, or a
/// value error where `hash` is not 32 bytes long.
pub fn exact_by_hash(table: Table, hash: &[u8]) -> (r: Result<Lookup, Error>)
    ensures
        match r {
            Ok(lookup) => hash@.len() == HASH_LEN && lookup@ == exact(table, hash@),
            Err(e) => hash@.len() != HASH_LEN && is_hash_length_error(e),
        },
{
    if hash.len() != HASH_LEN {
        return Err(hash_length_error());
    }
    Ok(exact_by_key(table, copy_bytes(hash)))
}

/// The lookup, under the zero key of `table`, of the value that the hash
/// `hash` leads, or a value error where `hash` is not 32 bytes long.
pub fn by_sub_hash(table: Table, hash: &[u8]) -> (r: Result<Lookup, Error>)
    ensures
        match r {
            Ok(lookup) => hash@.len() == HASH_LEN && lookup@ == in_duplicates(
                table,
                zero_key(),
                hash@,
            ),
            Err(e) => hash@.len() != HASH_LEN && is_hash_length_error(e),
        },
{
    if hash.len() != HASH_LEN {
        return Err(hash_length_error());
    }
    Ok(by_sub_key(table, copy_bytes(hash)))
}

impl LookupView {
    /// True unless the lookup hands the cursor a key for a table with
    /// integer keys that is not eight bytes long: the engine reads such a
    /// key as an integer of the machine's width, whatever its length.
    pub open spec fn fits(self) -> bool {
        (self.op == CursorOp::SetKey || self.op == CursorOp::GetBoth) && self.table.spec_key_mode()
            == KeyMode::Integer ==> self.key.len() == 8
    }
}

/// What is asked of the engine fits the table it is asked of: an integer
/// key is eight bytes long, a value is looked for among the values of a key
/// only where a key may have several, and a hash is handed over whole.
pub proof fn lemma_lookup_fits_table(q: Query)
    requires
        q.well_formed(),
    ensures
        q.lookup().fits(),
        q.lookup().op == CursorOp::GetBoth ==> q.lookup().table.spec_duplicates(),
        q.hash_input() matches Some(h) ==> (q.lookup().key == h || q.lookup().data == h),
{
    match q {
        Query::Block(n)
        | Query::BlockInfo(n)
        | Query::HfVersion(n)
        | Query::TxPruned(n)
        | Query::TxPrunable(n)
        | Query::TxOutputIdx(n)
        | Query::TxsPrunableHash(n)
        | Query::TxsPrunableTip(n)
        | Query::OutputTx(n) => {
            crate::bytes::lemma_le_bytes_len(n as nat, 8);
        },
        Query::OutputKey(amount, index) => {
            crate::bytes::lemma_le_bytes_len(amount as nat, 8);
            crate::bytes::lemma_le_bytes_len(index as nat, 8);
        },
        _ => {},
    }
}

/// True where, in the order installed on the values of a key of the
/// query's table, what the query hands to the cursor compares equal to the
/// stored bytes `stored`: the cursor then stops at them.
pub open spec fn finds(q: Query, stored: Seq<u8>) -> bool {
    q.lookup().table.spec_dup_order() matches Some(comparator) && order(
        comparator,
        q.lookup().data,
        stored,
    ) == Order::Equal
}

/// Two integers have the same eight bytes exactly where they are the same.
proof fn lemma_u64_le_equal(x: u64, y: u64)
    ensures
        u64_le(x).len() == 8,
        u64_le(x) == u64_le(y) <==> x == y,
{
    crate::bytes::lemma_u64_le_round_trip(x);
    crate::bytes::lemma_u64_le_round_trip(y);
}

/// The lookup of what is recorded of a block finds, among the stored
/// records, exactly those of the height asked for.
pub proof fn lemma_block_info_found_by_height(height: u64, stored: BlockInfoView)
    requires
        BlockInfo::valid(stored),
    ensures
        finds(Query::BlockInfo(height), BlockInfo::encoding(stored)) <==> stored.height == height,
{
    let e = BlockInfo::encoding(stored);
    lemma_u64_le_equal(height, stored.height);
    lemma_u64_le_equal(stored.height, height);
    assert(e.take(8) =~= u64_le(stored.height));
    assert(u64_le(height).take(8) =~= u64_le(height));
    lemma_equal_rank_is_equal_lead(u64_le(height), e, 8);
}

/// The lookup of a block's height finds, among the stored records, exactly
/// those of the hash asked for.
pub proof fn lemma_block_height_found_by_hash(hash: &[u8], stored: BlockHeightView)
    requires
        BlockHeight::valid(stored),
        hash@.len() == 32,
    ensures
        finds(Query::BlockHeight(hash), BlockHeight::encoding(stored)) <==> stored.block_hash
            == hash@,
{
    let e = BlockHeight::encoding(stored);
    assert(e.take(32) =~= stored.block_hash);
    assert(hash@.take(32) =~= hash@);
    lemma_equal_rank_is_equal_lead(hash@, e, 32);
}

/// The lookup of a transaction's place in the chain finds, among the
/// stored records, exactly those of the hash asked for.
pub proof fn lemma_tx_index_found_by_hash(hash: &[u8], stored: TxIndexView)
    requires
        TxIndex::valid(stored),
        hash@.len() == 32,
    ensures
        finds(Query::TxIndices(hash), TxIndex::encoding(stored)) <==> stored.tx_hash == hash@,
{
    let e = TxIndex::encoding(stored);
    assert(e.take(32) =~= stored.tx_hash);
    assert(hash@.take(32) =~= hash@);
    lemma_equal_rank_is_equal_lead(hash@, e, 32);
}

/// The lookup of the transaction that made an output finds, among the
/// stored records, exactly those of the output asked for.
pub proof fn lemma_out_tx_found_by_output(output_id: u64, stored: OutTxView)
    requires
        OutTx::valid(stored),
    ensures
        finds(Query::OutputTx(output_id), OutTx::encoding(stored)) <==> stored.output_id
            == output_id,
{
    let e = OutTx::encoding(stored);
    lemma_u64_le_equal(output_id, stored.output_id);
    lemma_u64_le_equal(stored.output_id, output_id);
    assert(e.take(8) =~= u64_le(stored.output_id));
    assert(u64_le(output_id).take(8) =~= u64_le(output_id));
    lemma_equal_rank_is_equal_lead(u64_le(output_id), e, 8);
}

/// The lookup of an output's key finds, among the records stored for the
/// amount, exactly those of the index asked for, whether they were made
/// with RingCT or before it.
pub proof fn lemma_outkey_found_by_index(
    amount: u64,
    index: u64,
    rct: RctOutkeyView,
    pre_rct: PreRctOutkeyView,
)
    requires
        RctOutkey::valid(rct),
        PreRctOutkey::valid(pre_rct),
    ensures
        finds(Query::OutputKey(amount, index), RctOutkey::encoding(rct)) <==> rct.amount_index
            == index,
        finds(Query::OutputKey(amount, index), PreRctOutkey::encoding(pre_rct))
            <==> pre_rct.amount_index == index,
{
    let e = RctOutkey::encoding(rct);
    let f = PreRctOutkey::encoding(pre_rct);
    lemma_u64_le_equal(index, rct.amount_index);
    lemma_u64_le_equal(index, pre_rct.amount_index);
    lemma_u64_le_equal(rct.amount_index, index);
    lemma_u64_le_equal(pre_rct.amount_index, index);
    assert(e.take(8) =~= u64_le(rct.amount_index));
    assert(f.take(8) =~= u64_le(pre_rct.amount_index));
    assert(u64_le(index).take(8) =~= u64_le(index));
    lemma_equal_rank_is_equal_lead(u64_le(index), e, 8);
    lemma_equal_rank_is_equal_lead(u64_le(index), f, 8);
}

/// The lookup of a key image's spend marker finds, among the stored
/// markers, exactly the key image asked for.
pub proof fn lemma_key_image_found(key_image: &[u8], stored: Seq<u8>)
    requires
        key_image@.len() == 32,
        stored.len() == 32,
    ensures
        finds(Query::KeyImage(key_image), stored) <==> stored == key_image@,
{
    assert(stored.take(32) =~= stored);
    assert(key_image@.take(32) =~= key_image@);
    lemma_equal_rank_is_equal_lead(key_image@, stored, 32);
}

/// Whatever markers are stored, the lookup of a key image's marker finds
/// one of them exactly where the key image is among them: not before it is
/// written, and from then on.
pub proof fn lemma_marker_found_iff_stored(key_image: &[u8], markers: Set<Seq<u8>>)
    requires
        key_image@.len() == 32,
        forall|m: Seq<u8>| markers.contains(m) ==> m.len() == 32,
    ensures
        (exists|m: Seq<u8>| markers.contains(m) && finds(Query::KeyImage(key_image), m))
            <==> markers.contains(key_image@),
        !markers.contains(key_image@) ==> (exists|m: Seq<u8>|
            markers.insert(key_image@).contains(m) && finds(Query::KeyImage(key_image), m)),
{
    lemma_key_image_found(key_image, key_image@);
    assert(markers.insert(key_image@).contains(key_image@));
    if exists|m: Seq<u8>| markers.contains(m) && finds(Query::KeyImage(key_image), m) {
        let m = choose|m: Seq<u8>| markers.contains(m) && finds(Query::KeyImage(key_image), m);
        lemma_key_image_found(key_image, m);
    }
}

} // verus!
