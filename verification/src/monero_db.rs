//! The database: one accessor for each question it answers, and the two
//! insertions it accepts.

use vstd::prelude::*;
use crate::answer::{
    answer, count_step, decoded_answer, difficulty, difficulty_after, fetched_view, is_answer,
    is_count, is_not_found_at, is_raw_answer, is_whole_walk, lemma_walk_found, not_found_error, raw_answer, spent,
    spent_answer, walk_count, Walk,
};
use crate::engine::{
    begin_ro_txn, begin_rw_txn, cursor_get, cursor_put, open_environment, open_ro_cursor,
    open_rw_cursor, txn_commit,
};
use crate::error::{failure, is_database_error, lookup_failure, EngineError, Error};
use crate::lazy::Lazy;
use crate::lookup::{is_hash_length_error, walk_lookup, Lookup, LookupView, Property, Query};
use crate::record::block::{AltBlock, Block, BlockHeight, BlockInfo};
use crate::record::transaction::{
    OutTx, PreRctOutkey, RctOutkey, Transaction, TransactionPruned, TxIndex, TxOutputIdx,
    TxPoolMeta,
};
use crate::record::Record;
use crate::schema::{open_config, Table};
use crate::sub_db::MoneroSubDB;
use crate::write::{all_fit, check_writable, plan_alt_block, plan_pool_entry, Write};

verus! {

/// Reads, in a read transaction of its own, the value that a cursor on the
/// table of the handle `db` finds with the lookup's key, value and
/// operation.
fn read_item(env: &lmdb::Environment, db: lmdb::Database, lookup: &Lookup) -> (r: Result<
    Vec<u8>,
    i32,
>)
    requires
        lookup@.fits(),
{
    let transaction = begin_ro_txn(env)?;
    let cursor = open_ro_cursor(&transaction, db)?;
    cursor_get(&cursor, lookup, lookup.op.code())
}

/// True where `fetched` is what a caller of `get_raw_item` is handed after
/// the engine gave `read` for `lookup`: the value found, or the engine's
/// failure with the lookup's table, key and value.
pub open spec fn is_fetched(
    lookup: LookupView,
    read: Result<Seq<u8>, i32>,
    fetched: Result<Vec<u8>, EngineError>,
) -> bool {
    match read {
        Ok(bytes) => fetched is Ok && fetched->Ok_0@ == bytes,
        Err(code) => fetched is Err && fetched->Err_0@ == lookup_failure(
            code,
            lookup.table,
            lookup.key,
            lookup.data,
        ),
    }
}

/// What a caller of `get_raw_item` is handed after the engine gave `read`
/// for `lookup`.
pub fn fetched_from(lookup: &Lookup, read: Result<Vec<u8>, i32>) -> (fetched: Result<
    Vec<u8>,
    EngineError,
>)
    ensures
        is_fetched(
            lookup@,
            match read {
                Ok(bytes) => Ok(bytes@),
                Err(code) => Err(code),
            },
            fetched,
        ),
{
    match read {
        Ok(bytes) => Ok(bytes),
        Err(code) => Err(
            EngineError::at_lookup(
                code,
                lookup.table,
                lookup.key.as_slice(),
                lookup.data.as_slice(),
            ),
        ),
    }
}

/// Reads, in a read transaction of its own, the value that a cursor on the
/// lookup's table finds with the lookup's key, value and operation. A
/// failure names the lookup's table and key.
pub fn get_raw_item(env: &lmdb::Environment, sub_dbs: &MoneroSubDB, lookup: &Lookup) -> (r: Result<
    Vec<u8>,
    EngineError,
>)
    requires
        lookup@.fits(),
    ensures
        r matches Err(e) ==> e@.table == Some(lookup@.table) && e@.key == lookup@.key && e@.data
            == lookup@.data,
{
    fetched_from(lookup, read_item(env, sub_dbs.handle(lookup.table), lookup))
}

/// Counts the entries of `table` in a read transaction of its own, every
/// value of every key: the cursor goes to the first entry and then on from
/// entry to entry, and the count is what `walk_count` makes of its answers.
/// A failure names the table.
pub fn count_items(env: &lmdb::Environment, sub_dbs: &MoneroSubDB, table: Table) -> (r: Result<
    u64,
    Error,
>)
    ensures
        is_count(table, r),
        r matches Err(e) ==> e matches Error::DatabaseError(f) && f@.table == Some(table),
{
    let transaction = match begin_ro_txn(env) {
        Ok(t) => t,
        Err(code) => {
            let e = Error::DatabaseError(EngineError::at_table(code, table));
            assert(is_database_error(e, failure(code, Some(table), Seq::empty())));
            return Err(e);
        },
    };
    let cursor = match open_ro_cursor(&transaction, sub_dbs.handle(table)) {
        Ok(c) => c,
        Err(code) => {
            let e = Error::DatabaseError(EngineError::at_table(code, table));
            assert(is_database_error(e, failure(code, Some(table), Seq::empty())));
            return Err(e);
        },
    };
    let mut seen: u64 = 0;
    let ghost mut walk: Seq<Result<Seq<u8>, EngineError>> = Seq::empty();
    while seen < u64::MAX
        invariant
            seen <= u64::MAX,
            walk.len() == seen,
            forall|i: int| 0 <= i < walk.len() ==> (#[trigger] walk[i]) is Ok,
        decreases u64::MAX - seen,
    {
        let step = walk_lookup(table, seen);
        let found = match cursor_get(&cursor, &step, step.op.code()) {
            Ok(bytes) => Ok(bytes),
            Err(code) => Err(EngineError::at_table(code, table)),
        };
        let ghost answer = fetched_view(found);
        match count_step(seen, found) {
            Walk::On(counted) => {
                proof {
                    walk = walk.push(answer);
                }
                seen = counted;
            },
            Walk::Done(r) => {
                proof {
                    let whole = walk.push(answer);
                    lemma_walk_found(walk, seq![answer], 0);
                    assert(whole =~= walk + seq![answer]);
                    assert(seq![answer].drop_first().len() == 0);
                    assert(r == walk_count(whole, 0));
                    assert(is_whole_walk(whole, table));
                }
                return r;
            },
        }
    }
    proof {
        lemma_walk_found(walk, Seq::empty(), 0);
        assert(walk + Seq::empty() =~= walk);
        assert(Ok::<u64, Error>(seen) == walk_count(walk, 0));
        assert(is_whole_walk(walk, table));
    }
    Ok(seen)
}

/// Makes one insertion in an open write transaction, through a cursor on
/// the table of the handle `db`.
fn put_item<'env>(
    transaction: &mut lmdb::RwTransaction<'env>,
    db: lmdb::Database,
    write: &Write,
) -> (r: Result<(), i32>)
    requires
        write@.fits(),
{
    let mut cursor = open_rw_cursor(transaction, db)?;
    cursor_put(&mut cursor, write, write.flags())
}

/// Makes every insertion of `writes`, in order, in one write transaction:
/// all of them are stored, or on the first failure none. On a store opened
/// read-only nothing is asked of the engine and the read-only error is the
/// result.
pub fn put_items(
    env: &lmdb::Environment,
    sub_dbs: &MoneroSubDB,
    read_only: bool,
    writes: &Vec<Write>,
) -> (r: Result<(), Error>)
    requires
        all_fit(writes@),
    ensures
        read_only <==> r == Err::<(), Error>(Error::ReadOnly),
        r matches Err(e) ==> e is ReadOnly || e is DatabaseError,
        r matches Err(Error::DatabaseError(f)) ==> f@.table is None || exists|i: int|
            0 <= i < writes@.len() && f@.table == Some(writes@[i].table) && f@.key == (
            #[trigger] writes@[i]).key@,
{
    match check_writable(read_only) {
        Ok(()) => {},
        Err(e) => {
            return Err(e);
        },
    }
    let mut transaction = match begin_rw_txn(env) {
        Ok(t) => t,
        Err(code) => {
            return Err(Error::DatabaseError(EngineError::of_code(code)));
        },
    };
    let mut i: usize = 0;
    while i < writes.len()
        invariant
            i <= writes@.len(),
            all_fit(writes@),
            !read_only,
        decreases writes@.len() - i,
    {
        match put_item(&mut transaction, sub_dbs.handle(writes[i].table), &writes[i]) {
            Ok(()) => {},
            Err(code) => {
                return Err(
                    Error::DatabaseError(
                        EngineError::at_key(code, writes[i].table, writes[i].key.as_slice()),
                    ),
                );
            },
        }
        i = i + 1;
    }
    match txn_commit(transaction) {
        Ok(()) => Ok(()),
        Err(code) => Err(Error::DatabaseError(EngineError::of_code(code))),
    }
}

/// True of a database error that names the table, the key and the value
/// that are handed to the cursor to answer `query`, and of every other
/// error.
pub open spec fn names_lookup(e: Error, query: Query) -> bool {
    e matches Error::DatabaseError(f) ==> f@.table == Some(query.lookup().table) && f@.key
        == query.lookup().key && f@.data == query.lookup().data
}

/// True where `r` is what a caller is told of a record in reply to
/// `query`: a value error where the query is asked about a hash that is not
/// 32 bytes long; and else what `is_answer` says of what the engine gave,
/// a failure of the engine naming the table and key of the query's lookup.
pub open spec fn is_reply<T: Record>(query: Query, parse: bool, r: Result<Lazy<T>, Error>) -> bool {
    if query.well_formed() {
        &&& exists|fetched: Result<Seq<u8>, EngineError>| is_answer::<T>(fetched, parse, r)
        &&& r matches Err(e) ==> names_lookup(e, query)
    } else {
        r is Err && is_hash_length_error(r->Err_0)
    }
}

/// Struct containing the data needed to interact with a Monero database.
pub struct MoneroDB {
    /// The engine's environment.
    pub env: lmdb::Environment,
    sub_dbs: MoneroSubDB,
    read_only: bool,
}

impl MoneroDB {
    /// True where the database was opened read-only.
    pub closed spec fn spec_is_readonly(&self) -> bool {
        self.read_only
    }

    /// Opens the Monero database in the directory `dir`: the environment as
    /// `open_config` says; then `grow`, which is to grow the memory map to
    /// the size of the store; then every table, created where it is missing;
    /// then `install`, which is to put on the tables the orders that their
    /// descriptors name. The first failure ends the opening and is the
    /// result, so that a database is given out only where its orders were
    /// installed.
    pub fn open<
        G: FnOnce(&lmdb::Environment) -> Result<(), i32>,
        F: FnOnce(&lmdb::Environment, &MoneroSubDB) -> Result<(), i32>,
    >(dir: &str, read_only: bool, grow: G, install: F) -> (r: Result<MoneroDB, Error>)
        requires
            forall|env: lmdb::Environment| call_requires(grow, (&env,)),
            forall|env: lmdb::Environment, sub_dbs: MoneroSubDB|
                call_requires(install, (&env, &sub_dbs)),
        ensures
            r matches Ok(db) ==> {
                &&& db.spec_is_readonly() == read_only
                &&& exists|done: Result<(), i32>|
                    done is Ok && call_ensures(grow, (&db.spec_env(),), done)
                &&& exists|done: Result<(), i32>|
                    done is Ok && call_ensures(
                        install,
                        (&db.spec_env(), &db.spec_sub_dbs()),
                        done,
                    )
            },
            r matches Err(e) ==> e is DatabaseError,
    {
        let config = open_config(read_only);
        let env = match open_environment(&config, dir) {
            Ok(env) => env,
            Err(code) => {
                return Err(Error::DatabaseError(EngineError::of_code(code)));
            },
        };
        let grown = grow(&env);
        match grown {
            Ok(()) => {},
            Err(code) => {
                return Err(Error::DatabaseError(EngineError::of_code(code)));
            },
        }
        let db = match MoneroDB::new(env, read_only, install) {
            Ok(db) => db,
            Err(e) => {
                return Err(e);
            },
        };
        assert(grown is Ok && call_ensures(grow, (&db.spec_env(),), grown));
        Ok(db)
    }

    /// The engine's environment that the database reads and writes.
    pub closed spec fn spec_env(&self) -> lmdb::Environment {
        self.env
    }

    /// The handles of the tables that the database reads and writes.
    pub closed spec fn spec_sub_dbs(&self) -> MoneroSubDB {
        self.sub_dbs
    }

    /// Makes a database of an open environment: opens every table, created
    /// where it is missing unless the store is read-only, and then has
    /// `install` put on the tables the orders that their descriptors name.
    /// A database is given out only where its orders were installed.
    pub fn new<F: FnOnce(&lmdb::Environment, &MoneroSubDB) -> Result<(), i32>>(
        env: lmdb::Environment,
        read_only: bool,
        install: F,
    ) -> (r: Result<MoneroDB, Error>)
        requires
            forall|e: lmdb::Environment, sub_dbs: MoneroSubDB|
                call_requires(install, (&e, &sub_dbs)),
        ensures
            r matches Ok(db) ==> {
                &&& db.spec_env() == env
                &&& db.spec_is_readonly() == read_only
                &&& exists|done: Result<(), i32>|
                    done is Ok && call_ensures(
                        install,
                        (&db.spec_env(), &db.spec_sub_dbs()),
                        done,
                    )
            },
            r matches Err(e) ==> e is DatabaseError,
    {
        let sub_dbs = match MoneroSubDB::new(&env, read_only, install) {
            Ok(sub_dbs) => sub_dbs,
            Err(e) => {
                return Err(e);
            },
        };
        let ghost done = choose|done: Result<(), i32>|
            done is Ok && call_ensures(install, (&env, &sub_dbs), done);
        let db = MoneroDB { env, sub_dbs, read_only };
        assert(done is Ok && call_ensures(install, (&db.spec_env(), &db.spec_sub_dbs()), done));
        Ok(db)
    }

    /// The handles of the tables that the database reads and writes.
    pub fn sub_dbs(&self) -> (handles: &MoneroSubDB)
        ensures
            *handles == self.spec_sub_dbs(),
    {
        &self.sub_dbs
    }

    /// Asks the engine what `lookup` says.
    fn fetch(&self, lookup: &Lookup) -> (r: Result<Vec<u8>, EngineError>)
        requires
            lookup@.fits(),
        ensures
            r matches Err(e) ==> e@.table == Some(lookup@.table) && e@.key == lookup@.key
                && e@.data == lookup@.data,
    {
        get_raw_item(&self.env, &self.sub_dbs, lookup)
    }

    /// Answers `query` with a record, decoded where `parse` asks for it.
    pub fn get_item<T: Record>(&self, query: Query, parse: bool) -> (r: Result<Lazy<T>, Error>)
        ensures
            is_reply::<T>(query, parse, r),
            r matches Ok(rec) ==> Lazy::<T>::valid(rec@),
    {
        let lookup = match query.plan() {
            Ok(lookup) => lookup,
            Err(e) => {
                return Err(e);
            },
        };
        let fetched = self.fetch(&lookup);
        let r = answer::<T>(fetched, parse);
        assert(is_answer::<T>(fetched_view(fetched), parse, r));
        r
    }

    /// Gets alternative block from the database.
    pub fn get_alt_block(&self, block_hash: &[u8], parse: bool) -> (r: Result<
        Lazy<AltBlock>,
        Error,
    >)
        ensures
            is_reply::<AltBlock>(Query::AltBlock(block_hash), parse, r),
            block_hash@.len() != 32 <==> r is Err && r->Err_0 is ValueError,
    {
        self.get_item::<AltBlock>(Query::AltBlock(block_hash), parse)
    }

    /// Gets block from the database.
    pub fn get_block(&self, block_height: u64, parse: bool) -> (r: Result<Lazy<Block>, Error>)
        ensures
            is_reply::<Block>(Query::Block(block_height), parse, r),
    {
        self.get_item::<Block>(Query::Block(block_height), parse)
    }

    /// Gets block info from the database.
    pub fn get_block_info(&self, block_height: u64, parse: bool) -> (r: Result<
        Lazy<BlockInfo>,
        Error,
    >)
        ensures
            is_reply::<BlockInfo>(Query::BlockInfo(block_height), parse, r),
    {
        self.get_item::<BlockInfo>(Query::BlockInfo(block_height), parse)
    }

    /// Gets the block's difficulty from the database: the cumulative
    /// difficulty recorded at its height less the one recorded at the height
    /// before. Height 0 has no block before it and is not found; the block
    /// itself is looked up only where the block before it was found and
    /// decoded.
    pub fn get_block_difficulty(&self, block_height: u64) -> (r: Result<u128, Error>)
        ensures
            block_height == 0 ==> r is Err && is_not_found_at(
                r->Err_0,
                Query::BlockInfo(0).lookup(),
            ),
            block_height >= 1 ==> exists|
                prev: Result<Seq<u8>, EngineError>,
                block: Result<Seq<u8>, EngineError>,
            | r == difficulty(prev, block),
            block_height >= 1 ==> (r matches Err(e) ==> names_lookup(
                e,
                Query::BlockInfo((block_height - 1) as u64),
            ) || names_lookup(e, Query::BlockInfo(block_height))),
    {
        if block_height == 0 {
            return match Query::BlockInfo(0).plan() {
                Ok(lookup) => Err(not_found_error(&lookup)),
                Err(e) => Err(e),
            };
        }
        let prev_lookup = match Query::BlockInfo(block_height - 1).plan() {
            Ok(lookup) => lookup,
            Err(e) => {
                return Err(e);
            },
        };
        let prev = self.fetch(&prev_lookup);
        let ghost prev_view = fetched_view(prev);
        let before = match decoded_answer::<BlockInfo>(prev) {
            Ok(info) => info,
            Err(e) => {
                assert(Err::<u128, Error>(e) == difficulty(prev_view, prev_view));
                return Err(e);
            },
        };
        let lookup = match Query::BlockInfo(block_height).plan() {
            Ok(lookup) => lookup,
            Err(e) => {
                return Err(e);
            },
        };
        let block = self.fetch(&lookup);
        let ghost block_view = fetched_view(block);
        let r = difficulty_after(&before, block);
        assert(r == difficulty(prev_view, block_view));
        r
    }

    /// Gets block height from database.
    pub fn get_block_height(&self, block_hash: &[u8], parse: bool) -> (r: Result<
        Lazy<BlockHeight>,
        Error,
    >)
        ensures
            is_reply::<BlockHeight>(Query::BlockHeight(block_hash), parse, r),
            block_hash@.len() != 32 <==> r is Err && r->Err_0 is ValueError,
    {
        self.get_item::<BlockHeight>(Query::BlockHeight(block_hash), parse)
    }

    /// Get the height of the blockchain (1 + height of max block): the
    /// number of entries in the table of block heights, counted by a walk
    /// over the table.
    pub fn get_blockchain_height(&self) -> (r: Result<u64, Error>)
        ensures
            is_count(Table::BlockHeights, r),
            r matches Err(e) ==> e is DatabaseError,
    {
        count_items(&self.env, &self.sub_dbs, Table::BlockHeights)
    }

    /// Get the transaction count of the blockchain: the number of entries
    /// in the table of pruned transactions, counted by a walk over the
    /// table.
    pub fn get_tx_count(&self) -> (r: Result<u64, Error>)
        ensures
            is_count(Table::TxsPruned, r),
            r matches Err(e) ==> e is DatabaseError,
    {
        count_items(&self.env, &self.sub_dbs, Table::TxsPruned)
    }

    /// Gets the block's hard fork version.
    pub fn get_hf_version(&self, block_height: u64, parse: bool) -> (r: Result<Lazy<u8>, Error>)
        ensures
            is_reply::<u8>(Query::HfVersion(block_height), parse, r),
    {
        self.get_item::<u8>(Query::HfVersion(block_height), parse)
    }

    /// Gets the pruned part of the transaction.
    pub fn get_tx_pruned(&self, txn_id: u64, parse: bool) -> (r: Result<
        Lazy<TransactionPruned>,
        Error,
    >)
        ensures
            is_reply::<TransactionPruned>(Query::TxPruned(txn_id), parse, r),
    {
        self.get_item::<TransactionPruned>(Query::TxPruned(txn_id), parse)
    }

    /// Gets the prunable part of the transaction, as the bytes stored.
    pub fn get_tx_prunable(&self, txn_id: u64) -> (r: Result<Vec<u8>, Error>)
        ensures
            exists|fetched: Result<Seq<u8>, EngineError>| is_raw_answer(fetched, r),
            r matches Err(e) ==> names_lookup(e, Query::TxPrunable(txn_id)),
    {
        let lookup = match Query::TxPrunable(txn_id).plan() {
            Ok(lookup) => lookup,
            Err(e) => {
                return Err(e);
            },
        };
        let fetched = self.fetch(&lookup);
        let r = raw_answer(fetched);
        assert(is_raw_answer(fetched_view(fetched), r));
        r
    }

    /// Gets the key of a RingCT output by its amount and its index among
    /// the outputs of that amount.
    pub fn get_output_rct_outkey(&self, amount: u64, amount_output_index: u64, parse: bool) -> (r:
        Result<Lazy<RctOutkey>, Error>)
        ensures
            is_reply::<RctOutkey>(Query::OutputKey(amount, amount_output_index), parse, r),
    {
        self.get_item::<RctOutkey>(Query::OutputKey(amount, amount_output_index), parse)
    }

    /// Gets the key of an output made before RingCT by its amount and its
    /// index among the outputs of that amount.
    pub fn get_output_pre_rct_outkey(
        &self,
        amount: u64,
        amount_output_index: u64,
        parse: bool,
    ) -> (r: Result<Lazy<PreRctOutkey>, Error>)
        ensures
            is_reply::<PreRctOutkey>(Query::OutputKey(amount, amount_output_index), parse, r),
    {
        self.get_item::<PreRctOutkey>(Query::OutputKey(amount, amount_output_index), parse)
    }

    /// Gets amount output indices of the transaction outputs.
    pub fn get_tx_output_idx(&self, txn_id: u64, parse: bool) -> (r: Result<
        Lazy<TxOutputIdx>,
        Error,
    >)
        ensures
            is_reply::<TxOutputIdx>(Query::TxOutputIdx(txn_id), parse, r),
    {
        self.get_item::<TxOutputIdx>(Query::TxOutputIdx(txn_id), parse)
    }

    /// Gets the hash of the prunable part of the transaction.
    pub fn get_txs_prunable_hash(&self, txn_id: u64, parse: bool) -> (r: Result<
        Lazy<crate::record::scalar::Hash>,
        Error,
    >)
        ensures
            is_reply::<crate::record::scalar::Hash>(Query::TxsPrunableHash(txn_id), parse, r),
    {
        self.get_item::<crate::record::scalar::Hash>(Query::TxsPrunableHash(txn_id), parse)
    }

    /// Gets the height of the transaction, which is recorded while the
    /// transaction's block is near the tip of the chain.
    pub fn get_txs_prunable_tip(&self, txn_id: u64, parse: bool) -> (r: Result<Lazy<u64>, Error>)
        ensures
            is_reply::<u64>(Query::TxsPrunableTip(txn_id), parse, r),
    {
        self.get_item::<u64>(Query::TxsPrunableTip(txn_id), parse)
    }

    /// Gets the height recorded in the first entry of the table of prunable
    /// tips.
    pub fn get_prunable_tip(&self, parse: bool) -> (r: Result<Lazy<u64>, Error>)
        ensures
            is_reply::<u64>(Query::PrunableTip, parse, r),
    {
        self.get_item::<u64>(Query::PrunableTip, parse)
    }

    /// Gets the transaction that made an output.
    pub fn get_output_tx(&self, output_id: u64, parse: bool) -> (r: Result<Lazy<OutTx>, Error>)
        ensures
            is_reply::<OutTx>(Query::OutputTx(output_id), parse, r),
    {
        self.get_item::<OutTx>(Query::OutputTx(output_id), parse)
    }

    /// Gets the place in the chain of a transaction.
    pub fn get_tx_indices(&self, txn_hash: &[u8], parse: bool) -> (r: Result<Lazy<TxIndex>, Error>)
        ensures
            is_reply::<TxIndex>(Query::TxIndices(txn_hash), parse, r),
            txn_hash@.len() != 32 <==> r is Err && r->Err_0 is ValueError,
    {
        self.get_item::<TxIndex>(Query::TxIndices(txn_hash), parse)
    }

    /// Returns if a key image has already been spent: true where the
    /// engine finds its marker, false where the engine says that there is
    /// none.
    pub fn is_key_image_spent(&self, spent_key: &[u8]) -> (r: Result<bool, Error>)
        ensures
            if spent_key@.len() == 32 {
                &&& exists|fetched: Result<Seq<u8>, EngineError>| r == spent(fetched)
                &&& r matches Err(e) ==> names_lookup(e, Query::KeyImage(spent_key))
            } else {
                r is Err && is_hash_length_error(r->Err_0)
            },
    {
        let lookup = match Query::KeyImage(spent_key).plan() {
            Ok(lookup) => lookup,
            Err(e) => {
                return Err(e);
            },
        };
        let fetched = self.fetch(&lookup);
        let r = spent_answer(fetched);
        assert(r == spent(fetched_view(fetched)));
        r
    }

    /// Get the transaction from transaction pool.
    pub fn get_txpool_tx(&self, txn_hash: &[u8], parse: bool) -> (r: Result<
        Lazy<Transaction>,
        Error,
    >)
        ensures
            is_reply::<Transaction>(Query::TxpoolTx(txn_hash), parse, r),
            txn_hash@.len() != 32 <==> r is Err && r->Err_0 is ValueError,
    {
        self.get_item::<Transaction>(Query::TxpoolTx(txn_hash), parse)
    }

    /// Get the TxPoolMeta from transaction pool.
    pub fn get_txpool_meta(&self, txn_hash: &[u8], parse: bool) -> (r: Result<
        Lazy<TxPoolMeta>,
        Error,
    >)
        ensures
            is_reply::<TxPoolMeta>(Query::TxpoolMeta(txn_hash), parse, r),
            txn_hash@.len() != 32 <==> r is Err && r->Err_0 is ValueError,
    {
        self.get_item::<TxPoolMeta>(Query::TxpoolMeta(txn_hash), parse)
    }

    /// Gets the version of the database, the current version is 5.
    pub fn get_db_version(&self, parse: bool) -> (r: Result<Lazy<u32>, Error>)
        ensures
            is_reply::<u32>(Query::Property(Property::Version), parse, r),
    {
        self.get_item::<u32>(Query::Property(Property::Version), parse)
    }

    /// Gets the pruning seed of the database.
    pub fn get_db_pruning_seed(&self, parse: bool) -> (r: Result<Lazy<u32>, Error>)
        ensures
            is_reply::<u32>(Query::Property(Property::PruningSeed), parse, r),
    {
        self.get_item::<u32>(Query::Property(Property::PruningSeed), parse)
    }

    /// Gets the max block size.
    pub fn get_max_block_size(&self, parse: bool) -> (r: Result<Lazy<u64>, Error>)
        ensures
            is_reply::<u64>(Query::Property(Property::MaxBlockSize), parse, r),
    {
        self.get_item::<u64>(Query::Property(Property::MaxBlockSize), parse)
    }

    /// Returns if the database is readonly.
    #[verifier::when_used_as_spec(spec_is_readonly)]
    pub fn is_readonly(&self) -> (read_only: bool)
        ensures
            read_only == self.spec_is_readonly(),
    {
        self.read_only
    }

    /// Adds an alt block to the database, under the block's identifier.
    /// Refused with the read-only error, before the engine is touched, on a
    /// database opened read-only.
    pub fn add_alt_block(&self, alt_block: &AltBlock) -> (r: Result<(), Error>)
        ensures
            self.spec_is_readonly() <==> r == Err::<(), Error>(Error::ReadOnly),
            r matches Err(e) ==> e is ReadOnly || e is DatabaseError,
    {
        let writes = match plan_alt_block(self.read_only, alt_block) {
            Ok(writes) => writes,
            Err(e) => {
                return Err(e);
            },
        };
        put_items(&self.env, &self.sub_dbs, self.read_only, &writes)
    }

    /// Adds a transaction to the transaction pool: what the pool records
    /// of it and the transaction itself, both under the transaction's hash
    /// and both in one write transaction, so that neither is stored
    /// without the other. Refused with the read-only error, before the
    /// engine is touched, on a database opened read-only.
    pub fn add_txpool_tx(&self, tx: &Transaction, tx_meta: &TxPoolMeta) -> (r: Result<(), Error>)
        ensures
            self.spec_is_readonly() <==> r == Err::<(), Error>(Error::ReadOnly),
            r matches Err(e) ==> e is ReadOnly || e is DatabaseError,
    {
        let writes = match plan_pool_entry(self.read_only, tx, tx_meta) {
            Ok(writes) => writes,
            Err(e) => {
                return Err(e);
            },
        };
        put_items(&self.env, &self.sub_dbs, self.read_only, &writes)
    }
}

} // verus!
