//! The handles of the database's tables.

use vstd::prelude::*;
use crate::engine::{create_db, open_db};
use crate::error::{failure, is_database_error, EngineError, Error};
use crate::schema::{all_tables, lemma_names, Table, TABLE_COUNT};

verus! {

/// The handle of each table of an open database. The handles are those
/// that the engine gave when the tables were opened, each kept for its
/// table.
pub struct MoneroSubDB {
    blocks: lmdb::Database,
    block_heights: lmdb::Database,
    block_info: lmdb::Database,
    txs_pruned: lmdb::Database,
    txs_prunable: lmdb::Database,
    txs_prunable_hash: lmdb::Database,
    txs_prunable_tip: lmdb::Database,
    tx_indices: lmdb::Database,
    tx_outputs: lmdb::Database,
    output_txs: lmdb::Database,
    output_amounts: lmdb::Database,
    spent_keys: lmdb::Database,
    txpool_meta: lmdb::Database,
    txpool_blob: lmdb::Database,
    alt_blocks: lmdb::Database,
    hf_versions: lmdb::Database,
    properties: lmdb::Database,
}

/// How the engine is asked for a table: to open it, or to open it and to
/// create it where it is missing, and with which flags.
#[derive(Clone, Copy, Debug, PartialEq, Eq, Structural)]
pub struct Opening {
    /// Whether the engine is to create the table where it is missing.
    pub create: bool,
    /// The flags handed to the engine where it may create the table.
    pub flags: u32,
}

/// How the engine is asked for `table`: on a store opened read-only to
/// open it, since nothing can be created there, and otherwise to open or
/// create it with the flags of its descriptor.
pub open spec fn spec_opening(table: Table, read_only: bool) -> Opening {
    Opening { create: !read_only, flags: table.spec_descriptor().spec_flags() }
}

/// How the engine is asked for `table`.
pub fn opening(table: Table, read_only: bool) -> (how: Opening)
    ensures
        how == spec_opening(table, read_only),
{
    Opening { create: !read_only, flags: table.descriptor().flags() }
}

/// True where `r` is what follows an attempt to open or create `table`
/// that gave `opened`: the handle, or the engine's failure as a failure on
/// that table.
pub open spec fn is_after_open(
    table: Table,
    opened: Result<lmdb::Database, i32>,
    r: Result<lmdb::Database, Error>,
) -> bool {
    match opened {
        Ok(db) => r == Ok::<lmdb::Database, Error>(db),
        Err(code) => r is Err && is_database_error(
            r->Err_0,
            failure(code, Some(table), Seq::empty()),
        ),
    }
}

/// What follows an attempt to open or create `table`.
pub fn after_open(table: Table, opened: Result<lmdb::Database, i32>) -> (r: Result<
    lmdb::Database,
    Error,
>)
    ensures
        is_after_open(table, opened, r),
{
    match opened {
        Ok(db) => Ok(db),
        Err(code) => Err(Error::DatabaseError(EngineError::at_table(code, table))),
    }
}

/// Opens the table under its name as `opening` says: on a store opened
/// read-only the table has to be there; otherwise it is created with the
/// flags of its descriptor where it is missing. A table that is there is
/// opened with the flags that it is stored with.
pub fn open_subdb(env: &lmdb::Environment, table: Table, read_only: bool) -> (r: Result<
    lmdb::Database,
    Error,
>)
    ensures
        exists|opened: Result<lmdb::Database, i32>| is_after_open(table, opened, r),
{
    proof {
        lemma_names(table, table);
    }
    let name = table.name();
    let how = opening(table, read_only);
    let opened = if how.create {
        create_db(env, name, how.flags)
    } else {
        open_db(env, name)
    };
    let r = after_open(table, opened);
    assert(is_after_open(table, opened, r));
    r
}

impl MoneroSubDB {
    /// The handle of `table`.
    pub closed spec fn spec_handle(&self, table: Table) -> lmdb::Database {
        match table {
            Table::Blocks => self.blocks,
            Table::BlockHeights => self.block_heights,
            Table::BlockInfo => self.block_info,
            Table::TxsPruned => self.txs_pruned,
            Table::TxsPrunable => self.txs_prunable,
            Table::TxsPrunableHash => self.txs_prunable_hash,
            Table::TxsPrunableTip => self.txs_prunable_tip,
            Table::TxIndices => self.tx_indices,
            Table::TxOutputs => self.tx_outputs,
            Table::OutputTxs => self.output_txs,
            Table::OutputAmounts => self.output_amounts,
            Table::SpentKeys => self.spent_keys,
            Table::TxpoolMeta => self.txpool_meta,
            Table::TxpoolBlob => self.txpool_blob,
            Table::AltBlocks => self.alt_blocks,
            Table::HfVersions => self.hf_versions,
            Table::Properties => self.properties,
        }
    }

    /// The handle of `table`.
    pub fn handle(&self, table: Table) -> (db: lmdb::Database)
        ensures
            db == self.spec_handle(table),
    {
        match table {
            Table::Blocks => self.blocks,
            Table::BlockHeights => self.block_heights,
            Table::BlockInfo => self.block_info,
            Table::TxsPruned => self.txs_pruned,
            Table::TxsPrunable => self.txs_prunable,
            Table::TxsPrunableHash => self.txs_prunable_hash,
            Table::TxsPrunableTip => self.txs_prunable_tip,
            Table::TxIndices => self.tx_indices,
            Table::TxOutputs => self.tx_outputs,
            Table::OutputTxs => self.output_txs,
            Table::OutputAmounts => self.output_amounts,
            Table::SpentKeys => self.spent_keys,
            Table::TxpoolMeta => self.txpool_meta,
            Table::TxpoolBlob => self.txpool_blob,
            Table::AltBlocks => self.alt_blocks,
            Table::HfVersions => self.hf_versions,
            Table::Properties => self.properties,
        }
    }

    /// The handles of `handles`, each for the table that stands at its place
    /// in `all_tables`.
    fn from_handles(handles: &Vec<lmdb::Database>) -> (sub_dbs: MoneroSubDB)
        requires
            handles@.len() == TABLE_COUNT,
        ensures
            forall|table: Table| #[trigger]
                sub_dbs.spec_handle(table) == handles@[table.spec_index() as int],
    {
        MoneroSubDB {
            blocks: handles[0],
            block_info: handles[1],
            block_heights: handles[2],
            txs_pruned: handles[3],
            txs_prunable: handles[4],
            txs_prunable_hash: handles[5],
            txs_prunable_tip: handles[6],
            tx_indices: handles[7],
            tx_outputs: handles[8],
            output_txs: handles[9],
            output_amounts: handles[10],
            spent_keys: handles[11],
            txpool_meta: handles[12],
            txpool_blob: handles[13],
            alt_blocks: handles[14],
            hf_versions: handles[15],
            properties: handles[16],
        }
    }

    /// Opens every table of the database in the order of `all_tables`, each
    /// as `open_subdb` does. The first failure ends the opening and is the
    /// result; it names the table that failed. The tables come on the
    /// engine's own orders: `new` has the orders of their descriptors
    /// installed on them.
    pub fn open_sub_dbs(env: &lmdb::Environment, read_only: bool) -> (r: Result<
        MoneroSubDB,
        Error,
    >)
        ensures
            r matches Err(e) ==> e matches Error::DatabaseError(f) && f@.table is Some && f@.key
                == Seq::<u8>::empty(),
    {
        let tables = Table::all();
        let mut handles: Vec<lmdb::Database> = Vec::new();
        let mut i: usize = 0;
        while i < tables.len()
            invariant
                i <= tables@.len(),
                tables@ == all_tables(),
                handles@.len() == i,
            decreases tables@.len() - i,
        {
            match open_subdb(env, tables[i], read_only) {
                Ok(db) => {
                    handles.push(db);
                },
                Err(e) => {
                    return Err(e);
                },
            }
            i = i + 1;
        }
        Ok(MoneroSubDB::from_handles(&handles))
    }

    /// Opens every table of the database as `open_sub_dbs` does, and then
    /// has `install` put on them the orders that their descriptors name.
    /// The handles are given out only where the orders were installed.
    pub fn new<F: FnOnce(&lmdb::Environment, &MoneroSubDB) -> Result<(), i32>>(
        env: &lmdb::Environment,
        read_only: bool,
        install: F,
    ) -> (r: Result<MoneroSubDB, Error>)
        requires
            forall|sub_dbs: MoneroSubDB| call_requires(install, (env, &sub_dbs)),
        ensures
            r matches Ok(sub_dbs) ==> exists|done: Result<(), i32>|
                done is Ok && call_ensures(install, (env, &sub_dbs), done),
            r matches Err(e) ==> e matches Error::DatabaseError(f) && f@.key == Seq::<u8>::empty(),
    {
        let sub_dbs = match MoneroSubDB::open_sub_dbs(env, read_only) {
            Ok(sub_dbs) => sub_dbs,
            Err(e) => {
                return Err(e);
            },
        };
        let installed = install(env, &sub_dbs);
        after_install(sub_dbs, installed)
    }
}

/// True where `r` is what becomes of the handles once the orders were to
/// be installed: the handles where they were, and the engine's failure on
/// no table in particular where they were not.
pub open spec fn is_after_install(
    sub_dbs: MoneroSubDB,
    installed: Result<(), i32>,
    r: Result<MoneroSubDB, Error>,
) -> bool {
    match installed {
        Ok(_) => r == Ok::<MoneroSubDB, Error>(sub_dbs),
        Err(code) => r is Err && is_database_error(r->Err_0, failure(code, None, Seq::empty())),
    }
}

/// What becomes of the handles once the orders were to be installed.
pub fn after_install(sub_dbs: MoneroSubDB, installed: Result<(), i32>) -> (r: Result<
    MoneroSubDB,
    Error,
>)
    ensures
        is_after_install(sub_dbs, installed, r),
{
    match installed {
        Ok(()) => Ok(sub_dbs),
        Err(code) => Err(Error::DatabaseError(EngineError::of_code(code))),
    }
}

} // verus!
