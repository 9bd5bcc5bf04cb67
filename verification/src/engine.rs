//! The storage engine: the types and calls of the `lmdb` crate that the
//! database is read and written through. Nothing is known of what the engine
//! holds, so no call here promises what it finds. Each call hands a failure
//! on as the number that `lmdb::Error::to_err_code` gives it.

use vstd::prelude::*;
use crate::lookup::Lookup;
use crate::schema::EnvConfig;
use crate::write::Write;

verus! {

/// `lmdb::Environment`: an open environment.
#[verifier::external_type_specification]
#[verifier::external_body]
pub struct ExEnvironment(lmdb::Environment);

/// `lmdb::Database`: the handle of a table in an environment.
#[verifier::external_type_specification]
#[verifier::external_body]
pub struct ExDatabase(lmdb::Database);

/// `lmdb::RoTransaction`: a read transaction.
#[verifier::external_type_specification]
#[verifier::external_body]
pub struct ExRoTransaction<'env>(lmdb::RoTransaction<'env>);

/// `lmdb::RwTransaction`: a write transaction.
#[verifier::external_type_specification]
#[verifier::external_body]
pub struct ExRwTransaction<'env>(lmdb::RwTransaction<'env>);

/// `lmdb::RwCursor`: a cursor of a write transaction.
#[verifier::external_type_specification]
#[verifier::external_body]
pub struct ExRwCursor<'txn>(lmdb::RwCursor<'txn>);

/// `lmdb::RoCursor`: a cursor of a read transaction.
#[verifier::external_type_specification]
#[verifier::external_body]
pub struct ExRoCursor<'txn>(lmdb::RoCursor<'txn>);

/// Calls `lmdb::Environment::new` and, on the options that it gives,
/// `set_max_dbs`, `set_map_size`, `set_max_readers` and `set_flags` of
/// `lmdb::EnvironmentBuilder` with the four values of `config`, then
/// `lmdb::EnvironmentBuilder::open` on the directory that `dir` names.
#[verifier::external_body]
pub(crate) fn open_environment(config: &EnvConfig, dir: &str) -> (r: Result<
    lmdb::Environment,
    i32,
>) {
    lmdb::Environment::new()
        .set_max_dbs(config.max_tables)
        .set_map_size(config.map_size)
        .set_max_readers(config.max_readers)
        .set_flags(lmdb::EnvironmentFlags::from_bits_truncate(config.flags))
        .open(std::path::Path::new(dir))
        .map_err(|e| e.to_err_code())
}

/// Calls `lmdb::Environment::open_db` for a named table. The call panics
/// on a name that holds a zero character, which `requires` leaves out.
#[verifier::external_body]
pub(crate) fn open_db(env: &lmdb::Environment, name: &str) -> (r: Result<
    lmdb::Database,
    i32,
>)
    requires
        forall|i: int| 0 <= i < name@.len() ==> name@[i] != '\0',
{
    env.open_db(Some(name)).map_err(|e| e.to_err_code())
}

/// Calls `lmdb::Environment::create_db` for a named table, with the table
/// flags that `flags` holds: the engine opens the table, and creates it
/// with these flags where it is missing. The call panics on a name that holds a zero
/// character, which `requires` leaves out.
#[verifier::external_body]
pub(crate) fn create_db(env: &lmdb::Environment, name: &str, flags: u32) -> (r: Result<
    lmdb::Database,
    i32,
>)
    requires
        forall|i: int| 0 <= i < name@.len() ==> name@[i] != '\0',
{
    env.create_db(Some(name), lmdb::DatabaseFlags::from_bits_truncate(flags)).map_err(|e| e.to_err_code())
}

/// Calls `lmdb::Environment::begin_ro_txn`.
#[verifier::external_body]
pub(crate) fn begin_ro_txn<'env>(env: &'env lmdb::Environment) -> (r: Result<
    lmdb::RoTransaction<'env>,
    i32,
>) {
    env.begin_ro_txn().map_err(|e| e.to_err_code())
}

/// Calls `lmdb::Transaction::open_ro_cursor`.
#[verifier::external_body]
pub(crate) fn open_ro_cursor<'txn, 'env>(
    txn: &'txn lmdb::RoTransaction<'env>,
    db: lmdb::Database,
) -> (r: Result<lmdb::RoCursor<'txn>, i32>) {
    lmdb::Transaction::open_ro_cursor(txn, db).map_err(|e| e.to_err_code())
}

/// Calls `lmdb::Cursor::get` with the key and the value of `lookup` and the
/// number `op` of its operation, and copies the value found. The cursor is
/// one on the lookup's table: on a table with integer keys the engine reads
/// a key as an integer of the machine's width, whatever its length, so
/// `requires` leaves out a lookup that does not fit its table.
#[verifier::external_body]
pub(crate) fn cursor_get<'txn>(cursor: &lmdb::RoCursor<'txn>, lookup: &Lookup, op: u32) -> (r:
    Result<Vec<u8>, i32>)
    requires
        lookup@.fits(),
        op == lookup@.op.spec_code(),
{
    match lmdb::Cursor::get(cursor, Some(&lookup.key), Some(&lookup.data), op) {
        Ok(found) => Ok(found.1.to_vec()),
        Err(e) => Err(e.to_err_code()),
    }
}

/// Calls `lmdb::Environment::begin_rw_txn`, which waits while another
/// write transaction is open.
#[verifier::external_body]
pub(crate) fn begin_rw_txn<'env>(env: &'env lmdb::Environment) -> (r: Result<
    lmdb::RwTransaction<'env>,
    i32,
>) {
    env.begin_rw_txn().map_err(|e| e.to_err_code())
}

/// Calls `lmdb::RwTransaction::open_rw_cursor`.
#[verifier::external_body]
pub(crate) fn open_rw_cursor<'txn, 'env>(
    txn: &'txn mut lmdb::RwTransaction<'env>,
    db: lmdb::Database,
) -> (r: Result<lmdb::RwCursor<'txn>, i32>) {
    txn.open_rw_cursor(db).map_err(|e| e.to_err_code())
}

/// Calls `lmdb::RwCursor::put` with the key and the value of `write` and
/// the write flags that `flags` holds. The cursor is one on the table of
/// the insertion; as for a lookup, `requires` leaves out an insertion that
/// does not fit its table.
#[verifier::external_body]
pub(crate) fn cursor_put<'txn>(cursor: &mut lmdb::RwCursor<'txn>, write: &Write, flags: u32) -> (r:
    Result<(), i32>)
    requires
        write@.fits(),
        flags == write@.flags(),
{
    cursor.put(&write.key, &write.value, lmdb::WriteFlags::from_bits_truncate(flags)).map_err(
        |e| e.to_err_code(),
    )
}

/// Calls `lmdb::Transaction::commit` on a write transaction.
#[verifier::external_body]
pub(crate) fn txn_commit<'env>(txn: lmdb::RwTransaction<'env>) -> (r: Result<(), i32>) {
    lmdb::Transaction::commit(txn).map_err(|e| e.to_err_code())
}

} // verus!
