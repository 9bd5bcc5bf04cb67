//! From what the engine gave back to what the caller is told.

use vstd::prelude::*;
use crate::error::{
    failure, is_database_error, lookup_failure, DecodeError, EngineError, Error, NOT_FOUND_CODE,
};
use crate::lookup::{Lookup, LookupView};
use crate::lazy::{Lazy, LazyView};
use crate::record::block::{BlockInfo, BlockInfoView};
use crate::record::Record;
use crate::schema::Table;

verus! {

/// What a lookup gave back, as contracts speak of it: the stored bytes, or
/// the engine's failure.
pub open spec fn fetched_view(fetched: Result<Vec<u8>, EngineError>) -> Result<
    Seq<u8>,
    EngineError,
> {
    match fetched {
        Ok(bytes) => Ok(bytes@),
        Err(e) => Err(e),
    }
}

/// True where `r` is what a caller is told of a record after the lookup
/// gave `fetched`: the engine's failure as a database error; the bytes as
/// they are where no decoding was asked for; else the record, or a decoding
/// error where the bytes are none.
pub open spec fn is_answer<T: Record>(
    fetched: Result<Seq<u8>, EngineError>,
    parse: bool,
    r: Result<Lazy<T>, Error>,
) -> bool {
    match fetched {
        Err(e) => r == Err::<Lazy<T>, Error>(Error::DatabaseError(e)),
        Ok(bytes) => if parse {
            match T::decoding(bytes) {
                Ok(v) => r is Ok && r->Ok_0@ == LazyView::<T::V>::Decoded(v),
                Err(d) => r == Err::<Lazy<T>, Error>(Error::MoneroDecodingError(d)),
            }
        } else {
            r is Ok && r->Ok_0@ == LazyView::<T::V>::Undecoded(bytes)
        },
    }
}

/// What a caller is told of a record after the lookup gave `fetched`.
pub fn answer<T: Record>(fetched: Result<Vec<u8>, EngineError>, parse: bool) -> (r: Result<
    Lazy<T>,
    Error,
>)
    ensures
        is_answer::<T>(fetched_view(fetched), parse, r),
        r matches Ok(rec) ==> Lazy::<T>::valid(rec@),
{
    match fetched {
        Err(e) => Err(Error::DatabaseError(e)),
        Ok(bytes) => {
            if parse {
                proof {
                    T::lemma_decoding_valid(bytes@);
                }
                match T::decode(bytes.as_slice()) {
                    Ok(rec) => Ok(Lazy::Decoded(rec)),
                    Err(d) => Err(Error::MoneroDecodingError(d)),
                }
            } else {
                Ok(Lazy::Undecoded(bytes))
            }
        },
    }
}

/// True where `r` is what a caller is told of a value that is always
/// decoded after the lookup gave `fetched`.
pub open spec fn is_decoded_answer<T: Record>(
    fetched: Result<Seq<u8>, EngineError>,
    r: Result<T, Error>,
) -> bool {
    match fetched {
        Err(e) => r == Err::<T, Error>(Error::DatabaseError(e)),
        Ok(bytes) => match T::decoding(bytes) {
            Ok(v) => r is Ok && r->Ok_0@ == v,
            Err(d) => r == Err::<T, Error>(Error::MoneroDecodingError(d)),
        },
    }
}

/// What a caller is told of a value that is always decoded after the lookup
/// gave `fetched`.
pub fn decoded_answer<T: Record>(fetched: Result<Vec<u8>, EngineError>) -> (r: Result<T, Error>)
    ensures
        is_decoded_answer::<T>(fetched_view(fetched), r),
        r matches Ok(rec) ==> T::valid(rec@),
{
    match fetched {
        Err(e) => Err(Error::DatabaseError(e)),
        Ok(bytes) => {
            proof {
                T::lemma_decoding_valid(bytes@);
            }
            match T::decode(bytes.as_slice()) {
                Ok(rec) => Ok(rec),
                Err(d) => Err(Error::MoneroDecodingError(d)),
            }
        },
    }
}

/// True where `r` is what a caller is told of bytes that are never decoded
/// after the lookup gave `fetched`.
pub open spec fn is_raw_answer(
    fetched: Result<Seq<u8>, EngineError>,
    r: Result<Vec<u8>, Error>,
) -> bool {
    match fetched {
        Err(e) => r == Err::<Vec<u8>, Error>(Error::DatabaseError(e)),
        Ok(bytes) => r is Ok && r->Ok_0@ == bytes,
    }
}

/// What a caller is told of bytes that are never decoded after the lookup
/// gave `fetched`.
pub fn raw_answer(fetched: Result<Vec<u8>, EngineError>) -> (r: Result<Vec<u8>, Error>)
    ensures
        is_raw_answer(fetched_view(fetched), r),
{
    match fetched {
        Err(e) => Err(Error::DatabaseError(e)),
        Ok(bytes) => Ok(bytes),
    }
}

/// Whether a key image is spent, after the lookup of its marker gave
/// `fetched`: spent where anything was found, unspent where the engine says
/// that nothing is stored, and the engine's failure otherwise.
pub open spec fn spent(fetched: Result<Seq<u8>, EngineError>) -> Result<bool, Error> {
    match fetched {
        Ok(_) => Ok(true),
        Err(e) => if e.code == NOT_FOUND_CODE {
            Ok(false)
        } else {
            Err(Error::DatabaseError(e))
        },
    }
}

/// Whether a key image is spent, after the lookup of its marker gave
/// `fetched`.
pub fn spent_answer(fetched: Result<Vec<u8>, EngineError>) -> (r: Result<bool, Error>)
    ensures
        r == spent(fetched_view(fetched)),
{
    match fetched {
        Ok(_) => Ok(true),
        Err(e) => {
            if e.is_not_found() {
                Ok(false)
            } else {
                Err(Error::DatabaseError(e))
            }
        },
    }
}

/// True of the failure that says that the lookup `lookup` finds nothing.
pub open spec fn is_not_found_at(e: Error, lookup: LookupView) -> bool {
    is_database_error(
        e,
        lookup_failure(NOT_FOUND_CODE, lookup.table, lookup.key, lookup.data),
    )
}

/// The failure that says that the lookup `lookup` finds nothing.
pub fn not_found_error(lookup: &Lookup) -> (e: Error)
    ensures
        is_not_found_at(e, lookup@),
{
    Error::DatabaseError(
        EngineError::at_lookup(
            NOT_FOUND_CODE,
            lookup.table,
            lookup.key.as_slice(),
            lookup.data.as_slice(),
        ),
    )
}

/// One more than the largest 128-bit unsigned integer.
pub open spec fn two_pow_128() -> nat {
    (u128::MAX + 1) as nat
}

/// The work done by a block alone: its cumulative difficulty less that of
/// the block before it, in 128-bit unsigned arithmetic.
pub open spec fn difficulty_between(prev: BlockInfoView, block: BlockInfoView) -> nat {
    if block.cumulative_difficulty() >= prev.cumulative_difficulty() {
        (block.cumulative_difficulty() - prev.cumulative_difficulty()) as nat
    } else {
        (block.cumulative_difficulty() + two_pow_128() - prev.cumulative_difficulty()) as nat
    }
}

/// The work done by a block alone, from what is recorded of it and of the
/// block before it.
pub fn block_difficulty(prev: &BlockInfo, block: &BlockInfo) -> (difficulty: u128)
    ensures
        difficulty == difficulty_between(prev@, block@),
        block@.cumulative_difficulty() >= prev@.cumulative_difficulty() ==> difficulty
            == block@.cumulative_difficulty() - prev@.cumulative_difficulty(),
{
    let before = prev.cumulative_difficulty();
    let after = block.cumulative_difficulty();
    if after >= before {
        after - before
    } else {
        u128::MAX - before + after + 1
    }
}

/// How the count of a table's entries goes on after a step of the cursor.
#[derive(Debug, PartialEq, Eq)]
pub enum Walk {
    /// An entry was found: so many are counted now, and the cursor steps
    /// on.
    On(u64),
    /// The walk is over, with the count or with the failure that stopped
    /// it.
    Done(Result<u64, Error>),
}

/// How the count goes on from `seen` entries after a step of the cursor
/// gave `found`: an entry found is one more, and a failure ends the walk as
/// `counted` says.
pub open spec fn spec_count_step(seen: u64, found: Result<Seq<u8>, EngineError>) -> Walk {
    match found {
        Ok(_) => Walk::On((seen + 1) as u64),
        Err(e) => Walk::Done(counted(seen, e)),
    }
}

/// How the count goes on from `seen` entries after a step of the cursor
/// gave `found`.
pub fn count_step(seen: u64, found: Result<Vec<u8>, EngineError>) -> (next: Walk)
    requires
        seen < u64::MAX,
    ensures
        next == spec_count_step(seen, fetched_view(found)),
{
    match found {
        Ok(_) => Walk::On(seen + 1),
        Err(e) => Walk::Done(count_answer(seen, e)),
    }
}

/// The count of a table's entries, or the failure that stopped it, where
/// `seen` entries were counted already and the steps of the cursor from
/// then on give `walk`, one after the other: each step goes on as
/// `spec_count_step` says, and the count ends at the largest number that it
/// can hold.
pub open spec fn walk_count(walk: Seq<Result<Seq<u8>, EngineError>>, seen: u64) -> Result<
    u64,
    Error,
>
    decreases walk.len(),
{
    if walk.len() == 0 || seen == u64::MAX {
        Ok(seen)
    } else {
        match spec_count_step(seen, walk[0]) {
            Walk::On(counted) => walk_count(walk.drop_first(), counted),
            Walk::Done(r) => r,
        }
    }
}

/// Where the first steps of a walk all find an entry, the count goes on
/// after them with as many entries more.
pub proof fn lemma_walk_found(
    found: Seq<Result<Seq<u8>, EngineError>>,
    rest: Seq<Result<Seq<u8>, EngineError>>,
    seen: u64,
)
    requires
        forall|i: int| 0 <= i < found.len() ==> (#[trigger] found[i]) is Ok,
        seen + found.len() <= u64::MAX,
    ensures
        walk_count(found + rest, seen) == walk_count(rest, (seen + found.len()) as u64),
    decreases found.len(),
{
    if found.len() == 0 {
        assert(found + rest =~= rest);
    } else {
        let all = found + rest;
        assert(all[0] == found[0]);
        assert(all.drop_first() =~= found.drop_first() + rest);
        lemma_walk_found(found.drop_first(), rest, (seen + 1) as u64);
    }
}

/// True of the answers that a cursor gives on a walk over `table` from the
/// first entry to the end: every step but the last finds an entry, and the
/// last is a failure of the engine on the table, which ends the walk,
/// unless as many entries were found as the count can hold.
pub open spec fn is_whole_walk(walk: Seq<Result<Seq<u8>, EngineError>>, table: Table) -> bool {
    &&& 1 <= walk.len() <= u64::MAX
    &&& forall|i: int| 0 <= i < walk.len() - 1 ==> (#[trigger] walk[i]) is Ok
    &&& match walk.last() {
        Ok(_) => walk.len() == u64::MAX,
        Err(e) => e@ == failure(e.code, Some(table), Seq::empty()),
    }
}

/// True where `r` is the outcome of counting the entries of `table`: the
/// engine's failure to begin the read or to open the cursor, as a failure
/// on the table; or what `walk_count` makes, from no entry seen, of the
/// answers that the cursor gave on a walk over the whole table.
pub open spec fn is_count(table: Table, r: Result<u64, Error>) -> bool {
    ||| r is Err && exists|code: i32|
        is_database_error(r->Err_0, #[trigger] failure(code, Some(table), Seq::empty()))
    ||| exists|walk: Seq<Result<Seq<u8>, EngineError>>|
        is_whole_walk(walk, table) && r == #[trigger] walk_count(walk, 0)
}

/// On a walk over a whole table the count is the number of entries found
/// before the engine said that none is left, and any other failure of the
/// engine is the outcome.
pub proof fn lemma_count_of_whole_walk(walk: Seq<Result<Seq<u8>, EngineError>>, table: Table)
    requires
        is_whole_walk(walk, table),
    ensures
        walk.last() matches Err(e) ==> walk_count(walk, 0) == counted(
            (walk.len() - 1) as u64,
            e,
        ),
        walk.last() matches Err(e) ==> (e.code == NOT_FOUND_CODE ==> walk_count(walk, 0) == Ok::<
            u64,
            Error,
        >((walk.len() - 1) as u64)),
        walk.last() is Ok ==> walk_count(walk, 0) == Ok::<u64, Error>(u64::MAX),
        walk.len() == 1 && walk[0] is Err && walk[0]->Err_0.code == NOT_FOUND_CODE ==> walk_count(
            walk,
            0,
        ) == Ok::<u64, Error>(0),
{
    if walk.last() is Ok {
        lemma_walk_found(walk, Seq::empty(), 0);
        assert(walk + Seq::empty() =~= walk);
    } else {
        let found = walk.drop_last();
        let end = seq![walk.last()];
        assert(walk =~= found + end);
        lemma_walk_found(found, end, 0);
        assert(end.drop_first().len() == 0);
    }
}

/// The difficulty of a block, after the lookups of what is recorded of the
/// block before it and of the block itself gave `prev` and `block`: the
/// first failure in the order lookup of the block before, its decoding,
/// lookup of the block, its decoding; and where there is none, the
/// difference of the two cumulative difficulties.
pub open spec fn difficulty(
    prev: Result<Seq<u8>, EngineError>,
    block: Result<Seq<u8>, EngineError>,
) -> Result<u128, Error> {
    match prev {
        Err(e) => Err(Error::DatabaseError(e)),
        Ok(prev_bytes) => match BlockInfo::decoding(prev_bytes) {
            Err(d) => Err(Error::MoneroDecodingError(d)),
            Ok(before) => match block {
                Err(e) => Err(Error::DatabaseError(e)),
                Ok(block_bytes) => match BlockInfo::decoding(block_bytes) {
                    Err(d) => Err(Error::MoneroDecodingError(d)),
                    Ok(this) => Ok(difficulty_between(before, this) as u128),
                },
            },
        },
    }
}

/// The difficulty of a block of which the block before it is recorded as
/// `before`, after the lookup of what is recorded of the block itself gave
/// `block`.
pub fn difficulty_after(before: &BlockInfo, block: Result<Vec<u8>, EngineError>) -> (r: Result<
    u128,
    Error,
>)
    ensures
        match fetched_view(block) {
            Err(e) => r == Err::<u128, Error>(Error::DatabaseError(e)),
            Ok(bytes) => match BlockInfo::decoding(bytes) {
                Err(d) => r == Err::<u128, Error>(Error::MoneroDecodingError(d)),
                Ok(this) => r == Ok::<u128, Error>(difficulty_between(before@, this) as u128),
            },
        },
{
    match decoded_answer::<BlockInfo>(block) {
        Ok(this) => Ok(block_difficulty(before, &this)),
        Err(e) => Err(e),
    }
}

/// The difficulty of a block, after the lookups of what is recorded of the
/// block before it and of the block itself gave `prev` and `block`.
pub fn difficulty_answer(
    prev: Result<Vec<u8>, EngineError>,
    block: Result<Vec<u8>, EngineError>,
) -> (r: Result<u128, Error>)
    ensures
        r == difficulty(fetched_view(prev), fetched_view(block)),
{
    match decoded_answer::<BlockInfo>(prev) {
        Ok(before) => difficulty_after(&before, block),
        Err(e) => Err(e),
    }
}

/// Where the lookup of the block before fails, or gives bytes that are no
/// record, the difficulty does not depend on the lookup of the block.
pub proof fn lemma_difficulty_fails_early(
    prev: Result<Seq<u8>, EngineError>,
    block: Result<Seq<u8>, EngineError>,
    other: Result<Seq<u8>, EngineError>,
)
    requires
        prev is Err || BlockInfo::decoding(prev->Ok_0) is Err,
    ensures
        difficulty(prev, block) == difficulty(prev, other),
        difficulty(prev, block) is Err,
{
}

/// The number of entries counted in a table, or the failure that stopped
/// the count: the count is complete where the engine says that no entry is
/// left.
pub open spec fn counted(seen: u64, stopped_by: EngineError) -> Result<u64, Error> {
    if stopped_by.code == NOT_FOUND_CODE {
        Ok(seen)
    } else {
        Err(Error::DatabaseError(stopped_by))
    }
}

/// The number of entries counted in a table, or the failure that stopped
/// the count.
pub fn count_answer(seen: u64, stopped_by: EngineError) -> (r: Result<u64, Error>)
    ensures
        r == counted(seen, stopped_by),
{
    if stopped_by.is_not_found() {
        Ok(seen)
    } else {
        Err(Error::DatabaseError(stopped_by))
    }
}

/// A record that was written and is read back is the record again: where
/// the lookup gives the stored form of a valid record and decoding is
/// asked for, the caller is told that record.
pub proof fn lemma_written_record_read_back<T: Record>(v: T::V, r: Result<Lazy<T>, Error>)
    requires
        T::valid(v),
        is_answer::<T>(Ok(T::encoding(v)), true, r),
    ensures
        r is Ok,
        r->Ok_0@ == LazyView::<T::V>::Decoded(v),
        Lazy::<T>::forced(r->Ok_0@) == Ok::<T::V, DecodeError>(v),
{
    T::lemma_decode_encode(v);
}

/// Where no decoding is asked for, forcing what the caller is told gives
/// what the caller would have been told had decoding been asked for.
pub proof fn lemma_force_later<T: Record>(
    fetched: Result<Seq<u8>, EngineError>,
    lazy: Result<Lazy<T>, Error>,
    eager: Result<Lazy<T>, Error>,
)
    requires
        is_answer::<T>(fetched, false, lazy),
        is_answer::<T>(fetched, true, eager),
    ensures
        lazy matches Ok(l) ==> match Lazy::<T>::forced(l@) {
            Ok(v) => eager is Ok && eager->Ok_0@ == LazyView::<T::V>::Decoded(v),
            Err(d) => eager == Err::<Lazy<T>, Error>(Error::MoneroDecodingError(d)),
        },
        lazy is Err ==> eager == lazy,
{
}

/// A key image is reported spent exactly where the lookup of its marker
/// found something, and unspent exactly where the engine said that nothing
/// is stored; any other failure of the engine is handed on.
pub proof fn lemma_spent_iff_found(fetched: Result<Seq<u8>, EngineError>)
    ensures
        spent(fetched) == Ok::<bool, Error>(true) <==> fetched is Ok,
        spent(fetched) == Ok::<bool, Error>(false) <==> fetched is Err && fetched->Err_0.code
            == NOT_FOUND_CODE,
        spent(fetched) is Err <==> fetched is Err && fetched->Err_0.code != NOT_FOUND_CODE,
        spent(fetched) matches Err(e) ==> e == Error::DatabaseError(fetched->Err_0),
{
}

/// The difficulty of a block is the cumulative difficulty recorded for it
/// less the one recorded for the block before it, wherever the chain's
/// cumulative difficulty does not fall.
pub proof fn lemma_difficulty_is_difference(prev: BlockInfoView, block: BlockInfoView)
    requires
        prev.cumulative_difficulty() <= block.cumulative_difficulty(),
    ensures
        difficulty_between(prev, block) == block.cumulative_difficulty()
            - prev.cumulative_difficulty(),
        prev.cumulative_difficulty() + difficulty_between(prev, block)
            == block.cumulative_difficulty(),
{
}

} // verus!
