use monero_db::answer::{
    answer, block_difficulty, count_answer, count_step, decoded_answer, difficulty_after,
    difficulty_answer, not_found_error, raw_answer, spent_answer, Walk,
};
use monero_db::error::{DecodeError, EngineError, Error};
use monero_db::lazy::Lazy;
use monero_db::lookup::{
    by_sub_hash, by_sub_key, exact_by_hash, exact_by_key, first_lookup, hash_length_error,
    unused_bytes, walk_lookup, zero_key_bytes, Lookup, Property, Query,
};
use monero_db::order::{compare, compare_hash32, compare_string, compare_uint64, Order};
use monero_db::record::block::{AltBlock, BlockInfo};
use monero_db::record::transaction::{Transaction, TxPoolMeta};
use monero_db::record::Record;
use monero_db::schema::{
    grown_map_size, open_config, Comparator, CursorOp, EnvConfig, KeyMode, Table,
    TableDescriptor,
};
use monero_db::write::{check_writable, plan_alt_block, plan_pool_entry, Write};

fn info_with_difficulty(hi: u64, lo: u64) -> BlockInfo {
    BlockInfo {
        height: 0,
        timestamp: 0,
        total_coins_generated: 0,
        weight: 0,
        diff_lo: lo,
        diff_hi: hi,
        block_hash: [0u8; 32],
        cum_rct: 0,
        long_term_block_weight: 0,
    }
}

fn value_error() -> Error {
    Error::ValueError("hash is not 32 bytes long".to_string())
}

fn tiny_transaction() -> Vec<u8> {
    vec![1u8, 0, 0, 0, 0]
}

fn tiny_block() -> Vec<u8> {
    let mut bytes = vec![1u8, 0, 0];
    bytes.extend_from_slice(&[0u8; 32]);
    bytes.extend_from_slice(&[0u8; 4]);
    bytes.extend_from_slice(&tiny_transaction());
    bytes.push(0);
    bytes
}

#[test]
fn every_table_has_its_name() {
    let names: Vec<&str> = Table::all().into_iter().map(|t| t.name()).collect();
    assert_eq!(
        names,
        vec![
            "blocks",
            "block_info",
            "block_heights",
            "txs_pruned",
            "txs_prunable",
            "txs_prunable_hash",
            "txs_prunable_tip",
            "tx_indices",
            "tx_outputs",
            "output_txs",
            "output_amounts",
            "spent_keys",
            "txpool_meta",
            "txpool_blob",
            "alt_blocks",
            "hf_versions",
            "properties",
        ]
    );
}

#[test]
fn every_table_stands_at_its_index() {
    let tables = Table::all();
    assert_eq!(tables.len(), 17);
    for (i, table) in tables.iter().enumerate() {
        assert_eq!(table.index(), i);
    }
}

#[test]
fn table_flags_follow_key_mode_and_duplicates() {
    assert_eq!(Table::Blocks.descriptor().flags(), 0x08);
    assert_eq!(Table::TxsPruned.descriptor().flags(), 0x08);
    assert_eq!(Table::TxsPrunable.descriptor().flags(), 0x08);
    assert_eq!(Table::HfVersions.descriptor().flags(), 0x08);
    for table in [
        Table::BlockInfo,
        Table::BlockHeights,
        Table::TxsPrunableHash,
        Table::TxsPrunableTip,
        Table::TxIndices,
        Table::TxOutputs,
        Table::OutputTxs,
        Table::OutputAmounts,
        Table::SpentKeys,
    ] {
        assert_eq!(table.descriptor().flags(), 0x1c);
        assert!(table.descriptor().duplicates);
    }
    for table in [Table::TxpoolMeta, Table::TxpoolBlob, Table::AltBlocks, Table::Properties] {
        assert_eq!(table.descriptor().flags(), 0);
    }
}

#[test]
fn table_descriptors_name_their_orders() {
    assert_eq!(
        Table::BlockInfo.descriptor(),
        TableDescriptor {
            table: Table::BlockInfo,
            key_mode: KeyMode::Integer,
            duplicates: true,
            key_order: None,
            dup_order: Some(Comparator::Uint64),
        }
    );
    assert_eq!(
        Table::AltBlocks.descriptor(),
        TableDescriptor {
            table: Table::AltBlocks,
            key_mode: KeyMode::Lexicographic,
            duplicates: false,
            key_order: Some(Comparator::Hash32),
            dup_order: None,
        }
    );
    assert_eq!(Table::Properties.descriptor().key_order, Some(Comparator::Text));
    assert_eq!(Table::TxsPrunable.descriptor().key_order, Some(Comparator::Uint64));
    assert_eq!(Table::TxpoolMeta.descriptor().key_order, Some(Comparator::Hash32));
    assert_eq!(Table::TxpoolBlob.descriptor().key_order, Some(Comparator::Hash32));
    assert_eq!(Table::Blocks.descriptor().key_order, None);
    assert_eq!(Table::Blocks.descriptor().dup_order, None);
    for table in [Table::SpentKeys, Table::BlockHeights, Table::TxIndices] {
        assert_eq!(table.descriptor().dup_order, Some(Comparator::Hash32));
    }
    for table in [
        Table::OutputAmounts,
        Table::OutputTxs,
        Table::TxsPrunableTip,
        Table::TxsPrunableHash,
        Table::TxOutputs,
    ] {
        assert_eq!(table.descriptor().dup_order, Some(Comparator::Uint64));
    }
}

#[test]
fn environment_is_opened_without_read_ahead() {
    assert_eq!(
        open_config(false),
        EnvConfig { max_tables: 32, map_size: 1 << 30, max_readers: 126, flags: 0x80_0000 }
    );
}

#[test]
fn read_only_environment_is_opened_without_locking() {
    assert_eq!(
        open_config(true),
        EnvConfig { max_tables: 32, map_size: 1 << 30, max_readers: 126, flags: 0xc2_0000 }
    );
}

#[test]
fn cursor_operations_have_the_numbers_of_the_engine() {
    assert_eq!(CursorOp::First.code(), 0);
    assert_eq!(CursorOp::GetBoth.code(), 2);
    assert_eq!(CursorOp::Next.code(), 8);
    assert_eq!(CursorOp::SetKey.code(), 15);
}

#[test]
fn property_keys_end_in_a_zero_byte() {
    assert_eq!(Property::Version.key(), b"version\0".to_vec());
    assert_eq!(Property::PruningSeed.key(), b"pruning_seed\0".to_vec());
    assert_eq!(Property::MaxBlockSize.key(), b"max_block_size\0".to_vec());
}

#[test]
fn placeholder_keys_are_zero() {
    assert_eq!(zero_key_bytes(), vec![0u8; 8]);
    assert_eq!(unused_bytes(), vec![0u8]);
}

#[test]
fn lookups_by_key_use_set_key() {
    let expected = |table: Table, key: Vec<u8>| Lookup {
        table,
        key,
        data: vec![0],
        op: CursorOp::SetKey,
    };
    let seven = 7u64.to_le_bytes().to_vec();
    assert_eq!(Query::Block(7).plan(), Ok(expected(Table::Blocks, seven.clone())));
    assert_eq!(Query::HfVersion(7).plan(), Ok(expected(Table::HfVersions, seven.clone())));
    assert_eq!(Query::TxPruned(7).plan(), Ok(expected(Table::TxsPruned, seven.clone())));
    assert_eq!(Query::TxPrunable(7).plan(), Ok(expected(Table::TxsPrunable, seven.clone())));
    assert_eq!(Query::TxOutputIdx(7).plan(), Ok(expected(Table::TxOutputs, seven.clone())));
    assert_eq!(
        Query::TxsPrunableHash(7).plan(),
        Ok(expected(Table::TxsPrunableHash, seven.clone()))
    );
    assert_eq!(
        Query::TxsPrunableTip(7).plan(),
        Ok(expected(Table::TxsPrunableTip, seven.clone()))
    );
    assert_eq!(exact_by_key(Table::Blocks, seven.clone()), expected(Table::Blocks, seven));
    let hash = [0x21u8; 32];
    assert_eq!(Query::AltBlock(&hash).plan(), Ok(expected(Table::AltBlocks, hash.to_vec())));
    assert_eq!(Query::TxpoolTx(&hash).plan(), Ok(expected(Table::TxpoolBlob, hash.to_vec())));
    assert_eq!(Query::TxpoolMeta(&hash).plan(), Ok(expected(Table::TxpoolMeta, hash.to_vec())));
    assert_eq!(
        Query::Property(Property::Version).plan(),
        Ok(expected(Table::Properties, b"version\0".to_vec()))
    );
    assert_eq!(
        Query::Property(Property::PruningSeed).plan(),
        Ok(expected(Table::Properties, b"pruning_seed\0".to_vec()))
    );
    assert_eq!(
        Query::Property(Property::MaxBlockSize).plan(),
        Ok(expected(Table::Properties, b"max_block_size\0".to_vec()))
    );
}

#[test]
fn lookups_by_sub_key_use_the_zero_key() {
    let expected = |table: Table, data: Vec<u8>| Lookup {
        table,
        key: vec![0u8; 8],
        data,
        op: CursorOp::GetBoth,
    };
    let height = 0x0102u64.to_le_bytes().to_vec();
    assert_eq!(height, vec![2, 1, 0, 0, 0, 0, 0, 0]);
    assert_eq!(Query::BlockInfo(0x0102).plan(), Ok(expected(Table::BlockInfo, height.clone())));
    assert_eq!(Query::OutputTx(0x0102).plan(), Ok(expected(Table::OutputTxs, height.clone())));
    assert_eq!(by_sub_key(Table::BlockInfo, height.clone()), expected(Table::BlockInfo, height));
    let hash = [0x42u8; 32];
    assert_eq!(
        Query::BlockHeight(&hash).plan(),
        Ok(expected(Table::BlockHeights, hash.to_vec()))
    );
    assert_eq!(Query::TxIndices(&hash).plan(), Ok(expected(Table::TxIndices, hash.to_vec())));
    assert_eq!(Query::KeyImage(&hash).plan(), Ok(expected(Table::SpentKeys, hash.to_vec())));
}

#[test]
fn output_lookup_keys_by_amount_and_index() {
    assert_eq!(
        Query::OutputKey(1000, 3).plan(),
        Ok(Lookup {
            table: Table::OutputAmounts,
            key: 1000u64.to_le_bytes().to_vec(),
            data: 3u64.to_le_bytes().to_vec(),
            op: CursorOp::GetBoth,
        })
    );
}

#[test]
fn prunable_tip_lookup_takes_the_first_entry() {
    assert_eq!(
        Query::PrunableTip.plan(),
        Ok(Lookup { table: Table::TxsPrunableTip, key: vec![0], data: vec![0], op: CursorOp::First })
    );
}

#[test]
fn hash_of_wrong_length_is_a_value_error() {
    for len in [0usize, 1, 8, 31, 33, 64] {
        let hash = vec![0x55u8; len];
        assert_eq!(Query::AltBlock(&hash).plan(), Err(value_error()));
        assert_eq!(Query::BlockHeight(&hash).plan(), Err(value_error()));
        assert_eq!(Query::TxIndices(&hash).plan(), Err(value_error()));
        assert_eq!(Query::KeyImage(&hash).plan(), Err(value_error()));
        assert_eq!(Query::TxpoolTx(&hash).plan(), Err(value_error()));
        assert_eq!(Query::TxpoolMeta(&hash).plan(), Err(value_error()));
        assert_eq!(exact_by_hash(Table::AltBlocks, &hash), Err(value_error()));
        assert_eq!(by_sub_hash(Table::SpentKeys, &hash), Err(value_error()));
    }
    assert_eq!(hash_length_error(), value_error());
    assert!(exact_by_hash(Table::AltBlocks, &[0u8; 32]).is_ok());
    assert!(by_sub_hash(Table::SpentKeys, &[0u8; 32]).is_ok());
}

#[test]
fn integer_order_reads_little_endian() {
    let one = 1u64.to_le_bytes();
    let big = 256u64.to_le_bytes();
    assert_eq!(compare_uint64(&one, &big), Order::Less);
    assert_eq!(compare_uint64(&big, &one), Order::Greater);
    assert_eq!(compare_uint64(&big, &big), Order::Equal);
    assert_eq!(compare_uint64(&u64::MAX.to_le_bytes(), &0u64.to_le_bytes()), Order::Greater);
    // Bytewise, 256 would sort before 1.
    assert!(big < one);
}

#[test]
fn integer_order_looks_at_the_leading_eight_bytes_only() {
    let mut record = 77u64.to_le_bytes().to_vec();
    record.extend_from_slice(&[0xff; 88]);
    assert_eq!(compare_uint64(&77u64.to_le_bytes(), &record), Order::Equal);
    assert_eq!(compare_uint64(&record, &77u64.to_le_bytes()), Order::Equal);
    assert_eq!(compare_uint64(&76u64.to_le_bytes(), &record), Order::Less);
    assert_eq!(compare_uint64(&78u64.to_le_bytes(), &record), Order::Greater);
    assert_eq!(compare_uint64(&[], &[0, 0]), Order::Equal);
    assert_eq!(compare_uint64(&[1], &[0, 1]), Order::Less);
    assert_eq!(compare_uint64(&[1], &[1, 0, 0]), Order::Equal);
}

#[test]
fn hash_order_weighs_the_last_byte_most() {
    let mut low = [0u8; 32];
    let mut high = [0u8; 32];
    low[0] = 0xff;
    high[31] = 1;
    assert_eq!(compare_hash32(&low, &high), Order::Less);
    assert_eq!(compare_hash32(&high, &low), Order::Greater);
    assert_eq!(compare_hash32(&high, &high), Order::Equal);
    let mut a = [7u8; 32];
    let mut b = [7u8; 32];
    a[12] = 1;
    b[12] = 2;
    assert_eq!(compare_hash32(&a, &b), Order::Less);
    a[20] = 9;
    assert_eq!(compare_hash32(&a, &b), Order::Greater);
    b[20] = 9;
    b[5] = 0;
    assert_eq!(compare_hash32(&a, &b), Order::Less);
}

#[test]
fn hash_order_looks_at_the_leading_thirty_two_bytes_only() {
    let hash = [0x31u8; 32];
    let mut record = hash.to_vec();
    record.extend_from_slice(&[9u8; 8]);
    assert_eq!(compare_hash32(&hash, &record), Order::Equal);
    assert_eq!(compare_hash32(&record, &hash), Order::Equal);
    let mut other = record.clone();
    other[39] = 10;
    assert_eq!(compare_hash32(&record, &other), Order::Equal);
    other[31] = 0x32;
    assert_eq!(compare_hash32(&record, &other), Order::Less);
    assert_eq!(compare_hash32(&[], &[0u8; 4]), Order::Equal);
    assert_eq!(compare_hash32(&[0, 0, 0, 0, 0, 0, 0, 0, 1], &[0xff; 8]), Order::Greater);
}

#[test]
fn text_order_is_the_order_of_c_strings() {
    assert_eq!(compare_string(b"version\0", b"version\0"), Order::Equal);
    assert_eq!(compare_string(b"max_block_size\0", b"pruning_seed\0"), Order::Less);
    assert_eq!(compare_string(b"version\0", b"pruning_seed\0"), Order::Greater);
    assert_eq!(compare_string(b"abc", b"abcd"), Order::Less);
    assert_eq!(compare_string(b"abcd", b"abc"), Order::Greater);
    assert_eq!(compare_string(b"", b""), Order::Equal);
    assert_eq!(compare_string(b"", b"a"), Order::Less);
    assert_eq!(compare_string(b"b", b"a"), Order::Greater);
    assert_eq!(compare_string(&[0x80], &[0x7f]), Order::Greater);
    // Nothing after a zero byte in both is looked at.
    assert_eq!(compare_string(b"a\0x", b"a\0y"), Order::Equal);
    assert_eq!(compare_string(b"a\0x", b"a\0yz"), Order::Less);
}

#[test]
fn compare_follows_the_comparator() {
    let one = 1u64.to_le_bytes();
    let big = 256u64.to_le_bytes();
    assert_eq!(compare(Comparator::Uint64, &one, &big), Order::Less);
    assert_eq!(compare(Comparator::Hash32, &one, &big), Order::Less);
    assert_eq!(compare(Comparator::Text, &one, &big), Order::Greater);
    assert_eq!(Order::Less.sign(), -1);
    assert_eq!(Order::Equal.sign(), 0);
    assert_eq!(Order::Greater.sign(), 1);
}

#[test]
fn sub_key_compares_equal_to_the_record_it_leads() {
    let info = BlockInfo {
        height: 1_234_567,
        timestamp: 1,
        total_coins_generated: 2,
        weight: 3,
        diff_lo: 4,
        diff_hi: 5,
        block_hash: [6u8; 32],
        cum_rct: 7,
        long_term_block_weight: 8,
    };
    let stored = info.encode();
    let hit = Query::BlockInfo(1_234_567).plan().unwrap();
    let miss = Query::BlockInfo(1_234_568).plan().unwrap();
    assert_eq!(compare(Comparator::Uint64, &hit.data, &stored), Order::Equal);
    assert_eq!(compare(Comparator::Uint64, &miss.data, &stored), Order::Greater);
}

#[test]
fn answer_wraps_what_was_fetched() {
    let info = info_with_difficulty(1, 2);
    let bytes = info.encode();
    assert_eq!(answer::<BlockInfo>(Ok(bytes.clone()), false), Ok(Lazy::Undecoded(bytes.clone())));
    assert_eq!(answer::<BlockInfo>(Ok(bytes.clone()), true), Ok(Lazy::Decoded(info)));
    assert_eq!(answer::<BlockInfo>(Ok(vec![1, 2]), false), Ok(Lazy::Undecoded(vec![1, 2])));
    assert_eq!(
        answer::<BlockInfo>(Ok(vec![1, 2]), true),
        Err(Error::MoneroDecodingError(DecodeError::UnexpectedEnd))
    );
    let failure = EngineError::of_code(-30798);
    assert_eq!(answer::<BlockInfo>(Err(failure.clone()), true), Err(Error::DatabaseError(failure.clone())));
    assert_eq!(answer::<BlockInfo>(Err(failure.clone()), false), Err(Error::DatabaseError(failure.clone())));
}

#[test]
fn decoded_answer_always_decodes() {
    assert_eq!(decoded_answer::<u32>(Ok(vec![5, 0, 0, 0])), Ok(5));
    assert_eq!(
        decoded_answer::<u32>(Ok(vec![5, 0, 0, 0, 0])),
        Err(Error::MoneroDecodingError(DecodeError::TrailingBytes))
    );
    let failure = EngineError::of_code(-30796);
    assert_eq!(decoded_answer::<u32>(Err(failure.clone())), Err(Error::DatabaseError(failure.clone())));
}

#[test]
fn raw_answer_hands_the_bytes_on() {
    assert_eq!(raw_answer(Ok(vec![9, 8, 7])), Ok(vec![9, 8, 7]));
    assert_eq!(raw_answer(Ok(vec![])), Ok(vec![]));
    let failure = EngineError::of_code(-30798);
    assert_eq!(raw_answer(Err(failure.clone())), Err(Error::DatabaseError(failure.clone())));
}

#[test]
fn not_found_means_unspent() {
    assert_eq!(spent_answer(Err(EngineError::of_code(-30798))), Ok(false));
    assert_eq!(spent_answer(Ok(vec![0u8; 32])), Ok(true));
    assert_eq!(spent_answer(Ok(vec![])), Ok(true));
    let corrupted = EngineError::of_code(-30796);
    assert_eq!(spent_answer(Err(corrupted.clone())), Err(Error::DatabaseError(corrupted.clone())));
    let lookup = Query::BlockInfo(7).plan().unwrap();
    assert_eq!(
        not_found_error(&lookup),
        Error::DatabaseError(EngineError::at_lookup(
            -30798,
            Table::BlockInfo,
            &[0u8; 8],
            &7u64.to_le_bytes()
        ))
    );
}

#[test]
fn count_ends_where_nothing_is_left() {
    assert_eq!(count_answer(0, EngineError::of_code(-30798)), Ok(0));
    assert_eq!(count_answer(41, EngineError::of_code(-30798)), Ok(41));
    let failure = EngineError::of_code(-30784);
    assert_eq!(count_answer(41, failure.clone()), Err(Error::DatabaseError(failure.clone())));
}

#[test]
fn difficulty_is_the_difference_of_cumulative_difficulties() {
    assert_eq!(
        block_difficulty(&info_with_difficulty(0, 100), &info_with_difficulty(0, 350)),
        250
    );
    assert_eq!(block_difficulty(&info_with_difficulty(0, 5), &info_with_difficulty(0, 5)), 0);
    assert_eq!(
        block_difficulty(&info_with_difficulty(0, u64::MAX), &info_with_difficulty(1, 9)),
        10
    );
    assert_eq!(
        block_difficulty(&info_with_difficulty(2, 7), &info_with_difficulty(5, 7)),
        3u128 << 64
    );
    assert_eq!(
        block_difficulty(&info_with_difficulty(0, 0), &info_with_difficulty(u64::MAX, u64::MAX)),
        u128::MAX
    );
}

#[test]
fn difficulty_wraps_where_the_chain_falls() {
    assert_eq!(
        block_difficulty(&info_with_difficulty(0, 1), &info_with_difficulty(0, 0)),
        u128::MAX
    );
    assert_eq!(
        block_difficulty(&info_with_difficulty(0, 350), &info_with_difficulty(0, 100)),
        u128::MAX - 249
    );
    assert_eq!(
        block_difficulty(&info_with_difficulty(u64::MAX, u64::MAX), &info_with_difficulty(0, 0)),
        1
    );
}

#[test]
fn writes_are_refused_when_read_only() {
    assert_eq!(check_writable(true), Err(Error::ReadOnly));
    assert_eq!(check_writable(false), Ok(()));
    let tx = Transaction::decode(&tiny_transaction()).unwrap();
    let meta = TxPoolMeta::decode(&[0u8; 192]).unwrap();
    assert_eq!(plan_pool_entry(true, &tx, &meta), Err(Error::ReadOnly));
    let mut alt_bytes = vec![0u8; 40];
    alt_bytes.extend_from_slice(&tiny_block());
    let alt = AltBlock::decode(&alt_bytes).unwrap();
    assert_eq!(plan_alt_block(true, &alt), Err(Error::ReadOnly));
}

#[test]
fn alt_block_is_written_under_its_block_id() {
    let mut alt_bytes = vec![3u8; 40];
    alt_bytes.extend_from_slice(&tiny_block());
    let alt = AltBlock::decode(&alt_bytes).unwrap();
    let reference = monero::consensus::deserialize::<monero::Block>(&tiny_block()).unwrap();
    assert_eq!(
        plan_alt_block(false, &alt),
        Ok(vec![Write {
            table: Table::AltBlocks,
            key: reference.id().to_bytes().to_vec(),
            value: alt_bytes,
            no_duplicate: true,
        }])
    );
}

#[test]
fn pool_entry_is_written_as_a_pair_under_one_hash() {
    let tx = Transaction::decode(&tiny_transaction()).unwrap();
    let mut meta_bytes = vec![0u8; 192];
    meta_bytes[64] = 5;
    let meta = TxPoolMeta::decode(&meta_bytes).unwrap();
    let writes = plan_pool_entry(false, &tx, &meta).unwrap();
    assert_eq!(
        writes,
        vec![
            Write {
                table: Table::TxpoolMeta,
                key: tx.hash().to_vec(),
                value: meta_bytes,
                no_duplicate: true,
            },
            Write {
                table: Table::TxpoolBlob,
                key: tx.hash().to_vec(),
                value: tiny_transaction(),
                no_duplicate: true,
            },
        ]
    );
    assert_eq!(writes[0].flags(), 0x20);
    let plain = Write { table: Table::TxpoolBlob, key: vec![1], value: vec![], no_duplicate: false };
    assert_eq!(plain.flags(), 0);
    assert_eq!(Query::TxpoolMeta(&tx.hash()).plan().unwrap().key, writes[0].key);
    assert_eq!(Query::TxpoolTx(&tx.hash()).plan().unwrap().key, writes[1].key);
}

#[test]
fn difficulty_answer_reports_the_first_failure() {
    let prev = info_with_difficulty(0, 1000).encode();
    let block = info_with_difficulty(0, 1600).encode();
    assert_eq!(difficulty_answer(Ok(prev.clone()), Ok(block.clone())), Ok(600));
    let missing = EngineError::of_code(-30798);
    let corrupted = EngineError::of_code(-30796);
    assert_eq!(
        difficulty_answer(Err(missing.clone()), Ok(block.clone())),
        Err(Error::DatabaseError(missing.clone()))
    );
    assert_eq!(
        difficulty_answer(Err(missing.clone()), Err(corrupted.clone())),
        Err(Error::DatabaseError(missing.clone()))
    );
    assert_eq!(
        difficulty_answer(Ok(prev.clone()), Err(corrupted.clone())),
        Err(Error::DatabaseError(corrupted.clone()))
    );
    assert_eq!(
        difficulty_answer(Ok(vec![0u8; 95]), Err(corrupted.clone())),
        Err(Error::MoneroDecodingError(DecodeError::UnexpectedEnd))
    );
    assert_eq!(
        difficulty_answer(Ok(prev), Ok(vec![0u8; 97])),
        Err(Error::MoneroDecodingError(DecodeError::TrailingBytes))
    );
}

#[test]
fn memory_map_grows_to_the_size_of_the_store() {
    assert_eq!(grown_map_size(1 << 30, 4096, 0), None);
    assert_eq!(grown_map_size(1 << 30, 4096, (1 << 18) - 1), None);
    assert_eq!(grown_map_size(1 << 30, 4096, 1 << 18), Some((1 << 30) + 4096));
    assert_eq!(grown_map_size(0, 4096, 0), Some(4096));
    assert_eq!(grown_map_size(0, 0, 77), None);
    assert_eq!(grown_map_size(10, usize::MAX, usize::MAX), Some(usize::MAX));
    assert_eq!(grown_map_size(usize::MAX, usize::MAX, 0), None);
}

#[test]
fn count_goes_on_by_one_for_each_entry_found() {
    assert_eq!(count_step(0, Ok(vec![1, 2, 3])), Walk::On(1));
    assert_eq!(count_step(41, Ok(vec![])), Walk::On(42));
    assert_eq!(count_step(u64::MAX - 1, Ok(vec![0])), Walk::On(u64::MAX));
    assert_eq!(count_step(0, Err(EngineError::of_code(-30798))), Walk::Done(Ok(0)));
    assert_eq!(count_step(7, Err(EngineError::of_code(-30798))), Walk::Done(Ok(7)));
    let failure = EngineError::of_code(-30796);
    assert_eq!(count_step(7, Err(failure.clone())), Walk::Done(Err(Error::DatabaseError(failure.clone()))));
}

#[test]
fn walk_starts_at_the_first_entry_and_goes_on_to_the_next() {
    let step = |op: CursorOp| Lookup { table: Table::BlockHeights, key: vec![0], data: vec![0], op };
    assert_eq!(first_lookup(Table::BlockHeights), step(CursorOp::First));
    assert_eq!(walk_lookup(Table::BlockHeights, 0), step(CursorOp::First));
    assert_eq!(walk_lookup(Table::BlockHeights, 1), step(CursorOp::Next));
    assert_eq!(walk_lookup(Table::BlockHeights, u64::MAX - 1), step(CursorOp::Next));
    assert_eq!(walk_lookup(Table::TxsPruned, 7).table, Table::TxsPruned);
}

#[test]
fn difficulty_after_the_block_before_is_known() {
    let before = info_with_difficulty(0, 1000);
    assert_eq!(difficulty_after(&before, Ok(info_with_difficulty(0, 1600).encode())), Ok(600));
    assert_eq!(difficulty_after(&before, Ok(info_with_difficulty(1, 0).encode())), Ok((1u128 << 64) - 1000));
    let corrupted = EngineError::of_code(-30796);
    assert_eq!(
        difficulty_after(&before, Err(corrupted.clone())),
        Err(Error::DatabaseError(corrupted))
    );
    assert_eq!(
        difficulty_after(&before, Ok(vec![0u8; 95])),
        Err(Error::MoneroDecodingError(DecodeError::UnexpectedEnd))
    );
}
