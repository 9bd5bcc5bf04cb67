use monero_db::bytes::{
    copy_bytes, copy_range, push_bytes, push_le, push_u32_le, push_u64_le, read_array32, read_le,
    read_u32_le, read_u64_le, u64_to_le_bytes,
};
use monero_db::error::{DecodeError, EngineError, Error};
use monero_db::lazy::Lazy;
use monero_db::record::block::{AltBlock, Block, BlockHeight, BlockInfo};
use monero_db::record::transaction::{
    check_pruned, OutTx, PreRctOutkey, RctOutkey, Transaction, TransactionPruned, TxIndex,
    TxOutputIdx, TxPoolMeta,
};
use monero_db::record::{check_length, Record};

fn concat(parts: &[&[u8]]) -> Vec<u8> {
    let mut out = Vec::new();
    for part in parts {
        out.extend_from_slice(part);
    }
    out
}

/// A version 1 transaction without inputs or outputs and with `extra`
/// bytes of extra data, all zero.
fn small_transaction(extra: u8) -> Vec<u8> {
    let mut bytes = vec![1u8, 0, 0, 0, extra];
    bytes.extend(std::iter::repeat(0u8).take(extra as usize));
    bytes
}

/// A block with a zero previous hash, the given nonce, the small
/// transaction as its miner transaction and no other transaction.
fn small_block(nonce: u32) -> Vec<u8> {
    let mut bytes = vec![1u8, 0, 0];
    bytes.extend_from_slice(&[0u8; 32]);
    bytes.extend_from_slice(&nonce.to_le_bytes());
    bytes.extend_from_slice(&small_transaction(0));
    bytes.push(0);
    bytes
}

fn sample_block_info() -> BlockInfo {
    BlockInfo {
        height: 1,
        timestamp: 2,
        total_coins_generated: 3,
        weight: 4,
        diff_lo: 5,
        diff_hi: 6,
        block_hash: [7u8; 32],
        cum_rct: 8,
        long_term_block_weight: 9,
    }
}

fn sample_pool_meta() -> TxPoolMeta {
    TxPoolMeta {
        max_used_block_id: [0xaa; 32],
        last_failed_id: [0xbb; 32],
        weight: 1500,
        fee: 30_000_000,
        max_used_block_height: 2_000_000,
        last_failed_height: 0,
        receive_time: 1_650_000_000,
        last_relayed_time: 1_650_000_100,
        kept_by_block: 0,
        relayed: 1,
        do_not_relay: 0,
        flags: 0b0001_0101,
    }
}

#[test]
fn u64_bytes_are_little_endian() {
    assert_eq!(u64_to_le_bytes(0), vec![0u8; 8]);
    assert_eq!(u64_to_le_bytes(1), vec![1, 0, 0, 0, 0, 0, 0, 0]);
    assert_eq!(u64_to_le_bytes(256), vec![0, 1, 0, 0, 0, 0, 0, 0]);
    assert_eq!(u64_to_le_bytes(0x0102_0304_0506_0708), vec![8, 7, 6, 5, 4, 3, 2, 1]);
    assert_eq!(u64_to_le_bytes(u64::MAX), vec![0xff; 8]);
}

#[test]
fn u64_bytes_agree_with_std() {
    for x in [0u64, 1, 255, 256, 65_535, 1 << 32, 0xdead_beef_0bad_f00d, u64::MAX - 1, u64::MAX] {
        assert_eq!(u64_to_le_bytes(x), x.to_le_bytes().to_vec());
        assert_eq!(read_u64_le(&x.to_le_bytes(), 0), x);
    }
}

#[test]
fn push_le_appends_the_low_bytes() {
    let mut out = vec![9u8];
    push_le(&mut out, 0x0102_0304, 2);
    assert_eq!(out, vec![9, 4, 3]);
    push_le(&mut out, 7, 0);
    assert_eq!(out, vec![9, 4, 3]);
    push_u32_le(&mut out, 0x0a0b_0c0d);
    assert_eq!(out, vec![9, 4, 3, 0x0d, 0x0c, 0x0b, 0x0a]);
    push_u64_le(&mut out, 2);
    assert_eq!(out.len(), 15);
    assert_eq!(&out[7..], &[2, 0, 0, 0, 0, 0, 0, 0]);
}

#[test]
fn read_le_reads_at_an_offset() {
    let bytes = [0xffu8, 1, 2, 3, 4, 5, 6, 7, 8, 0xff];
    assert_eq!(read_u64_le(&bytes, 1), 0x0807_0605_0403_0201);
    assert_eq!(read_u32_le(&bytes, 1), 0x0403_0201);
    assert_eq!(read_u32_le(&bytes, 5), 0x0807_0605);
    assert_eq!(read_le(&bytes, 1, 3), 0x03_0201);
    assert_eq!(read_le(&bytes, 4, 0), 0);
    assert_eq!(read_le(&bytes, 9, 1), 0xff);
}

#[test]
fn byte_copies_keep_the_bytes() {
    let bytes: Vec<u8> = (0u8..40).collect();
    assert_eq!(copy_bytes(&bytes), bytes);
    assert_eq!(copy_range(&bytes, 3, 6), vec![3, 4, 5]);
    assert_eq!(copy_range(&bytes, 5, 5), Vec::<u8>::new());
    let mut expected = [0u8; 32];
    for i in 0..32 {
        expected[i] = (i + 8) as u8;
    }
    assert_eq!(read_array32(&bytes, 8), expected);
    let mut out = vec![1u8];
    push_bytes(&mut out, &[2, 3]);
    push_bytes(&mut out, &[]);
    assert_eq!(out, vec![1, 2, 3]);
}

#[test]
fn length_check_names_the_failure() {
    assert_eq!(check_length(95, 96), Some(DecodeError::UnexpectedEnd));
    assert_eq!(check_length(97, 96), Some(DecodeError::TrailingBytes));
    assert_eq!(check_length(96, 96), None);
    assert_eq!(check_length(0, 0), None);
}

#[test]
fn block_info_has_its_layout() {
    let info = sample_block_info();
    let bytes = info.encode();
    let expected = concat(&[
        &[1, 0, 0, 0, 0, 0, 0, 0],
        &[2, 0, 0, 0, 0, 0, 0, 0],
        &[3, 0, 0, 0, 0, 0, 0, 0],
        &[4, 0, 0, 0, 0, 0, 0, 0],
        &[5, 0, 0, 0, 0, 0, 0, 0],
        &[6, 0, 0, 0, 0, 0, 0, 0],
        &[7u8; 32],
        &[8, 0, 0, 0, 0, 0, 0, 0],
        &[9, 0, 0, 0, 0, 0, 0, 0],
    ]);
    assert_eq!(bytes.len(), 96);
    assert_eq!(bytes, expected);
    assert_eq!(BlockInfo::decode(&bytes), Ok(info));
}

#[test]
fn block_info_rejects_other_lengths() {
    let bytes = sample_block_info().encode();
    assert_eq!(BlockInfo::decode(&bytes[..95]), Err(DecodeError::UnexpectedEnd));
    assert_eq!(BlockInfo::decode(&[]), Err(DecodeError::UnexpectedEnd));
    let mut longer = bytes.clone();
    longer.push(0);
    assert_eq!(BlockInfo::decode(&longer), Err(DecodeError::TrailingBytes));
}

#[test]
fn cumulative_difficulty_joins_both_halves() {
    let mut info = sample_block_info();
    assert_eq!(info.cumulative_difficulty(), (6u128 << 64) + 5);
    info.diff_hi = 0;
    info.diff_lo = u64::MAX;
    assert_eq!(info.cumulative_difficulty(), u64::MAX as u128);
    info.diff_hi = u64::MAX;
    assert_eq!(info.cumulative_difficulty(), u128::MAX);
    info.diff_lo = 0;
    info.diff_hi = 1;
    assert_eq!(info.cumulative_difficulty(), 1u128 << 64);
}

#[test]
fn block_height_round_trips() {
    let rec = BlockHeight { block_hash: [3u8; 32], height: 0x0102 };
    let bytes = rec.encode();
    assert_eq!(bytes, concat(&[&[3u8; 32], &[2, 1, 0, 0, 0, 0, 0, 0]]));
    assert_eq!(BlockHeight::decode(&bytes), Ok(rec));
    assert_eq!(BlockHeight::decode(&bytes[..39]), Err(DecodeError::UnexpectedEnd));
    assert_eq!(BlockHeight::decode(&[0u8; 41]), Err(DecodeError::TrailingBytes));
}

#[test]
fn tx_index_round_trips() {
    let rec = TxIndex { tx_hash: [0x11; 32], tx_id: 77, unlock_time: 60, block_id: 1_000_000 };
    let bytes = rec.encode();
    assert_eq!(bytes.len(), 56);
    assert_eq!(&bytes[..32], &[0x11u8; 32]);
    assert_eq!(&bytes[32..40], &77u64.to_le_bytes());
    assert_eq!(&bytes[40..48], &60u64.to_le_bytes());
    assert_eq!(&bytes[48..], &1_000_000u64.to_le_bytes());
    assert_eq!(TxIndex::decode(&bytes), Ok(rec));
    assert_eq!(TxIndex::decode(&bytes[1..]), Err(DecodeError::UnexpectedEnd));
}

#[test]
fn out_tx_round_trips() {
    let rec = OutTx { output_id: 5, tx_hash: [0x22; 32], local_index: 3 };
    let bytes = rec.encode();
    assert_eq!(
        bytes,
        concat(&[&[5, 0, 0, 0, 0, 0, 0, 0], &[0x22u8; 32], &[3, 0, 0, 0, 0, 0, 0, 0]])
    );
    assert_eq!(OutTx::decode(&bytes), Ok(rec));
    assert_eq!(OutTx::decode(&[0u8; 49]), Err(DecodeError::TrailingBytes));
}

#[test]
fn outkeys_round_trip() {
    let pre = PreRctOutkey {
        amount_index: 1,
        output_id: 2,
        pubkey: [0x33; 32],
        unlock_time: 4,
        height: 5,
    };
    let bytes = pre.encode();
    assert_eq!(bytes.len(), 64);
    assert_eq!(&bytes[..8], &[1, 0, 0, 0, 0, 0, 0, 0]);
    assert_eq!(&bytes[8..16], &[2, 0, 0, 0, 0, 0, 0, 0]);
    assert_eq!(&bytes[16..48], &[0x33u8; 32]);
    assert_eq!(&bytes[48..56], &[4, 0, 0, 0, 0, 0, 0, 0]);
    assert_eq!(&bytes[56..], &[5, 0, 0, 0, 0, 0, 0, 0]);
    assert_eq!(PreRctOutkey::decode(&bytes), Ok(pre));

    let rct = RctOutkey {
        amount_index: 1,
        output_id: 2,
        pubkey: [0x33; 32],
        unlock_time: 4,
        height: 5,
        commitment: [0x44; 32],
    };
    let rct_bytes = rct.encode();
    assert_eq!(rct_bytes, concat(&[&bytes, &[0x44u8; 32]]));
    assert_eq!(RctOutkey::decode(&rct_bytes), Ok(rct));
    // The two kinds share a table and are told apart by the caller alone.
    assert_eq!(PreRctOutkey::decode(&rct_bytes), Err(DecodeError::TrailingBytes));
    assert_eq!(RctOutkey::decode(&bytes), Err(DecodeError::UnexpectedEnd));
}

#[test]
fn tx_output_idx_round_trips() {
    let rec = TxOutputIdx { indices: vec![1, 0x0100, u64::MAX] };
    let bytes = rec.encode();
    assert_eq!(
        bytes,
        concat(&[&[1, 0, 0, 0, 0, 0, 0, 0], &[0, 1, 0, 0, 0, 0, 0, 0], &[0xff; 8]])
    );
    assert_eq!(TxOutputIdx::decode(&bytes), Ok(rec));
    assert_eq!(TxOutputIdx::decode(&[]), Ok(TxOutputIdx { indices: vec![] }));
    assert_eq!(TxOutputIdx { indices: vec![] }.encode(), Vec::<u8>::new());
    assert_eq!(TxOutputIdx::decode(&bytes[..23]), Err(DecodeError::UnexpectedEnd));
    assert_eq!(TxOutputIdx::decode(&[0u8; 1]), Err(DecodeError::UnexpectedEnd));
}

#[test]
fn pool_meta_has_its_layout() {
    let meta = sample_pool_meta();
    let bytes = meta.encode();
    assert_eq!(bytes.len(), 192);
    assert_eq!(&bytes[..32], &[0xaau8; 32]);
    assert_eq!(&bytes[32..64], &[0xbbu8; 32]);
    assert_eq!(&bytes[64..72], &1500u64.to_le_bytes());
    assert_eq!(&bytes[72..80], &30_000_000u64.to_le_bytes());
    assert_eq!(&bytes[80..88], &2_000_000u64.to_le_bytes());
    assert_eq!(&bytes[88..96], &0u64.to_le_bytes());
    assert_eq!(&bytes[96..104], &1_650_000_000u64.to_le_bytes());
    assert_eq!(&bytes[104..112], &1_650_000_100u64.to_le_bytes());
    assert_eq!(&bytes[112..116], &[0, 1, 0, 0b0001_0101]);
    assert_eq!(&bytes[116..], &[0u8; 76]);
    assert_eq!(TxPoolMeta::decode(&bytes), Ok(meta));
}

#[test]
fn pool_meta_ignores_its_padding() {
    let meta = sample_pool_meta();
    let mut bytes = meta.encode();
    bytes[191] = 0x5a;
    bytes[116] = 1;
    assert_eq!(TxPoolMeta::decode(&bytes), Ok(meta));
    assert_eq!(TxPoolMeta::decode(&bytes[..191]), Err(DecodeError::UnexpectedEnd));
    bytes.push(0);
    assert_eq!(TxPoolMeta::decode(&bytes), Err(DecodeError::TrailingBytes));
}

#[test]
fn pool_meta_flags_are_single_bits() {
    let mut meta = sample_pool_meta();
    assert!(meta.double_spend_seen());
    assert!(!meta.pruned());
    assert!(meta.is_local());
    assert!(!meta.dandelionpp_stem());
    assert!(meta.is_forwarding());
    meta.flags = 0b0000_1010;
    assert!(!meta.double_spend_seen());
    assert!(meta.pruned());
    assert!(!meta.is_local());
    assert!(meta.dandelionpp_stem());
    assert!(!meta.is_forwarding());
    meta.flags = 0b1110_0000;
    assert!(!meta.double_spend_seen() && !meta.pruned() && !meta.is_local());
    assert!(!meta.dandelionpp_stem() && !meta.is_forwarding());
}

#[test]
fn integers_decode_from_their_exact_width() {
    assert_eq!(u8::decode(&[5]), Ok(5));
    assert_eq!(u8::decode(&[]), Err(DecodeError::UnexpectedEnd));
    assert_eq!(u8::decode(&[5, 0]), Err(DecodeError::TrailingBytes));
    assert_eq!(5u8.encode(), vec![5]);
    assert_eq!(u32::decode(&[5, 0, 0, 0]), Ok(5));
    assert_eq!(u32::decode(&[0, 0, 0, 1]), Ok(1 << 24));
    assert_eq!(u32::decode(&[5, 0, 0]), Err(DecodeError::UnexpectedEnd));
    assert_eq!(u32::decode(&[5, 0, 0, 0, 0]), Err(DecodeError::TrailingBytes));
    assert_eq!(0x0102_0304u32.encode(), vec![4, 3, 2, 1]);
    assert_eq!(u64::decode(&[0, 0, 0, 0, 0, 0, 0, 0x80]), Ok(1 << 63));
    assert_eq!(u64::decode(&[0; 7]), Err(DecodeError::UnexpectedEnd));
    assert_eq!(u64::decode(&[0; 9]), Err(DecodeError::TrailingBytes));
    assert_eq!(600_000u64.encode(), 600_000u64.to_le_bytes().to_vec());
}

#[test]
fn hash_is_stored_as_it_is() {
    let hash = monero_db::record::scalar::Hash { bytes: [0x66; 32] };
    assert_eq!(hash.encode(), vec![0x66u8; 32]);
    assert_eq!(monero_db::record::scalar::Hash::decode(&[0x66u8; 32]), Ok(hash));
    assert_eq!(
        monero_db::record::scalar::Hash::decode(&[0x66u8; 31]),
        Err(DecodeError::UnexpectedEnd)
    );
    assert_eq!(
        monero_db::record::scalar::Hash::decode(&[0x66u8; 33]),
        Err(DecodeError::TrailingBytes)
    );
}

#[test]
fn transaction_carries_the_hash_of_its_encoding() {
    let bytes = small_transaction(3);
    let tx = Transaction::decode(&bytes).unwrap();
    let reference = monero::consensus::deserialize::<monero::Transaction>(&bytes).unwrap();
    let expected = monero::cryptonote::hash::Hashable::hash(&reference).to_bytes();
    assert_eq!(tx.hash(), expected);
    assert_ne!(&tx.hash()[..], &bytes[..]);
    assert_eq!(tx.blob(), &bytes);
    assert_eq!(tx.encode(), bytes);
    assert_eq!(Transaction::decode(&tx.encode()), Ok(tx.clone()));
    let other = Transaction::decode(&small_transaction(4)).unwrap();
    assert_ne!(other.hash(), tx.hash());
}

#[test]
fn transaction_rejects_what_is_none() {
    assert_eq!(Transaction::decode(&[]), Err(DecodeError::Rejected));
    assert_eq!(Transaction::decode(&[1, 0, 0, 0]), Err(DecodeError::Rejected));
    let mut bytes = small_transaction(0);
    bytes.push(0);
    assert_eq!(Transaction::decode(&bytes), Err(DecodeError::Rejected));
    assert_eq!(Transaction::decode(&[1, 0, 0, 0, 9, 0]), Err(DecodeError::Rejected));
}

/// The prefix of a version 2 transaction with one input and one output.
fn ringct_prefix() -> Vec<u8> {
    let mut bytes = vec![2u8, 0];
    // One input: spent from a key, amount 0, one ring member, a key image.
    bytes.extend_from_slice(&[1, 0x02, 0, 1, 5]);
    bytes.extend_from_slice(&[0x11; 32]);
    // One output: amount 0, to a key.
    bytes.extend_from_slice(&[1, 0, 0x02]);
    bytes.extend_from_slice(&[0x22; 32]);
    // No extra data.
    bytes.push(0);
    bytes
}

/// The base of Bulletproof+ signatures for one output: the type, the fee,
/// the encrypted amount, the commitment.
fn ringct_base() -> Vec<u8> {
    let mut bytes = vec![6u8, 0x64];
    bytes.extend_from_slice(&[0x33; 8]);
    bytes.extend_from_slice(&[0x44; 32]);
    bytes
}

#[test]
fn pruned_transaction_knows_where_its_prefix_ends() {
    let prefix = ringct_prefix();
    let reference =
        monero::consensus::encode::deserialize_partial::<monero::TransactionPrefix>(&prefix)
            .unwrap();
    assert_eq!(reference.1, prefix.len());
    assert_eq!(reference.0.inputs.len(), 1);
    assert_eq!(reference.0.outputs.len(), 1);
    let bytes = [prefix.clone(), ringct_base()].concat();
    let pruned = TransactionPruned::decode(&bytes).unwrap();
    assert_eq!(pruned.prefix_len(), prefix.len());
    assert_eq!(pruned.prefix_len(), 75);
    assert_eq!(pruned.blob(), &bytes);
    assert_eq!(pruned.encode(), bytes);
    assert_eq!(TransactionPruned::decode(&pruned.encode()), Ok(pruned.clone()));
    assert_eq!(check_pruned(&bytes), Ok(75));
}

#[test]
fn pruned_transaction_of_version_one_is_its_prefix() {
    let whole = TransactionPruned::decode(&small_transaction(0)).unwrap();
    assert_eq!(whole.prefix_len(), 5);
    let with_extra = TransactionPruned::decode(&small_transaction(2)).unwrap();
    assert_eq!(with_extra.prefix_len(), 7);
    let mut longer = small_transaction(2);
    longer.push(0);
    assert_eq!(TransactionPruned::decode(&longer), Err(DecodeError::TrailingBytes));
    // A version 2 transaction without inputs has no signatures either.
    assert_eq!(check_pruned(&[2, 0, 0, 0, 0]), Ok(5));
    assert_eq!(check_pruned(&[2, 0, 0, 0, 0, 0]), Err(DecodeError::TrailingBytes));
}

#[test]
fn pruned_transaction_rejects_what_is_none() {
    assert_eq!(TransactionPruned::decode(&[1, 0]), Err(DecodeError::Rejected));
    assert_eq!(TransactionPruned::decode(&[]), Err(DecodeError::Rejected));
    let prefix = ringct_prefix();
    // The base of the signatures is missing, cut short, of no known type,
    // or followed by more.
    assert_eq!(TransactionPruned::decode(&prefix), Err(DecodeError::Rejected));
    let base = ringct_base();
    let short = [prefix.clone(), base[..base.len() - 1].to_vec()].concat();
    assert_eq!(TransactionPruned::decode(&short), Err(DecodeError::Rejected));
    let unknown = [prefix.clone(), vec![9u8]].concat();
    assert_eq!(TransactionPruned::decode(&unknown), Err(DecodeError::Rejected));
    let long = [prefix.clone(), base, vec![0u8]].concat();
    assert_eq!(TransactionPruned::decode(&long), Err(DecodeError::TrailingBytes));
    // Signatures of no type take one byte.
    let null = [prefix, vec![0u8]].concat();
    assert_eq!(check_pruned(&null), Ok(75));
}

#[test]
fn block_carries_the_id_of_its_encoding() {
    let bytes = small_block(0x0403_0201);
    let block = Block::decode(&bytes).unwrap();
    let reference = monero::consensus::deserialize::<monero::Block>(&bytes).unwrap();
    assert_eq!(reference.header.nonce, 0x0403_0201);
    assert_eq!(block.id(), reference.id().to_bytes());
    assert_eq!(block.blob(), &bytes);
    assert_eq!(block.encode(), bytes);
    assert_eq!(Block::decode(&block.encode()), Ok(block.clone()));
    let other = Block::decode(&small_block(5)).unwrap();
    assert_ne!(other.id(), block.id());
}

#[test]
fn block_rejects_what_is_none() {
    assert_eq!(Block::decode(&[]), Err(DecodeError::Rejected));
    let bytes = small_block(1);
    assert_eq!(Block::decode(&bytes[..bytes.len() - 1]), Err(DecodeError::Rejected));
    let mut longer = bytes.clone();
    longer.push(0);
    assert_eq!(Block::decode(&longer), Err(DecodeError::Rejected));
}

#[test]
fn alt_block_is_its_fork_data_and_its_block() {
    let block_bytes = small_block(9);
    let bytes = concat(&[
        &100u64.to_le_bytes(),
        &200u64.to_le_bytes(),
        &300u64.to_le_bytes(),
        &1u64.to_le_bytes(),
        &500u64.to_le_bytes(),
        &block_bytes,
    ]);
    let alt = AltBlock::decode(&bytes).unwrap();
    assert_eq!(alt.height, 100);
    assert_eq!(alt.cumulative_weight, 200);
    assert_eq!(alt.cumulative_difficulty_low, 300);
    assert_eq!(alt.cumulative_difficulty_high, 1);
    assert_eq!(alt.already_generated_coins, 500);
    assert_eq!(alt.block, Block::decode(&block_bytes).unwrap());
    assert_eq!(alt.encode(), bytes);
    assert_eq!(AltBlock::decode(&alt.encode()), Ok(alt));
}

#[test]
fn alt_block_rejects_what_is_none() {
    assert_eq!(AltBlock::decode(&[0u8; 39]), Err(DecodeError::UnexpectedEnd));
    assert_eq!(AltBlock::decode(&[0u8; 40]), Err(DecodeError::Rejected));
    assert_eq!(AltBlock::decode(&[0u8; 60]), Err(DecodeError::Rejected));
}

#[test]
fn lazy_decodes_only_when_forced() {
    let info = sample_block_info();
    let raw: Lazy<BlockInfo> = Lazy::Undecoded(info.encode());
    assert!(!raw.is_decoded());
    assert_eq!(raw.to_bytes(), info.encode());
    assert_eq!(raw.force(), Ok(info));
    let decoded = Lazy::Decoded(info);
    assert!(decoded.is_decoded());
    assert_eq!(decoded.to_bytes(), info.encode());
    assert_eq!(decoded.force(), Ok(info));
}

#[test]
fn lazy_reports_malformed_bytes_when_forced() {
    let short: Lazy<BlockInfo> = Lazy::Undecoded(vec![0u8; 10]);
    assert_eq!(short.to_bytes(), vec![0u8; 10]);
    assert_eq!(short.force(), Err(Error::MoneroDecodingError(DecodeError::UnexpectedEnd)));
    let long: Lazy<u32> = Lazy::Undecoded(vec![0u8; 5]);
    assert_eq!(long.force(), Err(Error::MoneroDecodingError(DecodeError::TrailingBytes)));
    let bad: Lazy<Block> = Lazy::Undecoded(vec![0xffu8; 5]);
    assert_eq!(bad.force(), Err(Error::MoneroDecodingError(DecodeError::Rejected)));
}

#[test]
fn forcing_the_bytes_of_a_lazy_value_gives_the_value() {
    let tx = Transaction::decode(&small_transaction(1)).unwrap();
    let decoded = Lazy::Decoded(tx.clone());
    let again: Lazy<Transaction> = Lazy::Undecoded(decoded.to_bytes());
    assert_eq!(again.force(), Ok(tx));
    let idx = TxOutputIdx { indices: vec![4, 5, 6] };
    let again: Lazy<TxOutputIdx> = Lazy::Undecoded(Lazy::Decoded(idx.clone()).to_bytes());
    assert_eq!(again.force(), Ok(idx));
}

#[test]
fn errors_describe_themselves() {
    assert_eq!(Error::ReadOnly.message(), "Database is read-only");
    assert_eq!(
        Error::ValueError("hash is not 32 bytes long".to_string()).message(),
        "Value cannot be searched for: hash is not 32 bytes long"
    );
    assert_eq!(
        Error::MoneroDecodingError(DecodeError::UnexpectedEnd).message(),
        "Failed to decode value from database: too short"
    );
    assert_eq!(
        Error::MoneroDecodingError(DecodeError::TrailingBytes).message(),
        "Failed to decode value from database: too long"
    );
    assert_eq!(
        Error::MoneroDecodingError(DecodeError::Rejected).message(),
        "Failed to decode value from database: malformed"
    );
    let not_found = EngineError::of_code(-30798);
    assert!(not_found.is_not_found());
    assert!(!not_found.is_key_exist());
    assert_eq!(Error::DatabaseError(not_found.clone()).message(), "Retrieval error: entry not found");
    let exists = EngineError::of_code(-30799);
    assert!(exists.is_key_exist());
    assert_eq!(Error::DatabaseError(exists.clone()).message(), "Retrieval error: entry already stored");
    let other = EngineError::of_code(13);
    assert!(!other.is_not_found() && !other.is_key_exist());
    assert_eq!(Error::DatabaseError(other.clone()).message(), "Retrieval error: storage engine failure");
    assert_eq!(
        Error::DatabaseError(EngineError::at_table(13, monero_db::schema::Table::BlockInfo))
            .message(),
        "Retrieval error: storage engine failure in block_info"
    );
    assert_eq!(
        Error::DatabaseError(EngineError::at_key(
            -30798,
            monero_db::schema::Table::TxpoolMeta,
            &[1u8; 32]
        ))
        .message(),
        "Retrieval error: entry not found in txpool_meta"
    );
    let at = EngineError::at_lookup(-30799, monero_db::schema::Table::SpentKeys, &[0u8; 8], &[9]);
    assert_eq!(at.code, -30799);
    assert_eq!(at.table, Some(monero_db::schema::Table::SpentKeys));
    assert_eq!(at.key, vec![0u8; 8]);
    assert_eq!(at.data, vec![9u8]);
    assert_eq!(
        EngineError::of_code(5),
        EngineError { code: 5, table: None, key: vec![], data: vec![] }
    );
}
