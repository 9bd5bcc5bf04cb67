//! The tables of the database: their names, how each orders its keys and
//! values, and how the environment that holds them is opened.

use vstd::prelude::*;

verus! {

/// Number of tables in the database.
pub const TABLE_COUNT: usize = 17;

/// Most named tables that the environment is opened for.
pub const MAX_TABLES: u32 = 32;

/// Size in bytes of the memory map that the environment is opened with.
pub const MAP_SIZE: usize = 0x4000_0000;

/// Most concurrent readers that the environment is opened for.
pub const MAX_READERS: u32 = 126;

/// Environment flag: do not read ahead.
pub const NO_READAHEAD: u32 = 0x80_0000;

/// Environment flag: open read-only.
pub const READ_ONLY: u32 = 0x2_0000;

/// Environment flag: do no locking.
pub const NO_LOCK: u32 = 0x40_0000;

/// Table flag: keys are integers of the machine's width.
pub const INTEGER_KEY: u32 = 0x08;

/// Table flag: a key may have several values, kept sorted.
pub const DUP_SORT: u32 = 0x04;

/// Table flag: the values of a key all have the same size.
pub const DUP_FIXED: u32 = 0x10;

/// Write flag: refuse a key and value that are stored already.
pub const NO_DUP_DATA: u32 = 0x20;

/// One of the tables of the database.
#[derive(Clone, Copy, Debug, PartialEq, Eq, Structural)]
pub enum Table {
    Blocks,
    BlockHeights,
    BlockInfo,
    TxsPruned,
    TxsPrunable,
    TxsPrunableHash,
    TxsPrunableTip,
    TxIndices,
    TxOutputs,
    OutputTxs,
    OutputAmounts,
    SpentKeys,
    TxpoolMeta,
    TxpoolBlob,
    AltBlocks,
    HfVersions,
    Properties,
}

/// How the engine reads the keys of a table.
#[derive(Clone, Copy, Debug, PartialEq, Eq, Structural)]
pub enum KeyMode {
    /// Keys are byte strings.
    Lexicographic,
    /// Keys are integers of fixed width.
    Integer,
}

/// An order on keys or values other than the engine's own.
#[derive(Clone, Copy, Debug, PartialEq, Eq, Structural)]
pub enum Comparator {
    /// By the leading 32 bytes, read as a hash.
    Hash32,
    /// By the leading 8 bytes, read as an integer.
    Uint64,
    /// As text.
    Text,
}

/// How a table is opened and ordered.
#[derive(Clone, Copy, Debug, PartialEq, Eq, Structural)]
pub struct TableDescriptor {
    /// The table described.
    pub table: Table,
    /// How the engine reads its keys.
    pub key_mode: KeyMode,
    /// Whether a key may have several values.
    pub duplicates: bool,
    /// The order installed on its keys, if not the engine's own.
    pub key_order: Option<Comparator>,
    /// The order installed on the values of a key, if not the engine's own.
    pub dup_order: Option<Comparator>,
}

/// How a cursor is positioned.
#[derive(Clone, Copy, Debug, PartialEq, Eq, Structural)]
pub enum CursorOp {
    /// At the first entry of the table, whatever key is given.
    First,
    /// At the entry with the given key and the given value.
    GetBoth,
    /// At the entry after the current one.
    Next,
    /// At the entry with the given key.
    SetKey,
}

impl CursorOp {
    /// The engine's number for the operation.
    pub open spec fn spec_code(self) -> u32 {
        match self {
            CursorOp::First => 0,
            CursorOp::GetBoth => 2,
            CursorOp::Next => 8,
            CursorOp::SetKey => 15,
        }
    }

    /// The engine's number for the operation.
    #[verifier::when_used_as_spec(spec_code)]
    pub fn code(self) -> (code: u32)
        ensures
            code == self.spec_code(),
    {
        match self {
            CursorOp::First => 0,
            CursorOp::GetBoth => 2,
            CursorOp::Next => 8,
            CursorOp::SetKey => 15,
        }
    }
}

/// Every table, each once, in the order in which they are opened.
pub open spec fn all_tables() -> Seq<Table> {
    seq![
        Table::Blocks,
        Table::BlockInfo,
        Table::BlockHeights,
        Table::TxsPruned,
        Table::TxsPrunable,
        Table::TxsPrunableHash,
        Table::TxsPrunableTip,
        Table::TxIndices,
        Table::TxOutputs,
        Table::OutputTxs,
        Table::OutputAmounts,
        Table::SpentKeys,
        Table::TxpoolMeta,
        Table::TxpoolBlob,
        Table::AltBlocks,
        Table::HfVersions,
        Table::Properties,
    ]
}

impl Table {
    /// The table's place in `all_tables`.
    pub open spec fn spec_index(self) -> nat {
        match self {
            Table::Blocks => 0,
            Table::BlockInfo => 1,
            Table::BlockHeights => 2,
            Table::TxsPruned => 3,
            Table::TxsPrunable => 4,
            Table::TxsPrunableHash => 5,
            Table::TxsPrunableTip => 6,
            Table::TxIndices => 7,
            Table::TxOutputs => 8,
            Table::OutputTxs => 9,
            Table::OutputAmounts => 10,
            Table::SpentKeys => 11,
            Table::TxpoolMeta => 12,
            Table::TxpoolBlob => 13,
            Table::AltBlocks => 14,
            Table::HfVersions => 15,
            Table::Properties => 16,
        }
    }

    /// The table's place in `all_tables`.
    pub fn index(self) -> (i: usize)
        ensures
            i == self.spec_index(),
            i < TABLE_COUNT,
    {
        match self {
            Table::Blocks => 0,
            Table::BlockInfo => 1,
            Table::BlockHeights => 2,
            Table::TxsPruned => 3,
            Table::TxsPrunable => 4,
            Table::TxsPrunableHash => 5,
            Table::TxsPrunableTip => 6,
            Table::TxIndices => 7,
            Table::TxOutputs => 8,
            Table::OutputTxs => 9,
            Table::OutputAmounts => 10,
            Table::SpentKeys => 11,
            Table::TxpoolMeta => 12,
            Table::TxpoolBlob => 13,
            Table::AltBlocks => 14,
            Table::HfVersions => 15,
            Table::Properties => 16,
        }
    }

    /// The name under which the engine knows the table.
    pub open spec fn spec_name(self) -> Seq<char> {
        match self {
            Table::Blocks => "blocks"@,
            Table::BlockInfo => "block_info"@,
            Table::BlockHeights => "block_heights"@,
            Table::TxsPruned => "txs_pruned"@,
            Table::TxsPrunable => "txs_prunable"@,
            Table::TxsPrunableHash => "txs_prunable_hash"@,
            Table::TxsPrunableTip => "txs_prunable_tip"@,
            Table::TxIndices => "tx_indices"@,
            Table::TxOutputs => "tx_outputs"@,
            Table::OutputTxs => "output_txs"@,
            Table::OutputAmounts => "output_amounts"@,
            Table::SpentKeys => "spent_keys"@,
            Table::TxpoolMeta => "txpool_meta"@,
            Table::TxpoolBlob => "txpool_blob"@,
            Table::AltBlocks => "alt_blocks"@,
            Table::HfVersions => "hf_versions"@,
            Table::Properties => "properties"@,
        }
    }

    /// The name under which the engine knows the table.
    pub fn name(self) -> (name: &'static str)
        ensures
            name@ == self.spec_name(),
    {
        match self {
            Table::Blocks => "blocks",
            Table::BlockInfo => "block_info",
            Table::BlockHeights => "block_heights",
            Table::TxsPruned => "txs_pruned",
            Table::TxsPrunable => "txs_prunable",
            Table::TxsPrunableHash => "txs_prunable_hash",
            Table::TxsPrunableTip => "txs_prunable_tip",
            Table::TxIndices => "tx_indices",
            Table::TxOutputs => "tx_outputs",
            Table::OutputTxs => "output_txs",
            Table::OutputAmounts => "output_amounts",
            Table::SpentKeys => "spent_keys",
            Table::TxpoolMeta => "txpool_meta",
            Table::TxpoolBlob => "txpool_blob",
            Table::AltBlocks => "alt_blocks",
            Table::HfVersions => "hf_versions",
            Table::Properties => "properties",
        }
    }

    /// How the engine reads the table's keys.
    pub open spec fn spec_key_mode(self) -> KeyMode {
        match self {
            Table::TxpoolMeta | Table::TxpoolBlob | Table::AltBlocks | Table::Properties => {
                KeyMode::Lexicographic
            },
            _ => KeyMode::Integer,
        }
    }

    /// Whether a key of the table may have several values.
    pub open spec fn spec_duplicates(self) -> bool {
        match self {
            Table::BlockInfo
            | Table::BlockHeights
            | Table::TxsPrunableHash
            | Table::TxsPrunableTip
            | Table::TxIndices
            | Table::TxOutputs
            | Table::OutputTxs
            | Table::OutputAmounts
            | Table::SpentKeys => true,
            _ => false,
        }
    }

    /// The order installed on the table's keys, if not the engine's own.
    pub open spec fn spec_key_order(self) -> Option<Comparator> {
        match self {
            Table::TxsPrunable => Some(Comparator::Uint64),
            Table::TxpoolMeta | Table::TxpoolBlob | Table::AltBlocks => Some(Comparator::Hash32),
            Table::Properties => Some(Comparator::Text),
            _ => None,
        }
    }

    /// The order installed on the values of a key, if not the engine's own.
    pub open spec fn spec_dup_order(self) -> Option<Comparator> {
        match self {
            Table::BlockHeights | Table::TxIndices | Table::SpentKeys => Some(Comparator::Hash32),
            Table::BlockInfo
            | Table::TxsPrunableHash
            | Table::TxsPrunableTip
            | Table::TxOutputs
            | Table::OutputTxs
            | Table::OutputAmounts => Some(Comparator::Uint64),
            _ => None,
        }
    }

    /// How the table is opened and ordered.
    pub open spec fn spec_descriptor(self) -> TableDescriptor {
        TableDescriptor {
            table: self,
            key_mode: self.spec_key_mode(),
            duplicates: self.spec_duplicates(),
            key_order: self.spec_key_order(),
            dup_order: self.spec_dup_order(),
        }
    }

    /// How the table is opened and ordered.
    #[verifier::when_used_as_spec(spec_descriptor)]
    pub fn descriptor(self) -> (d: TableDescriptor)
        ensures
            d == self.spec_descriptor(),
    {
        let key_mode = match self {
            Table::TxpoolMeta | Table::TxpoolBlob | Table::AltBlocks | Table::Properties => {
                KeyMode::Lexicographic
            },
            _ => KeyMode::Integer,
        };
        let key_order = match self {
            Table::TxsPrunable => Some(Comparator::Uint64),
            Table::TxpoolMeta | Table::TxpoolBlob | Table::AltBlocks => Some(Comparator::Hash32),
            Table::Properties => Some(Comparator::Text),
            _ => None,
        };
        let dup_order = match self {
            Table::BlockHeights | Table::TxIndices | Table::SpentKeys => Some(Comparator::Hash32),
            Table::BlockInfo
            | Table::TxsPrunableHash
            | Table::TxsPrunableTip
            | Table::TxOutputs
            | Table::OutputTxs
            | Table::OutputAmounts => Some(Comparator::Uint64),
            _ => None,
        };
        let duplicates = dup_order.is_some();
        TableDescriptor { table: self, key_mode, duplicates, key_order, dup_order }
    }

    /// Every table, each once, in the order in which they are opened.
    pub fn all() -> (tables: Vec<Table>)
        ensures
            tables@ == all_tables(),
    {
        let mut tables: Vec<Table> = Vec::new();
        tables.push(Table::Blocks);
        tables.push(Table::BlockInfo);
        tables.push(Table::BlockHeights);
        tables.push(Table::TxsPruned);
        tables.push(Table::TxsPrunable);
        tables.push(Table::TxsPrunableHash);
        tables.push(Table::TxsPrunableTip);
        tables.push(Table::TxIndices);
        tables.push(Table::TxOutputs);
        tables.push(Table::OutputTxs);
        tables.push(Table::OutputAmounts);
        tables.push(Table::SpentKeys);
        tables.push(Table::TxpoolMeta);
        tables.push(Table::TxpoolBlob);
        tables.push(Table::AltBlocks);
        tables.push(Table::HfVersions);
        tables.push(Table::Properties);
        assert(tables@ =~= all_tables());
        tables
    }
}

impl TableDescriptor {
    /// The flags with which the engine opens the table.
    pub open spec fn spec_flags(&self) -> u32 {
        ((if self.key_mode == KeyMode::Integer {
            INTEGER_KEY as int
        } else {
            0
        }) + (if self.duplicates {
            DUP_SORT + DUP_FIXED
        } else {
            0
        })) as u32
    }

    /// The flags with which the engine opens the table.
    #[verifier::when_used_as_spec(spec_flags)]
    pub fn flags(&self) -> (bits: u32)
        ensures
            bits == self.spec_flags(),
    {
        let key_bits: u32 = match self.key_mode {
            KeyMode::Integer => INTEGER_KEY,
            KeyMode::Lexicographic => 0,
        };
        let dup_bits: u32 = if self.duplicates {
            DUP_SORT + DUP_FIXED
        } else {
            0
        };
        key_bits + dup_bits
    }
}

/// How the environment is opened.
#[derive(Clone, Copy, Debug, PartialEq, Eq, Structural)]
pub struct EnvConfig {
    /// Most named tables.
    pub max_tables: u32,
    /// Size in bytes of the memory map.
    pub map_size: usize,
    /// Most concurrent readers.
    pub max_readers: u32,
    /// The environment flags.
    pub flags: u32,
}

/// How the environment is opened: never reading ahead, and for a read-only
/// store also read-only and without locking.
pub open spec fn spec_open_config(read_only: bool) -> EnvConfig {
    EnvConfig {
        max_tables: MAX_TABLES,
        map_size: MAP_SIZE,
        max_readers: MAX_READERS,
        flags: if read_only {
            (NO_READAHEAD + READ_ONLY + NO_LOCK) as u32
        } else {
            NO_READAHEAD
        },
    }
}

/// How the environment is opened: never reading ahead, and for a read-only
/// store also read-only and without locking.
#[verifier::when_used_as_spec(spec_open_config)]
pub fn open_config(read_only: bool) -> (config: EnvConfig)
    ensures
        config == spec_open_config(read_only),
{
    let flags: u32 = if read_only {
        NO_READAHEAD + READ_ONLY + NO_LOCK
    } else {
        NO_READAHEAD
    };
    EnvConfig { max_tables: MAX_TABLES, map_size: MAP_SIZE, max_readers: MAX_READERS, flags }
}

/// The bytes that a store takes whose last page is `last_page`, the pages
/// numbered from zero and each `page_size` bytes long.
pub open spec fn used_bytes(page_size: usize, last_page: usize) -> nat {
    ((last_page + 1) * page_size) as nat
}

/// The size to which the memory map has to grow for a store of `used`
/// bytes, if it has to: a store that fits the map leaves it as it is, and
/// one that does not asks for its own size, as far as the machine can say
/// it.
pub open spec fn spec_grown_map_size(map_size: usize, used: nat) -> Option<usize> {
    if used <= map_size {
        None
    } else if used <= usize::MAX {
        Some(used as usize)
    } else {
        Some(usize::MAX)
    }
}

/// The size to which the memory map has to grow for a store whose last
/// page is `last_page`, if it has to.
pub fn grown_map_size(map_size: usize, page_size: usize, last_page: usize) -> (size: Option<usize>)
    ensures
        size == spec_grown_map_size(map_size, used_bytes(page_size, last_page)),
{
    let pages: u128 = last_page as u128 + 1;
    let width: u128 = page_size as u128;
    assert(pages * width <= 0x1_0000_0000_0000_0000 * 0xffff_ffff_ffff_ffff)
        by (nonlinear_arith)
        requires
            pages <= 0x1_0000_0000_0000_0000,
            width <= 0xffff_ffff_ffff_ffff,
    ;
    let used: u128 = pages * width;
    if used <= map_size as u128 {
        None
    } else if used <= usize::MAX as u128 {
        Some(used as usize)
    } else {
        Some(usize::MAX)
    }
}

/// Every table stands in `all_tables`, at its index and nowhere else.
pub proof fn lemma_all_tables_complete(t: Table)
    ensures
        all_tables().len() == TABLE_COUNT,
        t.spec_index() < TABLE_COUNT,
        all_tables()[t.spec_index() as int] == t,
        forall|i: int| 0 <= i < TABLE_COUNT && all_tables()[i] == t ==> i == t.spec_index(),
{
}

/// A table allows several values for a key exactly where an order is
/// installed on them, and the tables named by a hash or by text are those
/// whose keys the engine reads as byte strings.
pub proof fn lemma_descriptor_consistent(t: Table)
    ensures
        t.spec_duplicates() == t.spec_dup_order().is_some(),
        t.spec_key_mode() == KeyMode::Lexicographic <==> (t.spec_key_order() == Some(
            Comparator::Hash32,
        ) || t.spec_key_order() == Some(Comparator::Text)),
        t.spec_duplicates() ==> t.spec_key_mode() == KeyMode::Integer,
{
}

/// The length of a table's name and its characters at three places, which
/// together tell the names apart.
pub open spec fn name_mark(name: Seq<char>) -> (nat, char, char, char) {
    (name.len(), name[0], name[3], name[name.len() - 2])
}

/// No table's name holds the character that ends a C string, and no two
/// tables have the same name.
pub proof fn lemma_names(a: Table, b: Table)
    ensures
        forall|i: int| 0 <= i < a.spec_name().len() ==> a.spec_name()[i] != '\0',
        a.spec_name().len() > 0,
        a != b ==> a.spec_name() != b.spec_name(),
{
    reveal_strlit("blocks");
    reveal_strlit("block_info");
    reveal_strlit("block_heights");
    reveal_strlit("txs_pruned");
    reveal_strlit("txs_prunable");
    reveal_strlit("txs_prunable_hash");
    reveal_strlit("txs_prunable_tip");
    reveal_strlit("tx_indices");
    reveal_strlit("tx_outputs");
    reveal_strlit("output_txs");
    reveal_strlit("output_amounts");
    reveal_strlit("spent_keys");
    reveal_strlit("txpool_meta");
    reveal_strlit("txpool_blob");
    reveal_strlit("alt_blocks");
    reveal_strlit("hf_versions");
    reveal_strlit("properties");
    if a != b {
        assert(name_mark(a.spec_name()) != name_mark(b.spec_name()));
    }
}

} // verus!
