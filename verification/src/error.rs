//! The failures that an operation on the database can report.

use vstd::prelude::*;
use vstd::string::*;
use crate::bytes::copy_bytes;
use crate::schema::Table;

verus! {

/// The engine's code for "no such key, or no such key and value".
pub const NOT_FOUND_CODE: i32 = -30798;

/// The engine's code for "this key and value are stored already".
pub const KEY_EXIST_CODE: i32 = -30799;

/// A failure of the storage engine: the engine's own error code, and the
/// table and the key that were asked for, where there were any.
#[derive(Clone, Debug, PartialEq, Eq)]
pub struct EngineError {
    /// The engine's error code.
    pub code: i32,
    /// The table that was read or written.
    pub table: Option<Table>,
    /// The key that was looked up or written; empty where there was none.
    pub key: Vec<u8>,
    /// The value that a lookup handed to the cursor beside the key; empty
    /// where there was none.
    pub data: Vec<u8>,
}

/// An `EngineError` as contracts speak of it.
pub struct EngineErrorView {
    pub code: i32,
    pub table: Option<Table>,
    pub key: Seq<u8>,
    pub data: Seq<u8>,
}

impl View for EngineError {
    type V = EngineErrorView;

    open spec fn view(&self) -> EngineErrorView {
        EngineErrorView { code: self.code, table: self.table, key: self.key@, data: self.data@ }
    }
}

/// The failure with the code `code` on the key `key` of `table`, with no
/// value beside the key.
pub open spec fn failure(code: i32, table: Option<Table>, key: Seq<u8>) -> EngineErrorView {
    EngineErrorView { code, table, key, data: Seq::empty() }
}

/// The failure with the code `code` of a lookup in `table` that handed
/// `key` and `data` to the cursor.
pub open spec fn lookup_failure(code: i32, table: Table, key: Seq<u8>, data: Seq<u8>) -> EngineErrorView {
    EngineErrorView { code, table: Some(table), key, data }
}

impl EngineError {
    /// True of the failure that says the entry looked for is not stored.
    pub open spec fn spec_is_not_found(&self) -> bool {
        self.code == NOT_FOUND_CODE
    }

    /// True of the failure that says the entry looked for is not stored.
    #[verifier::when_used_as_spec(spec_is_not_found)]
    pub fn is_not_found(&self) -> (found: bool)
        ensures
            found == self.spec_is_not_found(),
    {
        self.code == NOT_FOUND_CODE
    }

    /// True of the failure that says the entry to insert is stored already.
    pub open spec fn spec_is_key_exist(&self) -> bool {
        self.code == KEY_EXIST_CODE
    }

    /// True of the failure that says the entry to insert is stored already.
    #[verifier::when_used_as_spec(spec_is_key_exist)]
    pub fn is_key_exist(&self) -> (exists: bool)
        ensures
            exists == self.spec_is_key_exist(),
    {
        self.code == KEY_EXIST_CODE
    }

    /// The failure with the code `code` of an operation on no table.
    pub fn of_code(code: i32) -> (e: EngineError)
        ensures
            e@ == failure(code, None, Seq::empty()),
    {
        EngineError { code, table: None, key: Vec::new(), data: Vec::new() }
    }

    /// The failure with the code `code` of an operation on `table` as a
    /// whole.
    pub fn at_table(code: i32, table: Table) -> (e: EngineError)
        ensures
            e@ == failure(code, Some(table), Seq::empty()),
    {
        EngineError { code, table: Some(table), key: Vec::new(), data: Vec::new() }
    }

    /// The failure with the code `code` of an operation on the key `key`
    /// of `table`.
    pub fn at_key(code: i32, table: Table, key: &[u8]) -> (e: EngineError)
        ensures
            e@ == failure(code, Some(table), key@),
    {
        EngineError { code, table: Some(table), key: copy_bytes(key), data: Vec::new() }
    }

    /// The failure with the code `code` of a lookup in `table` that handed
    /// `key` and `data` to the cursor.
    pub fn at_lookup(code: i32, table: Table, key: &[u8], data: &[u8]) -> (e: EngineError)
        ensures
            e@ == lookup_failure(code, table, key@, data@),
    {
        EngineError { code, table: Some(table), key: copy_bytes(key), data: copy_bytes(data) }
    }
}

/// True of the database error that the engine's failure `f` makes.
pub open spec fn is_database_error(e: Error, f: EngineErrorView) -> bool {
    e matches Error::DatabaseError(inner) && inner@ == f
}

/// Why bytes are not the stored form of a record.
#[derive(Clone, Copy, Debug, PartialEq, Eq, Structural)]
pub enum DecodeError {
    /// The bytes end before the record does.
    UnexpectedEnd,
    /// Bytes are left over after the record.
    TrailingBytes,
    /// The bytes are not a block or transaction in consensus encoding.
    Rejected,
}

/// Potential errors.
#[derive(Clone, Debug, PartialEq, Eq)]
pub enum Error {
    /// Errors relating to the database, such as an entry that is not stored.
    DatabaseError(EngineError),
    /// Input for a retrieval is incorrect, such as a hash that is not 32
    /// bytes long.
    ValueError(String),
    /// Error deserializing the retrieved data.
    MoneroDecodingError(DecodeError),
    /// A write was attempted on a database opened read-only.
    ReadOnly,
}

/// What is said of a failure of the engine with the code `code`.
pub open spec fn engine_text(code: i32) -> Seq<char> {
    if code == NOT_FOUND_CODE {
        "Retrieval error: entry not found"@
    } else if code == KEY_EXIST_CODE {
        "Retrieval error: entry already stored"@
    } else {
        "Retrieval error: storage engine failure"@
    }
}

/// What is said of the table on which the engine failed.
pub open spec fn place_text(table: Option<Table>) -> Seq<char> {
    match table {
        Some(table) => " in "@ + table.spec_name(),
        None => Seq::empty(),
    }
}

impl Error {
    /// A short description of the failure.
    pub fn message(&self) -> (text: String)
        ensures
            self matches Error::ValueError(reason) ==> text@ == "Value cannot be searched for: "@
                + reason@,
            self is ReadOnly ==> text@ == "Database is read-only"@,
            self matches Error::DatabaseError(e) ==> text@ == engine_text(e.code) + place_text(
                e.table,
            ),
            self matches Error::MoneroDecodingError(d) ==> text@ == (match d {
                DecodeError::UnexpectedEnd => "Failed to decode value from database: too short"@,
                DecodeError::TrailingBytes => "Failed to decode value from database: too long"@,
                DecodeError::Rejected => "Failed to decode value from database: malformed"@,
            }),
    {
        match self {
            Error::DatabaseError(e) => {
                let what = if e.is_not_found() {
                    "Retrieval error: entry not found".to_owned()
                } else if e.is_key_exist() {
                    "Retrieval error: entry already stored".to_owned()
                } else {
                    "Retrieval error: storage engine failure".to_owned()
                };
                match e.table {
                    Some(table) => what.concat(" in ").concat(table.name()),
                    None => what,
                }
            },
            Error::ValueError(reason) => {
                "Value cannot be searched for: ".to_owned().concat(reason.as_str())
            },
            Error::MoneroDecodingError(d) => match d {
                DecodeError::UnexpectedEnd => {
                    "Failed to decode value from database: too short".to_owned()
                },
                DecodeError::TrailingBytes => {
                    "Failed to decode value from database: too long".to_owned()
                },
                DecodeError::Rejected => {
                    "Failed to decode value from database: malformed".to_owned()
                },
            },
            Error::ReadOnly => "Database is read-only".to_owned(),
        }
    }
}

} // verus!
