//! The configuration of one conversion run.

use vstd::prelude::*;
use crate::text::texts;

verus! {

/// Everything a conversion run is told by its caller.
///
/// `source`, `target`, `target_type`, `prefix` and `suffix` name things outside
/// the library and are carried through untouched; `delimiter` is the byte that
/// separates fields in the source.
#[derive(Clone, Debug)]
pub struct Arguments {
    pub source: String,
    pub target: String,
    pub target_type: String,
    pub delimiter: u8,
    pub has_headers: bool,
    pub table: String,
    pub columns: Vec<String>,
    pub chunk: usize,
    pub chunk_insert: usize,
    pub prefix: String,
    pub suffix: String,
    pub with_transaction: bool,
    pub typed: bool,
}

/// The part of [`Arguments`] that decides what text is generated.
pub struct Settings {
    /// The first record of the source names the columns.
    pub has_headers: bool,
    /// Name of the table that rows are inserted into.
    pub table: Seq<char>,
    /// Explicit column names; they win over the header record when not empty.
    pub columns: Seq<Seq<char>>,
    /// `insert` statements per transaction block; 0 for a single block.
    pub chunk: nat,
    /// Value rows per `insert` statement; 0 for one row per statement.
    pub chunk_insert: nat,
    /// Wrap blocks in `begin transaction` and `commit`.
    pub with_transaction: bool,
    /// Infer a literal type per value instead of quoting every value.
    pub typed: bool,
}

impl View for Arguments {
    type V = Settings;

    open spec fn view(&self) -> Settings {
        Settings {
            has_headers: self.has_headers,
            table: self.table@,
            columns: texts(self.columns@),
            chunk: self.chunk as nat,
            chunk_insert: self.chunk_insert as nat,
            with_transaction: self.with_transaction,
            typed: self.typed,
        }
    }
}

} // verus!
