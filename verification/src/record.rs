//! What a record source hands to a run.

use vstd::prelude::*;
use crate::text::texts;

verus! {

/// One record as the source delivered it.
#[derive(Clone, Debug)]
pub enum Record {
    /// The ordered raw field values of the record.
    Fields(Vec<String>),
    /// The source could not make sense of the record.
    Malformed,
}

impl View for Record {
    type V = Option<Seq<Seq<char>>>;

    open spec fn view(&self) -> Option<Seq<Seq<char>>> {
        match self {
            Record::Fields(fields) => Some(texts(fields@)),
            Record::Malformed => None,
        }
    }
}

/// A record source read to its end: the header record and the data records.
///
/// Where the source has no header row, `headers` is whatever the source
/// reports in its place; it is only looked at when the configuration asks for
/// headers and names no columns.
#[derive(Clone, Debug)]
pub struct Source {
    pub headers: Record,
    pub records: Vec<Record>,
}

/// The contents of a [`Source`].
pub struct SourceView {
    pub headers: Option<Seq<Seq<char>>>,
    pub records: Seq<Option<Seq<Seq<char>>>>,
}

impl View for Source {
    type V = SourceView;

    open spec fn view(&self) -> SourceView {
        SourceView {
            headers: self.headers@,
            records: self.records@.map_values(|r: Record| r@),
        }
    }
}

} // verus!
