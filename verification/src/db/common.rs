//! The failures that the store reports.

use vstd::prelude::*;

verus! {

/// Why a store operation failed.
#[derive(Debug, PartialEq, Eq)]
pub enum DBError {
    /// A table could not be found or opened.
    FindingTable(String),
    /// A row of a table could not be understood.
    ParsingRecord(String),
    /// No row matched a lookup; the text names the kind of record.
    FindingRecord(String),
    /// A table could not be written.
    Internal(String),
}

/// A [`DBError`] with its text as a sequence of characters.
pub enum DBErrorView {
    FindingTable(Seq<char>),
    ParsingRecord(Seq<char>),
    FindingRecord(Seq<char>),
    Internal(Seq<char>),
}

impl View for DBError {
    type V = DBErrorView;

    open spec fn view(&self) -> DBErrorView {
        match self {
            DBError::FindingTable(s) => DBErrorView::FindingTable(s@),
            DBError::ParsingRecord(s) => DBErrorView::ParsingRecord(s@),
            DBError::FindingRecord(s) => DBErrorView::FindingRecord(s@),
            DBError::Internal(s) => DBErrorView::Internal(s@),
        }
    }
}

impl DBError {
    /// A copy of this error, with the same text.
    pub fn duplicate(&self) -> (r: DBError)
        ensures
            r@ == self@,
    {
        match self {
            DBError::FindingTable(s) => DBError::FindingTable(s.clone()),
            DBError::ParsingRecord(s) => DBError::ParsingRecord(s.clone()),
            DBError::FindingRecord(s) => DBError::FindingRecord(s.clone()),
            DBError::Internal(s) => DBError::Internal(s.clone()),
        }
    }

    /// Whether this error says that a looked-up record does not exist,
    /// as opposed to a fault of the store itself.
    pub fn is_missing_record(&self) -> (r: bool)
        ensures
            r == (self@ is FindingRecord),
    {
        match self {
            DBError::FindingRecord(_) => true,
            _ => false,
        }
    }
}

} // verus!
