//! The storage of one table: its rows, or the reason they cannot be had.

use vstd::prelude::*;
use crate::db::common::{DBError, DBErrorView};
use crate::db::records::copy_rows;

verus! {

/// The storage of one table.
///
/// A table either holds rows, or is in a failed state: it could not be found,
/// or one of its rows could not be understood. Reading a failed table gives
/// its error; replacing its rows makes it whole again.
pub struct Engine<S> {
    pub state: Result<Vec<S>, DBError>,
}

impl<S> View for Engine<S> {
    type V = Result<Seq<S>, DBErrorView>;

    open spec fn view(&self) -> Result<Seq<S>, DBErrorView> {
        match self.state {
            Ok(rows) => Ok(rows@),
            Err(e) => Err(e@),
        }
    }
}

impl<S: Copy> Engine<S> {
    /// A table that exists and holds no row.
    pub fn new() -> (r: Engine<S>)
        ensures
            r@ == Ok::<Seq<S>, DBErrorView>(Seq::empty()),
    {
        Engine { state: Ok(Vec::new()) }
    }

    /// A table that holds `rows`.
    pub fn with_rows(rows: Vec<S>) -> (r: Engine<S>)
        ensures
            r@ == Ok::<Seq<S>, DBErrorView>(rows@),
    {
        Engine { state: Ok(rows) }
    }

    /// A table that cannot be read, for the reason given.
    pub fn failed(reason: DBError) -> (r: Engine<S>)
        ensures
            r@ == Err::<Seq<S>, DBErrorView>(reason@),
    {
        Engine { state: Err(reason) }
    }

    /// Makes sure that the table exists: one that could not be found is
    /// created empty, any other is left as it is.
    pub fn ensure_table(&mut self)
        ensures
            final(self)@ == ensured(old(self)@),
    {
        let absent = match &self.state {
            Err(DBError::FindingTable(_)) => true,
            _ => false,
        };
        if absent {
            self.state = Ok(Vec::new());
        }
    }

    /// Puts `records` in place of whatever the table held.
    pub fn write_replace_records(&mut self, records: Vec<S>) -> (r: Result<(), DBError>)
        ensures
            r is Ok,
            final(self)@ == replaced(old(self)@, records@),
    {
        self.state = Ok(records);
        Ok(())
    }

    /// All rows of the table, in order, or the error that the table is in.
    pub fn read_db_records(&self) -> (r: Result<Vec<S>, DBError>)
        ensures
            outcome_rows(r) == self@,
    {
        match &self.state {
            Ok(rows) => Ok(copy_rows(rows)),
            Err(e) => Err(e.duplicate()),
        }
    }
}

/// The rows or the error of a read, as mathematical values.
pub open spec fn outcome_rows<S>(r: Result<Vec<S>, DBError>) -> Result<Seq<S>, DBErrorView> {
    match r {
        Ok(rows) => Ok(rows@),
        Err(e) => Err(e@),
    }
}

/// The table after it was made sure to exist.
pub open spec fn ensured<S>(table: Result<Seq<S>, DBErrorView>) -> Result<Seq<S>, DBErrorView> {
    match table {
        Err(DBErrorView::FindingTable(_)) => Ok(Seq::empty()),
        _ => table,
    }
}

/// A table that was made sure to exist can be found, and making sure of it
/// once more changes nothing; a table that could be found is left as it is.
pub proof fn lemma_ensure_idempotent<S>(table: Result<Seq<S>, DBErrorView>)
    ensures
        !(ensured(table) matches Err(DBErrorView::FindingTable(_))),
        ensured(ensured(table)) == ensured(table),
        !(table matches Err(DBErrorView::FindingTable(_))) ==> ensured(table) == table,
{
}

/// The table after `records` were put in place of whatever it held.
pub open spec fn replaced<S>(table: Result<Seq<S>, DBErrorView>, records: Seq<S>) -> Result<
    Seq<S>,
    DBErrorView,
> {
    Ok(records)
}

/// Rows written to a table are read back unchanged, whatever the table held
/// before: the same rows, each as often as it was written.
pub proof fn lemma_write_then_read<S>(table: Result<Seq<S>, DBErrorView>, records: Seq<S>)
    ensures
        replaced(table, records) is Ok,
        replaced(table, records)->Ok_0 == records,
        replaced(table, records)->Ok_0.len() == records.len(),
        replaced(table, records)->Ok_0.to_multiset() == records.to_multiset(),
{
}

} // verus!
