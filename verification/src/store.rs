//! The rules of the persisted record collection.
//!
//! The collection is an ordered sequence of records kept in one document.
//! A driver reads the document at the start of a retrieval cycle and
//! replaces it as a whole at the end. What the document is taken to hold,
//! and what is written back, is decided here.

use vstd::prelude::*;
use crate::message::LogMessage;

verus! {

/// What a driver found when it read the persisted document.
#[derive(Debug, PartialEq, Eq)]
pub enum StoreRead {
    /// There is no document.
    Missing,
    /// The document holds nothing.
    Empty,
    /// The document holds something that is no sequence of records.
    Invalid,
    /// The document holds these records, in this order.
    Records(Vec<LogMessage>),
}

/// The records that a document is taken to hold. A document that is
/// missing, empty or invalid is taken to hold none.
pub open spec fn loaded(read: StoreRead) -> Seq<LogMessage> {
    match read {
        StoreRead::Records(records) => records@,
        _ => Seq::empty(),
    }
}

/// The records that a document is taken to hold.
pub fn load(read: StoreRead) -> (records: Vec<LogMessage>)
    ensures
        records@ == loaded(read),
{
    match read {
        StoreRead::Records(records) => records,
        _ => Vec::new(),
    }
}

/// The collection to persist at the end of a cycle: the records held
/// before, followed by the new ones. Nothing is reordered and nothing is
/// left out, not even a record that occurs twice.
pub fn merge(existing: Vec<LogMessage>, new: Vec<LogMessage>) -> (all: Vec<LogMessage>)
    ensures
        all@ == existing@ + new@,
{
    let mut all = existing;
    let mut rest = new;
    all.append(&mut rest);
    all
}

/// A copy of `records`.
pub(crate) fn copy_records(records: &Vec<LogMessage>) -> (copy: Vec<LogMessage>)
    ensures
        copy@ == records@,
{
    let copy = records.clone();
    assert(copy@ =~= records@);
    copy
}

} // verus!
