//! The mutation engine: one operation turns a sequence of entries into the
//! next sequence, or is refused. Entries are addressed by position.

use vstd::prelude::*;
use crate::record::{all_valid, valid_text, views, Record, RecordView, StoreError};

verus! {

/// An edit of the list.
#[derive(Clone, Debug, PartialEq, Eq)]
pub enum Operation {
    /// Append a pending, non-urgent entry with this text.
    Add(String),
    /// Delete the entry at this position.
    Remove(u32),
    /// Delete every entry.
    Clear,
    /// Flip the completion flag of the entry at this position.
    ToggleDone(u32),
    /// Flip the urgency flag of the entry at this position.
    ToggleUrgent(u32),
}

/// An `Operation` as a mathematical value.
pub ghost enum OperationView {
    Add(Seq<char>),
    Remove(nat),
    Clear,
    ToggleDone(nat),
    ToggleUrgent(nat),
}

impl View for Operation {
    type V = OperationView;

    open spec fn view(&self) -> OperationView {
        match self {
            Operation::Add(text) => OperationView::Add(text@),
            Operation::Remove(id) => OperationView::Remove(*id as nat),
            Operation::Clear => OperationView::Clear,
            Operation::ToggleDone(id) => OperationView::ToggleDone(*id as nat),
            Operation::ToggleUrgent(id) => OperationView::ToggleUrgent(*id as nat),
        }
    }
}

impl OperationView {
    /// The operation brings no text that cannot be stored on one line.
    pub open spec fn valid(self) -> bool {
        self matches OperationView::Add(text) ==> valid_text(text)
    }
}

/// The entry that `Add` appends: pending and not urgent.
pub open spec fn fresh(text: Seq<char>) -> RecordView {
    RecordView { done: false, urgent: false, text }
}

/// The entry with its completion flag flipped.
pub open spec fn with_done_flipped(record: RecordView) -> RecordView {
    RecordView { done: !record.done, ..record }
}

/// The entry with its urgency flag flipped.
pub open spec fn with_urgent_flipped(record: RecordView) -> RecordView {
    RecordView { urgent: !record.urgent, ..record }
}

/// The sequence that an operation makes of `records`, or `InvalidId` where it
/// addresses a position that is not below the length.
pub open spec fn apply_spec(records: Seq<RecordView>, op: OperationView) -> Result<
    Seq<RecordView>,
    StoreError,
> {
    match op {
        OperationView::Add(text) => Ok(records.push(fresh(text))),
        OperationView::Remove(id) => if id < records.len() {
            Ok(records.remove(id as int))
        } else {
            Err(StoreError::InvalidId)
        },
        OperationView::Clear => Ok(Seq::empty()),
        OperationView::ToggleDone(id) => if id < records.len() {
            Ok(records.update(id as int, with_done_flipped(records[id as int])))
        } else {
            Err(StoreError::InvalidId)
        },
        OperationView::ToggleUrgent(id) => if id < records.len() {
            Ok(records.update(id as int, with_urgent_flipped(records[id as int])))
        } else {
            Err(StoreError::InvalidId)
        },
    }
}

/// Applies one operation to the list.
pub fn apply(records: Vec<Record>, op: Operation) -> (result: Result<Vec<Record>, StoreError>)
    ensures
        match result {
            Ok(next) => apply_spec(views(records@), op@) == Ok::<Seq<RecordView>, StoreError>(
                views(next@),
            ),
            Err(e) => apply_spec(views(records@), op@) == Err::<Seq<RecordView>, StoreError>(e),
        },
{
    let ghost before = views(records@);
    let mut records = records;
    match op {
        Operation::Add(text) => {
            records.push(Record { done: false, urgent: false, text });
            assert(views(records@) =~= before.push(fresh(text@)));
            Ok(records)
        },
        Operation::Remove(id) => {
            let at = id as usize;
            if at < records.len() {
                records.remove(at);
                assert(views(records@) =~= before.remove(at as int));
                Ok(records)
            } else {
                Err(StoreError::InvalidId)
            }
        },
        Operation::Clear => {
            records.clear();
            assert(views(records@) =~= Seq::<RecordView>::empty());
            Ok(records)
        },
        Operation::ToggleDone(id) => {
            let at = id as usize;
            if at < records.len() {
                let flipped = !records[at].done;
                records[at].done = flipped;
                assert(views(records@) =~= before.update(
                    at as int,
                    with_done_flipped(before[at as int]),
                ));
                Ok(records)
            } else {
                Err(StoreError::InvalidId)
            }
        },
        Operation::ToggleUrgent(id) => {
            let at = id as usize;
            if at < records.len() {
                let flipped = !records[at].urgent;
                records[at].urgent = flipped;
                assert(views(records@) =~= before.update(
                    at as int,
                    with_urgent_flipped(before[at as int]),
                ));
                Ok(records)
            } else {
                Err(StoreError::InvalidId)
            }
        },
    }
}

/// Flipping the completion flag of an entry twice gives back the list, and
/// so does flipping its urgency flag twice.
pub proof fn lemma_toggle_twice(records: Seq<RecordView>, id: nat)
    requires
        id < records.len(),
    ensures
        apply_spec(records, OperationView::ToggleDone(id)) matches Ok(once) && apply_spec(
            once,
            OperationView::ToggleDone(id),
        ) == Ok::<Seq<RecordView>, StoreError>(records),
        apply_spec(records, OperationView::ToggleUrgent(id)) matches Ok(once) && apply_spec(
            once,
            OperationView::ToggleUrgent(id),
        ) == Ok::<Seq<RecordView>, StoreError>(records),
{
    let done_once = records.update(id as int, with_done_flipped(records[id as int]));
    assert(done_once.update(id as int, with_done_flipped(done_once[id as int])) =~= records);
    let urgent_once = records.update(id as int, with_urgent_flipped(records[id as int]));
    assert(urgent_once.update(id as int, with_urgent_flipped(urgent_once[id as int]))
        =~= records);
}

/// A flip changes one flag of one entry: the other flag and the text of that
/// entry, and every other entry, stay as they were.
pub proof fn lemma_toggle_touches_one_flag(records: Seq<RecordView>, id: nat)
    requires
        id < records.len(),
    ensures
        apply_spec(records, OperationView::ToggleDone(id)) matches Ok(next) && {
            &&& next.len() == records.len()
            &&& next[id as int].done == !records[id as int].done
            &&& next[id as int].urgent == records[id as int].urgent
            &&& next[id as int].text == records[id as int].text
            &&& forall|k: int| 0 <= k < records.len() && k != id ==> next[k] == records[k]
        },
        apply_spec(records, OperationView::ToggleUrgent(id)) matches Ok(next) && {
            &&& next.len() == records.len()
            &&& next[id as int].urgent == !records[id as int].urgent
            &&& next[id as int].done == records[id as int].done
            &&& next[id as int].text == records[id as int].text
            &&& forall|k: int| 0 <= k < records.len() && k != id ==> next[k] == records[k]
        },
{
}

/// Removing an entry shortens the list by exactly one and keeps every other
/// entry, in its order: those before the position stay where they were, and
/// those after it move down by one.
pub proof fn lemma_remove_keeps_the_others(records: Seq<RecordView>, id: nat)
    requires
        id < records.len(),
    ensures
        apply_spec(records, OperationView::Remove(id)) matches Ok(next) && {
            &&& next.len() == records.len() - 1
            &&& forall|k: int| 0 <= k < id ==> next[k] == records[k]
            &&& forall|k: int| id <= k < next.len() ==> next[k] == records[k + 1]
        },
{
}

/// Adding lengthens the list by one: the new entry stands last, pending and
/// not urgent, and every entry that was there stays where it was.
pub proof fn lemma_add_appends(records: Seq<RecordView>, text: Seq<char>)
    ensures
        apply_spec(records, OperationView::Add(text)) matches Ok(next) && {
            &&& next.len() == records.len() + 1
            &&& next.last() == fresh(text)
            &&& forall|k: int| 0 <= k < records.len() ==> next[k] == records[k]
        },
{
}

/// An operation is refused exactly where it addresses a position that is not
/// below the length of the list, and then with `InvalidId`. Adding and
/// clearing are never refused.
pub proof fn lemma_refused_iff_out_of_range(records: Seq<RecordView>, op: OperationView)
    ensures
        apply_spec(records, op) is Err <==> match op {
            OperationView::Remove(id) => id >= records.len(),
            OperationView::ToggleDone(id) => id >= records.len(),
            OperationView::ToggleUrgent(id) => id >= records.len(),
            _ => false,
        },
        apply_spec(records, op) matches Err(e) ==> e == StoreError::InvalidId,
{
}

/// Where every entry of the list can be stored on one line and the operation
/// brings no other text, every entry of the next list can be stored on one
/// line.
pub proof fn lemma_apply_keeps_valid(records: Seq<RecordView>, op: OperationView)
    requires
        all_valid(records),
        op.valid(),
    ensures
        apply_spec(records, op) matches Ok(next) ==> all_valid(next),
{
}

} // verus!
