//! The entry of a to-do list, its mathematical view, and the errors of the
//! store.

use vstd::prelude::*;

verus! {

/// Why an operation on the store was refused.
#[derive(Clone, Copy, Debug, PartialEq, Eq, Structural)]
pub enum StoreError {
    /// A stored line has fewer than three space-separated tokens.
    MalformedRecord,
    /// A position at or beyond the end of the list was addressed.
    InvalidId,
    /// A command came without its argument, or with a text that cannot be
    /// stored on one line.
    UsageError,
}

/// One entry of the list. It has no identity of its own: it is addressed by
/// its position in the list.
#[derive(Clone, Debug, PartialEq, Eq)]
pub struct Record {
    pub done: bool,
    pub urgent: bool,
    pub text: String,
}

/// A `Record` as a mathematical value.
pub ghost struct RecordView {
    pub done: bool,
    pub urgent: bool,
    pub text: Seq<char>,
}

impl View for Record {
    type V = RecordView;

    open spec fn view(&self) -> RecordView {
        RecordView { done: self.done, urgent: self.urgent, text: self.text@ }
    }
}

/// A text can be stored on one line: it holds no line terminator.
pub open spec fn valid_text(text: Seq<char>) -> bool {
    !text.contains('\n')
}

/// Tells whether a text can be stored on one line.
pub fn is_valid_text(text: &str) -> (valid: bool)
    ensures
        valid == valid_text(text@),
{
    let mut valid = true;
    for c in it: text.chars()
        invariant
            it.seq() == text@,
            valid == !text@.take(it.index()).contains('\n'),
    {
        proof {
            let before = text@.take(it.index());
            let after = text@.take(it.index() + 1);
            assert(after =~= before.push(c));
            if before.contains('\n') {
                let at = choose|k: int| 0 <= k < before.len() && before[k] == '\n';
                assert(after[at] == '\n');
            }
            if c == '\n' {
                assert(after[after.len() - 1] == '\n');
            }
        }
        if c == '\n' {
            valid = false;
        }
    }
    assert(text@.take(text@.len() as int) =~= text@);
    valid
}

impl RecordView {
    /// The entry can be stored on one line.
    pub open spec fn valid(self) -> bool {
        valid_text(self.text)
    }
}

/// The views of a sequence of records, position by position.
pub open spec fn views(records: Seq<Record>) -> Seq<RecordView> {
    Seq::new(records.len(), |i: int| records[i]@)
}

/// Every entry of the sequence can be stored on one line.
pub open spec fn all_valid(records: Seq<RecordView>) -> bool {
    forall|i: int| 0 <= i < records.len() ==> (#[trigger] records[i]).valid()
}

} // verus!
