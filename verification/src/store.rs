//! The text of a store file: how it is read as a list of entries, how a list
//! is written as text, and the text that an operation leaves behind.
//!
//! A file is rewritten in full: its text is read, the operation is applied to
//! the entries, and the text of the next list replaces the old one. Where an
//! operation is refused there is no next text, and the file stays as it is.

use vstd::prelude::*;
use crate::codec::{
    decode_range, decode_spec, encode, encode_spec, lemma_decode_encode, lemma_tokens,
};
use crate::engine::{
    apply, apply_spec, fresh, lemma_apply_keeps_valid, lemma_toggle_twice, Operation, OperationView,
};
use crate::record::{all_valid, views, Record, RecordView, StoreError};
use crate::text::{find, first_index, lemma_first_index, lemma_first_index_is, to_chars};

verus! {

/// The lines of a text. Each line terminator ends a line; what follows the
/// last terminator is a line of its own unless it is empty. No line holds a
/// terminator.
pub open spec fn lines_spec(content: Seq<char>) -> Seq<Seq<char>>
    decreases content.len(),
{
    let i = first_index(content, '\n');
    if content.len() == 0 {
        Seq::empty()
    } else if 0 <= i < content.len() {
        seq![content.take(i)] + lines_spec(content.skip(i + 1))
    } else {
        seq![content]
    }
}

/// The entries that the lines stand for, where each line stands for one;
/// `MalformedRecord` where some line stands for none.
pub open spec fn decode_all_spec(lines: Seq<Seq<char>>) -> Result<Seq<RecordView>, StoreError> {
    if forall|k: int| 0 <= k < lines.len() ==> decode_spec(#[trigger] lines[k]) is Ok {
        Ok(Seq::new(lines.len(), |k: int| decode_spec(lines[k])->Ok_0))
    } else {
        Err(StoreError::MalformedRecord)
    }
}

/// The list that a text stands for: one entry for each of its lines, in
/// order. One line that stands for no entry makes the whole text unreadable.
pub open spec fn load_spec(content: Seq<char>) -> Result<Seq<RecordView>, StoreError> {
    decode_all_spec(lines_spec(content))
}

/// The text that stands for a list: the line of each entry, in order, each
/// followed by a line terminator.
pub open spec fn serialize_spec(records: Seq<RecordView>) -> Seq<char>
    decreases records.len(),
{
    if records.len() == 0 {
        Seq::empty()
    } else {
        serialize_spec(records.drop_last()) + encode_spec(records.last()) + seq!['\n']
    }
}

/// The text that an operation leaves behind, or the reason why it leaves
/// none. Clearing leaves the empty text, whatever was there; every other
/// operation needs the old text to be readable.
pub open spec fn rewrite_spec(content: Seq<char>, op: OperationView) -> Result<
    Seq<char>,
    StoreError,
> {
    if op is Clear {
        Ok(Seq::empty())
    } else {
        match load_spec(content) {
            Err(e) => Err(e),
            Ok(records) => match apply_spec(records, op) {
                Err(e) => Err(e),
                Ok(next) => Ok(serialize_spec(next)),
            },
        }
    }
}

/// Reads a text as a list of entries.
pub fn load(content: &str) -> (result: Result<Vec<Record>, StoreError>)
    ensures
        match result {
            Ok(records) => load_spec(content@) == Ok::<Seq<RecordView>, StoreError>(
                views(records@),
            ),
            Err(e) => load_spec(content@) == Err::<Seq<RecordView>, StoreError>(e),
        },
{
    let chars = to_chars(content);
    let mut records: Vec<Record> = Vec::new();
    let mut start: usize = 0;
    let ghost mut read: Seq<Seq<char>> = Seq::empty();
    proof {
        assert(chars@.skip(0) =~= content@);
        assert(read + lines_spec(content@) =~= lines_spec(content@));
    }
    while start < chars.len()
        invariant
            start <= chars.len(),
            chars@ == content@,
            lines_spec(content@) == read + lines_spec(chars@.skip(start as int)),
            read.len() == records.len(),
            forall|k: int|
                0 <= k < read.len() ==> decode_spec(#[trigger] read[k]) == Ok::<
                    RecordView,
                    StoreError,
                >(records@[k]@),
        decreases chars.len() - start,
    {
        let end = find(&chars, start, chars.len(), '\n');
        let next = if end < chars.len() { end + 1 } else { end };
        let ghost rest = chars@.skip(start as int);
        let ghost line = rest.take(end - start);
        proof {
            // `line` is the first line of what is left, and `next` is where
            // the lines after it begin.
            assert(chars@.subrange(start as int, chars.len() as int) =~= rest);
            assert(chars@.subrange(start as int, end as int) =~= line);
            if end < chars.len() {
                assert(chars@.skip(next as int) =~= rest.skip(end - start + 1));
            } else {
                assert(line =~= rest);
                assert(lines_spec(chars@.skip(next as int)) =~= Seq::<Seq<char>>::empty());
            }
            assert(lines_spec(rest) =~= seq![line] + lines_spec(chars@.skip(next as int)));
            assert(lines_spec(content@) =~= read.push(line) + lines_spec(
                chars@.skip(next as int),
            ));
        }
        match decode_range(&chars, start, end) {
            Ok(record) => {
                records.push(record);
            },
            Err(e) => {
                assert(lines_spec(content@)[read.len() as int] == line);
                return Err(e);
            },
        }
        proof {
            read = read.push(line);
        }
        start = next;
    }
    proof {
        assert(lines_spec(chars@.skip(start as int)) =~= Seq::<Seq<char>>::empty());
        assert(lines_spec(content@) =~= read);
        assert(views(records@) =~= Seq::new(read.len(), |k: int| decode_spec(read[k])->Ok_0));
    }
    Ok(records)
}

/// Writes a list as text.
pub fn serialize(records: &Vec<Record>) -> (content: String)
    ensures
        content@ == serialize_spec(views(records@)),
{
    let mut content = String::new();
    let mut i: usize = 0;
    while i < records.len()
        invariant
            i <= records.len(),
            content@ == serialize_spec(views(records@).take(i as int)),
        decreases records.len() - i,
    {
        let line = encode(&records[i]);
        content.append(line.as_str());
        content.push('\n');
        proof {
            let longer = views(records@).take(i + 1);
            assert(longer.drop_last() =~= views(records@).take(i as int));
            assert(longer.last() == records@[i as int]@);
        }
        i += 1;
    }
    assert(views(records@).take(i as int) =~= views(records@));
    content
}

/// Computes the text that an operation leaves behind.
pub fn rewrite(content: &str, op: Operation) -> (result: Result<String, StoreError>)
    ensures
        match result {
            Ok(next) => rewrite_spec(content@, op@) == Ok::<Seq<char>, StoreError>(next@),
            Err(e) => rewrite_spec(content@, op@) == Err::<Seq<char>, StoreError>(e),
        },
{
    if let Operation::Clear = op {
        return Ok(String::new());
    }
    let records = match load(content) {
        Ok(records) => records,
        Err(e) => {
            return Err(e);
        },
    };
    match apply(records, op) {
        Ok(next) => Ok(serialize(&next)),
        Err(e) => Err(e),
    }
}

/// The text that is left when an entry with this text is added: the old
/// list, then a pending, non-urgent entry.
pub fn add(content: &str, text: String) -> (result: Result<String, StoreError>)
    ensures
        match result {
            Ok(next) => rewrite_spec(content@, OperationView::Add(text@)) == Ok::<
                Seq<char>,
                StoreError,
            >(next@),
            Err(e) => rewrite_spec(content@, OperationView::Add(text@)) == Err::<
                Seq<char>,
                StoreError,
            >(e),
        },
{
    rewrite(content, Operation::Add(text))
}

/// The text that is left when the entry at position `id` is removed.
pub fn remove(content: &str, id: u32) -> (result: Result<String, StoreError>)
    ensures
        match result {
            Ok(next) => rewrite_spec(content@, OperationView::Remove(id as nat)) == Ok::<
                Seq<char>,
                StoreError,
            >(next@),
            Err(e) => rewrite_spec(content@, OperationView::Remove(id as nat)) == Err::<
                Seq<char>,
                StoreError,
            >(e),
        },
{
    rewrite(content, Operation::Remove(id))
}

/// The text that is left when the completion flag of the entry at position
/// `id` is flipped.
pub fn done(content: &str, id: u32) -> (result: Result<String, StoreError>)
    ensures
        match result {
            Ok(next) => rewrite_spec(content@, OperationView::ToggleDone(id as nat)) == Ok::<
                Seq<char>,
                StoreError,
            >(next@),
            Err(e) => rewrite_spec(content@, OperationView::ToggleDone(id as nat)) == Err::<
                Seq<char>,
                StoreError,
            >(e),
        },
{
    rewrite(content, Operation::ToggleDone(id))
}

/// The text that is left when the urgency flag of the entry at position `id`
/// is flipped.
pub fn urgent(content: &str, id: u32) -> (result: Result<String, StoreError>)
    ensures
        match result {
            Ok(next) => rewrite_spec(content@, OperationView::ToggleUrgent(id as nat)) == Ok::<
                Seq<char>,
                StoreError,
            >(next@),
            Err(e) => rewrite_spec(content@, OperationView::ToggleUrgent(id as nat)) == Err::<
                Seq<char>,
                StoreError,
            >(e),
        },
{
    rewrite(content, Operation::ToggleUrgent(id))
}

/// The text of a list in two parts is the text of the first part followed by
/// the text of the second.
pub proof fn lemma_serialize_concat(first: Seq<RecordView>, second: Seq<RecordView>)
    ensures
        serialize_spec(first + second) == serialize_spec(first) + serialize_spec(second),
    decreases second.len(),
{
    if second.len() == 0 {
        assert(first + second =~= first);
        assert(serialize_spec(first) + serialize_spec(second) =~= serialize_spec(first));
    } else {
        lemma_serialize_concat(first, second.drop_last());
        assert((first + second).drop_last() =~= first + second.drop_last());
        assert(serialize_spec(first + second) =~= serialize_spec(first) + serialize_spec(second));
    }
}

/// The line of an entry that can be stored on one line holds no line
/// terminator.
pub proof fn lemma_encode_is_one_line(record: RecordView)
    requires
        record.valid(),
    ensures
        !encode_spec(record).contains('\n'),
{
    lemma_tokens(record.done);
    lemma_tokens(record.urgent);
}

/// No line of a text holds a line terminator.
pub proof fn lemma_lines_are_single(content: Seq<char>)
    ensures
        forall|k: int|
            0 <= k < lines_spec(content).len() ==> !(#[trigger] lines_spec(content)[k]).contains(
                '\n',
            ),
    decreases content.len(),
{
    let i = first_index(content, '\n');
    lemma_first_index(content, '\n');
    if content.len() > 0 && i < content.len() {
        let rest = lines_spec(content.skip(i + 1));
        lemma_lines_are_single(content.skip(i + 1));
        assert forall|k: int| 0 <= k < lines_spec(content).len() implies !(
        #[trigger] lines_spec(content)[k]).contains('\n') by {
            if k > 0 {
                assert(lines_spec(content)[k] == rest[k - 1]);
            }
        }
    }
}

/// The text of an entry read from a line holds no character that the line
/// does not hold: read from a single line, the entry can be stored on one.
pub proof fn lemma_decode_is_valid(line: Seq<char>)
    requires
        !line.contains('\n'),
    ensures
        decode_spec(line) matches Ok(record) ==> record.valid(),
{
    if let Ok(record) = decode_spec(line) {
        let i = first_index(line, ' ');
        let rest = line.skip(i + 1);
        let j = first_index(rest, ' ');
        lemma_first_index(line, ' ');
        lemma_first_index(rest, ' ');
        assert forall|m: int| 0 <= m < record.text.len() implies record.text[m] != '\n' by {
            assert(record.text[m] == line[i + 1 + j + 1 + m]);
        }
    }
}

/// Every entry of a list read from a text can be stored on one line.
pub proof fn lemma_load_is_valid(content: Seq<char>)
    ensures
        load_spec(content) matches Ok(records) ==> all_valid(records),
{
    if let Ok(records) = load_spec(content) {
        let lines = lines_spec(content);
        lemma_lines_are_single(content);
        assert forall|k: int| 0 <= k < records.len() implies (#[trigger] records[k]).valid() by {
            lemma_decode_is_valid(lines[k]);
        }
    }
}

/// The lines of the text of a list are the lines of its entries, where each
/// entry can be stored on one line.
pub proof fn lemma_lines_of_serialized(records: Seq<RecordView>)
    requires
        all_valid(records),
    ensures
        lines_spec(serialize_spec(records)) == Seq::new(
            records.len(),
            |k: int| encode_spec(records[k]),
        ),
    decreases records.len(),
{
    let content = serialize_spec(records);
    let lines = Seq::new(records.len(), |k: int| encode_spec(records[k]));
    if records.len() == 0 {
        assert(lines_spec(content) =~= lines);
    } else {
        let head = seq![records[0]];
        let tail = records.drop_first();
        let line = encode_spec(records[0]);
        assert(records =~= head + tail);
        lemma_serialize_concat(head, tail);
        assert(head.drop_last() =~= Seq::<RecordView>::empty());
        assert(serialize_spec(head.drop_last()) =~= Seq::<char>::empty());
        assert(serialize_spec(head) =~= line + seq!['\n']);
        lemma_encode_is_one_line(records[0]);
        lemma_first_index_is(content, '\n', line.len() as int);
        assert(content.take(line.len() as int) =~= line);
        assert(content.skip(line.len() as int + 1) =~= serialize_spec(tail));
        lemma_lines_of_serialized(tail);
        assert(lines_spec(content) =~= lines);
    }
}

/// Round trip of a whole file: the text written for a list is read back as
/// that list, where each entry can be stored on one line.
pub proof fn lemma_load_serialize(records: Seq<RecordView>)
    requires
        all_valid(records),
    ensures
        load_spec(serialize_spec(records)) == Ok::<Seq<RecordView>, StoreError>(records),
{
    let lines = lines_spec(serialize_spec(records));
    lemma_lines_of_serialized(records);
    assert forall|k: int| 0 <= k < lines.len() implies decode_spec(#[trigger] lines[k]) == Ok::<
        RecordView,
        StoreError,
    >(records[k]) by {
        lemma_decode_encode(records[k]);
    }
    assert(Seq::new(lines.len(), |k: int| decode_spec(lines[k])->Ok_0) =~= records);
}

/// What an operation writes is read back as the list that the engine made:
/// the text it leaves behind stands for the old list with the operation
/// applied, where the operation brings no text that holds a line terminator.
pub proof fn lemma_rewrite_reads_back(content: Seq<char>, op: OperationView)
    requires
        op.valid(),
    ensures
        rewrite_spec(content, op) matches Ok(next) ==> load_spec(next) == if op is Clear {
            Ok::<Seq<RecordView>, StoreError>(Seq::empty())
        } else {
            apply_spec(load_spec(content)->Ok_0, op)
        },
{
    if let Ok(next) = rewrite_spec(content, op) {
        if op is Clear {
            assert(lines_spec(next) =~= Seq::<Seq<char>>::empty());
            assert(Seq::new(0, |k: int| decode_spec(lines_spec(next)[k])->Ok_0)
                =~= Seq::<RecordView>::empty());
        } else {
            let records = load_spec(content)->Ok_0;
            lemma_load_is_valid(content);
            lemma_apply_keeps_valid(records, op);
            lemma_load_serialize(apply_spec(records, op)->Ok_0);
        }
    }
}

/// When an operation leaves no text behind. Clearing always leaves one. Any
/// other operation is refused with `MalformedRecord` exactly where the old
/// text is unreadable, and with `InvalidId` exactly where the old text is
/// readable and the operation addresses a position that is not below the
/// number of its entries. A refusal brings no text: the file stays as it is.
pub proof fn lemma_rewrite_refused(content: Seq<char>, op: OperationView)
    ensures
        op is Clear ==> rewrite_spec(content, op) is Ok,
        rewrite_spec(content, op) == Err::<Seq<char>, StoreError>(StoreError::MalformedRecord)
            <==> !(op is Clear) && load_spec(content) is Err,
        rewrite_spec(content, op) == Err::<Seq<char>, StoreError>(StoreError::InvalidId) <==> {
            &&& load_spec(content) matches Ok(records)
            &&& match op {
                OperationView::Remove(id) => id >= records.len(),
                OperationView::ToggleDone(id) => id >= records.len(),
                OperationView::ToggleUrgent(id) => id >= records.len(),
                _ => false,
            }
        },
        rewrite_spec(content, op) matches Err(e) ==> e == StoreError::MalformedRecord || e
            == StoreError::InvalidId,
{
}

/// Flipping a flag twice through the file gives back the text of the list
/// that the file stood for.
pub proof fn lemma_rewrite_toggle_twice(content: Seq<char>, id: nat)
    requires
        load_spec(content) matches Ok(records) && id < records.len(),
    ensures
        rewrite_spec(content, OperationView::ToggleDone(id)) matches Ok(once) && rewrite_spec(
            once,
            OperationView::ToggleDone(id),
        ) == Ok::<Seq<char>, StoreError>(serialize_spec(load_spec(content)->Ok_0)),
        rewrite_spec(content, OperationView::ToggleUrgent(id)) matches Ok(once) && rewrite_spec(
            once,
            OperationView::ToggleUrgent(id),
        ) == Ok::<Seq<char>, StoreError>(serialize_spec(load_spec(content)->Ok_0)),
{
    let records = load_spec(content)->Ok_0;
    lemma_toggle_twice(records, id);
    lemma_rewrite_reads_back(content, OperationView::ToggleDone(id));
    lemma_rewrite_reads_back(content, OperationView::ToggleUrgent(id));
}

/// On a text that was written for a list, flipping a flag twice gives back
/// that very text.
pub proof fn lemma_rewrite_toggle_twice_on_written(records: Seq<RecordView>, id: nat)
    requires
        all_valid(records),
        id < records.len(),
    ensures
        rewrite_spec(serialize_spec(records), OperationView::ToggleDone(id)) matches Ok(once)
            && rewrite_spec(once, OperationView::ToggleDone(id)) == Ok::<Seq<char>, StoreError>(
            serialize_spec(records),
        ),
        rewrite_spec(serialize_spec(records), OperationView::ToggleUrgent(id)) matches Ok(once)
            && rewrite_spec(once, OperationView::ToggleUrgent(id)) == Ok::<Seq<char>, StoreError>(
            serialize_spec(records),
        ),
{
    lemma_load_serialize(records);
    lemma_rewrite_toggle_twice(serialize_spec(records), id);
}

/// On a text that was written for a list, adding an entry appends its line
/// and leaves every line that was there as it is.
pub proof fn lemma_add_appends_a_line(records: Seq<RecordView>, text: Seq<char>)
    requires
        all_valid(records),
    ensures
        rewrite_spec(serialize_spec(records), OperationView::Add(text)) == Ok::<
            Seq<char>,
            StoreError,
        >(serialize_spec(records) + encode_spec(fresh(text)) + seq!['\n']),
{
    lemma_load_serialize(records);
    assert(records.push(fresh(text)).drop_last() =~= records);
}

} // verus!
