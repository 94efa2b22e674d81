//! The line codec: an entry is written as its two flag tokens and its text,
//! separated by single spaces, and read back from such a line.

use vstd::prelude::*;
use crate::record::{Record, RecordView, StoreError};
use crate::text::{
    find, first_index, lemma_first_index, lemma_first_index_is, lemma_occurrences_after_first,
    occurrences, substring, to_chars,
};

verus! {

/// The token that stands for the completion flag.
pub open spec fn done_token(done: bool) -> Seq<char> {
    if done {
        "DONE"@
    } else {
        "NOT_DONE"@
    }
}

/// The token that stands for the urgency flag.
pub open spec fn urgent_token(urgent: bool) -> Seq<char> {
    if urgent {
        "URGENT"@
    } else {
        "NORMAL"@
    }
}

/// The line that stands for an entry: both tokens and the text, with one
/// space after each token.
pub open spec fn encode_spec(record: RecordView) -> Seq<char> {
    done_token(record.done) + seq![' '] + urgent_token(record.urgent) + seq![' '] + record.text
}

/// The entry that a line stands for. The line is cut at its first two spaces:
/// the entry is done where the first piece is `DONE`, urgent where the second
/// is `URGENT`, and its text is all that follows the second space. A line
/// with fewer than two spaces stands for no entry.
pub open spec fn decode_spec(line: Seq<char>) -> Result<RecordView, StoreError> {
    let i = first_index(line, ' ');
    if i >= line.len() {
        Err(StoreError::MalformedRecord)
    } else {
        let rest = line.skip(i + 1);
        let j = first_index(rest, ' ');
        if j >= rest.len() {
            Err(StoreError::MalformedRecord)
        } else {
            Ok(
                RecordView {
                    done: line.take(i) == "DONE"@,
                    urgent: rest.take(j) == "URGENT"@,
                    text: rest.skip(j + 1),
                },
            )
        }
    }
}

/// Writes an entry as a line, without a line terminator.
pub fn encode(record: &Record) -> (line: String)
    ensures
        line@ == encode_spec(record@),
{
    let mut line = String::new();
    line.append(if record.done { "DONE" } else { "NOT_DONE" });
    line.push(' ');
    line.append(if record.urgent { "URGENT" } else { "NORMAL" });
    line.push(' ');
    line.append(record.text.as_str());
    assert(line@ =~= encode_spec(record@));
    line
}

/// Reads the entry that `chars[from..to]` stands for.
pub(crate) fn decode_range(chars: &Vec<char>, from: usize, to: usize) -> (result: Result<
    Record,
    StoreError,
>)
    requires
        from <= to <= chars.len(),
    ensures
        match result {
            Ok(record) => decode_spec(chars@.subrange(from as int, to as int)) == Ok::<
                RecordView,
                StoreError,
            >(record@),
            Err(e) => decode_spec(chars@.subrange(from as int, to as int)) == Err::<
                RecordView,
                StoreError,
            >(e),
        },
{
    let ghost line = chars@.subrange(from as int, to as int);
    let i = find(chars, from, to, ' ');
    if i >= to {
        return Err(StoreError::MalformedRecord);
    }
    let j = find(chars, i + 1, to, ' ');
    assert(chars@.subrange(i + 1, to as int) =~= line.skip(i - from + 1));
    if j >= to {
        return Err(StoreError::MalformedRecord);
    }
    let first = substring(chars, from, i);
    let second = substring(chars, i + 1, j);
    let text = substring(chars, j + 1, to);
    let ghost rest = line.skip(i - from + 1);
    assert(first@ =~= line.take(i - from));
    assert(second@ =~= rest.take(j - i - 1));
    assert(text@ =~= rest.skip(j - i));
    let done = first == "DONE".to_owned();
    let urgent = second == "URGENT".to_owned();
    Ok(Record { done, urgent, text })
}

/// Reads the entry that a line stands for. The line comes without its
/// terminator.
pub fn decode(line: &str) -> (result: Result<Record, StoreError>)
    ensures
        match result {
            Ok(record) => decode_spec(line@) == Ok::<RecordView, StoreError>(record@),
            Err(e) => decode_spec(line@) == Err::<RecordView, StoreError>(e),
        },
{
    let chars = to_chars(line);
    assert(chars@.subrange(0, chars.len() as int) =~= line@);
    decode_range(&chars, 0, chars.len())
}

/// Neither flag token holds a space or a line terminator, and the two tokens
/// of each flag differ.
pub proof fn lemma_tokens(flag: bool)
    ensures
        !done_token(flag).contains(' '),
        !done_token(flag).contains('\n'),
        !urgent_token(flag).contains(' '),
        !urgent_token(flag).contains('\n'),
        done_token(true) != done_token(false),
        urgent_token(true) != urgent_token(false),
{
    reveal_strlit("DONE");
    reveal_strlit("NOT_DONE");
    reveal_strlit("URGENT");
    reveal_strlit("NORMAL");
    assert(done_token(true).len() != done_token(false).len());
    assert(urgent_token(true)[0] != urgent_token(false)[0]);
}

/// Round trip: the line written for an entry is read back as that entry,
/// whatever its text.
pub proof fn lemma_decode_encode(record: RecordView)
    ensures
        decode_spec(encode_spec(record)) == Ok::<RecordView, StoreError>(record),
{
    let first = done_token(record.done);
    let second = urgent_token(record.urgent);
    let line = encode_spec(record);
    lemma_tokens(record.done);
    lemma_tokens(record.urgent);
    lemma_first_index_is(line, ' ', first.len() as int);
    let rest = line.skip(first.len() as int + 1);
    assert(rest =~= second + seq![' '] + record.text);
    lemma_first_index_is(rest, ' ', second.len() as int);
    assert(line.take(first.len() as int) =~= first);
    assert(rest.take(second.len() as int) =~= second);
    assert(rest.skip(second.len() as int + 1) =~= record.text);
}

/// A line stands for an entry exactly where it holds two spaces or more,
/// that is, where cutting it at its spaces gives three tokens or more. Every
/// other line is refused as `MalformedRecord`.
pub proof fn lemma_decode_needs_two_spaces(line: Seq<char>)
    ensures
        decode_spec(line) is Ok <==> occurrences(line, ' ') >= 2,
        decode_spec(line) matches Err(e) ==> e == StoreError::MalformedRecord,
{
    let i = first_index(line, ' ');
    lemma_first_index(line, ' ');
    lemma_occurrences_after_first(line, ' ');
    if i < line.len() {
        let rest = line.skip(i + 1);
        lemma_first_index(rest, ' ');
        lemma_occurrences_after_first(rest, ' ');
    }
}

} // verus!
