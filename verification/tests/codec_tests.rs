use todo_list::codec::{decode, encode};
use todo_list::record::{is_valid_text, Record, StoreError};

fn record(done: bool, urgent: bool, text: &str) -> Record {
    Record { done, urgent, text: text.to_string() }
}

#[test]
fn encode_writes_both_tokens_and_the_text() {
    assert_eq!(encode(&record(false, false, "buy milk")), "NOT_DONE NORMAL buy milk");
    assert_eq!(encode(&record(true, false, "a")), "DONE NORMAL a");
    assert_eq!(encode(&record(false, true, "b")), "NOT_DONE URGENT b");
    assert_eq!(encode(&record(true, true, "c d")), "DONE URGENT c d");
}

#[test]
fn encode_of_an_empty_text_keeps_the_second_space() {
    assert_eq!(encode(&record(true, true, "")), "DONE URGENT ");
}

#[test]
fn decode_reads_flags_and_text() {
    assert_eq!(decode("DONE NORMAL a"), Ok(record(true, false, "a")));
    assert_eq!(decode("NOT_DONE URGENT b"), Ok(record(false, true, "b")));
    assert_eq!(decode("NOT_DONE NORMAL buy milk"), Ok(record(false, false, "buy milk")));
    assert_eq!(decode("DONE URGENT x"), Ok(record(true, true, "x")));
}

#[test]
fn decode_keeps_every_space_of_the_text() {
    assert_eq!(decode("DONE NORMAL  two  spaces "), Ok(record(true, false, " two  spaces ")));
}

#[test]
fn decode_reads_an_empty_text() {
    assert_eq!(decode("NOT_DONE NORMAL "), Ok(record(false, false, "")));
}

#[test]
fn decode_refuses_a_line_with_fewer_than_three_tokens() {
    assert_eq!(decode(""), Err(StoreError::MalformedRecord));
    assert_eq!(decode("DONE"), Err(StoreError::MalformedRecord));
    assert_eq!(decode("DONE NORMAL"), Err(StoreError::MalformedRecord));
    assert_eq!(decode("DONE "), Err(StoreError::MalformedRecord));
    assert_eq!(decode("word"), Err(StoreError::MalformedRecord));
}

#[test]
fn decode_takes_any_other_token_as_a_cleared_flag() {
    assert_eq!(decode("done urgent a"), Ok(record(false, false, "a")));
    assert_eq!(decode("NOT_DONE NORMAL a"), Ok(record(false, false, "a")));
    assert_eq!(decode("DONE URGENTLY a"), Ok(record(true, false, "a")));
    assert_eq!(decode("  "), Ok(record(false, false, "")));
}

#[test]
fn decode_reads_text_beyond_ascii() {
    assert_eq!(
        decode("NOT_DONE URGENT caf\u{e9} \u{2611} \u{1F600}"),
        Ok(record(false, true, "caf\u{e9} \u{2611} \u{1F600}"))
    );
}

#[test]
fn decode_undoes_encode() {
    let texts = ["", "a", "buy milk", " lead", "trail ", "DONE URGENT", "a  b", "\u{fc}ber"];
    for text in texts {
        for done in [false, true] {
            for urgent in [false, true] {
                let r = record(done, urgent, text);
                assert_eq!(decode(&encode(&r)), Ok(r));
            }
        }
    }
}

#[test]
fn decode_undoes_encode_even_with_a_line_terminator_in_the_text() {
    let r = record(true, false, "two\nlines");
    assert_eq!(decode(&encode(&r)), Ok(r));
}

#[test]
fn a_text_is_valid_without_a_line_terminator() {
    assert!(is_valid_text(""));
    assert!(is_valid_text("buy milk"));
    assert!(is_valid_text("carriage\rreturn"));
    assert!(!is_valid_text("\n"));
    assert!(!is_valid_text("two\nlines"));
    assert!(!is_valid_text("ends with one\n"));
}
