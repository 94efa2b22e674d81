use todo_list::engine::Operation;
use todo_list::record::{Record, StoreError};
use todo_list::store;
use todo_list::store::{load, rewrite, serialize};

fn item(done: bool, urgent: bool, text: &str) -> Record {
    Record { done, urgent, text: text.to_string() }
}

const TWO: &str = "DONE NORMAL a\nNOT_DONE URGENT b\n";

#[test]
fn load_reads_one_entry_per_line() {
    assert_eq!(load(TWO), Ok(vec![item(true, false, "a"), item(false, true, "b")]));
}

#[test]
fn load_of_an_empty_text_is_the_empty_list() {
    assert_eq!(load(""), Ok(Vec::new()));
}

#[test]
fn load_reads_a_last_line_without_terminator() {
    assert_eq!(
        load("DONE NORMAL a\nNOT_DONE URGENT b"),
        Ok(vec![item(true, false, "a"), item(false, true, "b")])
    );
    assert_eq!(load("NOT_DONE NORMAL only"), Ok(vec![item(false, false, "only")]));
}

#[test]
fn load_refuses_a_blank_line() {
    assert_eq!(load("\n"), Err(StoreError::MalformedRecord));
    assert_eq!(load("DONE NORMAL a\n\n"), Err(StoreError::MalformedRecord));
    assert_eq!(load("DONE NORMAL a\n\nDONE NORMAL b\n"), Err(StoreError::MalformedRecord));
}

#[test]
fn load_refuses_the_whole_text_for_one_malformed_line() {
    assert_eq!(load("DONE NORMAL a\nDONE\nDONE NORMAL c\n"), Err(StoreError::MalformedRecord));
    assert_eq!(load("DONE NORMAL a\nDONE NORMAL"), Err(StoreError::MalformedRecord));
}

#[test]
fn load_keeps_a_carriage_return_in_the_text() {
    assert_eq!(load("DONE NORMAL a\r\n"), Ok(vec![item(true, false, "a\r")]));
}

#[test]
fn serialize_ends_every_line() {
    assert_eq!(serialize(&vec![item(true, false, "a"), item(false, true, "b")]), TWO);
    assert_eq!(serialize(&Vec::new()), "");
    assert_eq!(serialize(&vec![item(false, false, "")]), "NOT_DONE NORMAL \n");
}

#[test]
fn load_undoes_serialize() {
    let list = vec![
        item(true, false, "a"),
        item(false, true, "b  c"),
        item(true, true, ""),
        item(false, false, "DONE NORMAL"),
        item(false, false, "caf\u{e9}"),
    ];
    assert_eq!(load(&serialize(&list)), Ok(list));
}

#[test]
fn adding_to_an_empty_file() {
    let next = store::add("", "buy milk".to_string()).unwrap();
    assert_eq!(next, "NOT_DONE NORMAL buy milk\n");
    assert_eq!(load(&next), Ok(vec![item(false, false, "buy milk")]));
}

#[test]
fn adding_keeps_what_was_there() {
    assert_eq!(
        store::add(TWO, "c".to_string()),
        Ok("DONE NORMAL a\nNOT_DONE URGENT b\nNOT_DONE NORMAL c\n".to_string())
    );
}

#[test]
fn adding_ends_a_last_line_that_had_no_terminator() {
    assert_eq!(
        store::add("DONE NORMAL a", "b".to_string()),
        Ok("DONE NORMAL a\nNOT_DONE NORMAL b\n".to_string())
    );
}

#[test]
fn toggling_urgency_of_the_first_of_two() {
    assert_eq!(store::urgent(TWO, 0), Ok("DONE URGENT a\nNOT_DONE URGENT b\n".to_string()));
}

#[test]
fn toggling_urgency_off() {
    assert_eq!(store::urgent(TWO, 1), Ok("DONE NORMAL a\nNOT_DONE NORMAL b\n".to_string()));
}

#[test]
fn toggling_completion() {
    assert_eq!(store::done(TWO, 0), Ok("NOT_DONE NORMAL a\nNOT_DONE URGENT b\n".to_string()));
    assert_eq!(store::done(TWO, 1), Ok("DONE NORMAL a\nDONE URGENT b\n".to_string()));
}

#[test]
fn toggling_twice_gives_back_the_text() {
    let once = store::done(TWO, 1).unwrap();
    assert_eq!(store::done(&once, 1), Ok(TWO.to_string()));
    let once = store::urgent(TWO, 0).unwrap();
    assert_eq!(store::urgent(&once, 0), Ok(TWO.to_string()));
}

#[test]
fn removing_the_first_of_two_leaves_the_second_at_position_zero() {
    let next = store::remove(TWO, 0).unwrap();
    assert_eq!(next, "NOT_DONE URGENT b\n");
    let list = load(&next).unwrap();
    assert_eq!(list.len(), 1);
    assert_eq!(list[0], load(TWO).unwrap()[1]);
}

#[test]
fn clearing_leaves_an_empty_text() {
    assert_eq!(rewrite(TWO, Operation::Clear), Ok(String::new()));
    assert_eq!(rewrite("not a list at all\n\n", Operation::Clear), Ok(String::new()));
    assert_eq!(rewrite("", Operation::Clear), Ok(String::new()));
}

#[test]
fn a_position_out_of_range_leaves_no_text() {
    assert_eq!(store::remove(TWO, 2), Err(StoreError::InvalidId));
    assert_eq!(store::done(TWO, 2), Err(StoreError::InvalidId));
    assert_eq!(store::urgent(TWO, 2), Err(StoreError::InvalidId));
    assert_eq!(store::remove(TWO, 7), Err(StoreError::InvalidId));
    assert_eq!(store::remove("", 0), Err(StoreError::InvalidId));
    assert_eq!(rewrite(TWO, Operation::ToggleDone(2)), Err(StoreError::InvalidId));
}

#[test]
fn an_unreadable_text_is_refused_before_the_position_is_looked_at() {
    assert_eq!(store::remove("DONE\n", 5), Err(StoreError::MalformedRecord));
    assert_eq!(store::done("DONE\n", 0), Err(StoreError::MalformedRecord));
    assert_eq!(store::urgent("\n", 0), Err(StoreError::MalformedRecord));
    assert_eq!(store::add("DONE NORMAL\n", "x".to_string()), Err(StoreError::MalformedRecord));
}

#[test]
fn rewriting_writes_every_line_in_the_two_token_form() {
    assert_eq!(
        store::remove("done urgent a\nDONE NORMAL b\nx y z", 1),
        Ok("NOT_DONE NORMAL a\nNOT_DONE NORMAL z\n".to_string())
    );
}

#[test]
fn what_is_written_reads_back_as_the_edited_list() {
    let ops = vec![
        Operation::Add("new one".to_string()),
        Operation::Remove(1),
        Operation::Clear,
        Operation::ToggleDone(0),
        Operation::ToggleUrgent(1),
    ];
    for op in ops {
        let expected = todo_list::engine::apply(load(TWO).unwrap(), op.clone());
        let next = rewrite(TWO, op).unwrap();
        assert_eq!(load(&next), expected);
    }
}
