use todo_list::display::{format_row, list, paint, rows, style_of, Style};
use todo_list::record::{Record, StoreError};

fn line(done: bool, urgent: bool, text: &str) -> Record {
    Record { done, urgent, text: text.to_string() }
}

#[test]
fn being_done_wins_over_being_urgent() {
    assert_eq!(style_of(&line(true, false, "a")), Style::Done);
    assert_eq!(style_of(&line(true, true, "a")), Style::Done);
    assert_eq!(style_of(&line(false, true, "a")), Style::Urgent);
    assert_eq!(style_of(&line(false, false, "a")), Style::Plain);
}

#[test]
fn a_row_holds_checkbox_position_and_text() {
    assert_eq!(format_row(0, true, "a"), "\u{2611} [0] a");
    assert_eq!(format_row(1, false, "buy milk"), "\u{2610} [1] buy milk");
    assert_eq!(format_row(2, false, ""), "\u{2610} [2] ");
}

#[test]
fn a_position_is_written_in_decimal() {
    assert_eq!(format_row(9, false, "x"), "\u{2610} [9] x");
    assert_eq!(format_row(10, false, "x"), "\u{2610} [10] x");
    assert_eq!(format_row(407, true, "x"), "\u{2611} [407] x");
    assert_eq!(format_row(1000, true, "x"), "\u{2611} [1000] x");
    assert_eq!(format_row(4294967295, true, "x"), "\u{2611} [4294967295] x");
}

#[test]
fn rows_follow_the_colour_switch() {
    let entries = vec![line(true, true, "a"), line(false, true, "b"), line(false, false, "c d")];
    colored::control::set_override(false);
    assert_eq!(rows(&entries), vec!["\u{2611} [0] a", "\u{2610} [1] b", "\u{2610} [2] c d"]);
    colored::control::set_override(true);
    assert_eq!(
        rows(&entries),
        vec![
            "\u{2611} [0] \u{1b}[32ma\u{1b}[0m",
            "\u{2610} [1] \u{1b}[1;3;31mb\u{1b}[0m",
            "\u{2610} [2] \u{1b}[31mc d\u{1b}[0m",
        ]
    );
    assert_eq!(paint("a", Style::Done), "\u{1b}[32ma\u{1b}[0m");
    assert_eq!(paint("a", Style::Urgent), "\u{1b}[1;3;31ma\u{1b}[0m");
    assert_eq!(paint("a", Style::Plain), "\u{1b}[31ma\u{1b}[0m");
    assert_eq!(
        paint("a\u{1b}[0mb", Style::Plain),
        "\u{1b}[31ma\u{1b}[0m\u{1b}[31mb\u{1b}[0m"
    );
    colored::control::set_override(false);
    assert_eq!(paint("a", Style::Done), "a");
    assert_eq!(paint("a", Style::Urgent), "a");
    assert_eq!(paint("a", Style::Plain), "a");
    colored::control::unset_override();
}

#[test]
fn every_row_starts_with_checkbox_and_position() {
    let shown = list("DONE NORMAL a\nNOT_DONE URGENT b\nNOT_DONE NORMAL c").unwrap();
    assert_eq!(shown.len(), 3);
    assert!(shown[0].starts_with("\u{2611} [0] "));
    assert!(shown[1].starts_with("\u{2610} [1] "));
    assert!(shown[2].starts_with("\u{2610} [2] "));
    assert!(shown[0]["\u{2611} [0] ".len()..].contains("a"));
    assert!(shown[1]["\u{2610} [1] ".len()..].contains("b"));
    assert!(shown[2]["\u{2610} [2] ".len()..].contains("c"));
}

#[test]
fn a_shown_text_holds_the_text_as_one_piece() {
    for style in [Style::Done, Style::Urgent, Style::Plain] {
        for text in ["", "a", "buy milk", "caf\u{e9}  au lait "] {
            assert!(paint(text, style).contains(text));
        }
    }
}

#[test]
fn the_list_of_an_empty_text_has_no_rows() {
    assert_eq!(list(""), Ok(Vec::new()));
}

#[test]
fn the_list_of_an_unreadable_text_is_refused() {
    assert_eq!(list("DONE\n"), Err(StoreError::MalformedRecord));
}
