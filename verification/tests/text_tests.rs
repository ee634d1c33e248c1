use novella::common::text::{
    abs_index_of, get_lines_of, last_location_of, location_of, Location, Selection,
};
use novella::nvcore::text_edit::{EditableText, TextView};

const TEST_STRING: &str = r#"use super::*;
use std::fs::File;
use std::io::prelude::*;
use std::path::Path;
#[test]
fn test_range_deletion() {
    let mut text = EditableText::new();
    //open file test.rs
    let path = Path::new("src/nv/text_edit/test.txt");
    let display = path.display();
    let mut file = match File::open(&path) {
        Err(why) => panic!("couldn't open {}: {}", display, why),
        Ok(file) => file,
    };
    //convert file to string
    let mut s = String::new();
    match file.read_to_string(&mut s) {
        Err(why) => panic!("couldn't read {}: {}", display, why),
        Ok(_) => println!("successfully read {}", display),
    }
    //set text to string
    text.set_str(&s);
    text.set_selection(Selection::new(
        Location::new(0, 0),
        text.text.get_last_location(),
    ));
    //delete range
    text.delete_selection();
    println!("{}", text.text);
    //assert that the text is now empty
    assert_eq!(text.text, "");"#;
const TEST_STRING_SHORT: &str = r#"use super::*;
use std::fs::File;
"#;


#[test]
fn test_location_to_abs() {}

#[test]
fn test_range_selection() {
    let mut text = EditableText::new_from_str(TEST_STRING);
    let first_line_size = text.get_text().lines().next().unwrap().len();
    text.set_selection(Selection::new(
        Location::new(0, 0),
        Location::new(0, first_line_size),
    ));
    let selected_text = text
        .get_selection()
        .unwrap()
        .get_selection_string(text.get_text());
    assert_eq!(selected_text, text.get_line(0));
}

#[test]
fn test_get_word_at_cursor() {
    let mut text = EditableText::new_from_str(TEST_STRING);
    text.set_cursor_pos(Location::new(0, 0));
    let test_word = text.get_word_at_cursor();
    let first_word = text.get_line(0).split_whitespace().next().unwrap();
    assert_eq!(test_word, first_word);
}

#[test]
fn insert_then_delete_restores_text() {
    let mut text = EditableText::new_from_str("abc");
    text.set_cursor_pos(Location::new(0, 1));
    text.insert('x');
    assert_eq!(text.get_text(), "axbc");
    assert_eq!(text.get_cursor_pos(), Location::new(0, 2));
    text.delete();
    assert_eq!(text.get_text(), "abc");
    assert_eq!(text.get_cursor_pos(), Location::new(0, 1));
}

#[test]
fn delete_at_start_changes_nothing() {
    let mut text = EditableText::new_from_str("abc");
    text.delete();
    assert_eq!(text.get_text(), "abc");
    assert_eq!(text.get_cursor_pos(), Location::new(0, 0));
}

#[test]
fn delete_selection_cuts_the_range() {
    let mut text = EditableText::new_from_str("hello world");
    text.set_selection(Selection::new(Location::new(0, 6), Location::new(0, 11)));
    let cut = text.delete_selection();
    assert_eq!(cut, "world");
    assert_eq!(text.get_text(), "hello ");
}

#[test]
fn lines_split_on_newline() {
    let text = EditableText::new_from_str("one\ntwo\n");
    assert_eq!(text.get_line(0), "one");
    assert_eq!(text.get_line(1), "two");
    assert_eq!(text.get_line(2), "");
}

#[test]
fn increment_cursor_moves_to_next_line_at_end() {
    let mut text = EditableText::new_from_str("ab\ncd");
    text.set_cursor_pos(Location::new(0, 2));
    text.increment_cursor_pos();
    assert_eq!(text.get_cursor_pos(), Location::new(1, 0));
    text.increment_cursor_pos();
    assert_eq!(text.get_cursor_pos(), Location::new(1, 1));
}

#[test]
fn char_at_counts_characters_of_the_whole_text() {
    let text = EditableText::new_from_str("ab\ncd");
    assert_eq!(text.get_char_at(Location::new(5, 3)), 'c');
    assert_eq!(text.get_char_at(Location::new(0, 9)), '\0');
}

#[test]
fn text_view_gives_its_range() {
    let view = TextView::new("hello world", (6, 11));
    assert_eq!(view.get_range_string(), "world");
}

#[test]
fn test_get_lines() {
    let text = TEST_STRING_SHORT;
    let lines = get_lines_of(text);
    let s = lines.iter().map(|x| x.to_string()).collect::<String>();
    assert_eq!(s, text);
}

#[test]
fn test_abs_to_location() {
    let abs_index = TEST_STRING_SHORT.len() - 1;
    let location = location_of(TEST_STRING_SHORT, abs_index);
    let _returned_index = abs_index_of(TEST_STRING_SHORT, location);
    assert_eq!(location, last_location_of(TEST_STRING_SHORT));
}

#[test]
fn selection_on_later_line_is_absolute() {
    let s = Selection::new(Location::new(1, 0), Location::new(1, 2));
    let text = "ab\ncd\n";
    assert_eq!(s.get_abs_index_range(text), (3, 5));
    assert_eq!(s.get_selection_string(text), "cd");
}
