use hantracker::lexical::sort_kanji;
use hantracker::{vec_string_to_vec_char, StringToCharError};

fn strings(items: &[&str]) -> Vec<String> {
    items.iter().map(|s| s.to_string()).collect()
}

#[test]
fn one_char_strings_become_chars_in_order() {
    let chars = vec_string_to_vec_char(strings(&["亜", "a", "唖"])).unwrap();
    assert_eq!(chars, vec!['亜', 'a', '唖']);
}

#[test]
fn no_strings_give_no_chars() {
    assert_eq!(vec_string_to_vec_char(Vec::new()).unwrap(), Vec::<char>::new());
}

#[test]
fn a_two_char_string_is_the_error() {
    let StringToCharError(bad) = vec_string_to_vec_char(strings(&["亜", "亜唖", "x"])).unwrap_err();
    assert_eq!(bad, "亜唖");
}

#[test]
fn an_empty_string_is_the_error() {
    let StringToCharError(bad) = vec_string_to_vec_char(strings(&["", "亜"])).unwrap_err();
    assert_eq!(bad, "");
}

#[test]
fn the_first_offender_is_reported() {
    let StringToCharError(bad) = vec_string_to_vec_char(strings(&["a", "bc", "", "def"])).unwrap_err();
    assert_eq!(bad, "bc");
}

#[test]
fn the_message_names_the_string() {
    let err = vec_string_to_vec_char(strings(&["亜唖"])).unwrap_err();
    assert_eq!(err.message(), "String '亜唖' does not contain exactly one character");
}

#[test]
fn sort_kanji_orders_by_code_point() {
    let mut chars = vec!['水', '一', '火', '一', 'a'];
    sort_kanji(&mut chars);
    assert_eq!(chars, vec!['a', '一', '一', '水', '火']);
}

#[test]
fn sort_kanji_keeps_an_empty_slice() {
    let mut chars: Vec<char> = Vec::new();
    sort_kanji(&mut chars);
    assert!(chars.is_empty());
}
