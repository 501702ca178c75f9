use hantracker::projection::Category;
use hantracker::{Dict2, StringToCharError};

fn dictionary(entries: &[(&str, &str)]) -> Dict2 {
    let mut text = String::from(
        "<kanjidic2><header><file_version>4</file_version><database_version>v</database_version>\
<date_of_creation>d</date_of_creation></header>",
    );
    for (literal, misc) in entries {
        text.push_str(&format!(
            "<character><literal>{literal}</literal><codepoint/><radical/><misc>{misc}</misc><query_code/></character>"
        ));
    }
    text.push_str("</kanjidic2>");
    Dict2::from_str(&text).unwrap()
}

fn grades() -> Dict2 {
    dictionary(&[
        ("八", "<grade>8</grade>"),
        ("七", "<grade>7</grade>"),
        ("六", "<grade>6</grade>"),
        ("五", "<grade>5</grade>"),
        ("四", "<grade>4</grade>"),
        ("三", "<grade>3</grade>"),
        ("二", "<grade>2</grade>"),
        ("一", "<grade>1</grade>"),
        ("零", ""),
        ("九", "<grade>9</grade>"),
        ("十", "<grade>0</grade>"),
    ])
}

fn sorted(chars: &str) -> Vec<char> {
    let mut v: Vec<char> = chars.chars().collect();
    v.sort();
    v
}

#[test]
fn the_standard_use_set_is_grades_one_to_five_and_eight() {
    assert_eq!(grades().get_all_joyo().unwrap(), sorted("一二三四五八"));
}

#[test]
fn the_compulsory_set_is_grades_one_to_five() {
    assert_eq!(grades().get_all_kyoiku().unwrap(), sorted("一二三四五"));
}

#[test]
fn grades_six_and_seven_are_in_neither_set() {
    let dict = grades();
    for set in [dict.get_all_joyo().unwrap(), dict.get_all_kyoiku().unwrap()] {
        assert!(!set.contains(&'六'));
        assert!(!set.contains(&'七'));
        assert!(!set.contains(&'零'));
        assert!(!set.contains(&'九'));
        assert!(!set.contains(&'十'));
    }
}

#[test]
fn grade_eight_is_standard_use_only() {
    let dict = grades();
    assert!(dict.get_all_joyo().unwrap().contains(&'八'));
    assert!(!dict.get_all_kyoiku().unwrap().contains(&'八'));
}

#[test]
fn the_test_set_is_every_character_with_a_level() {
    let dict = dictionary(&[
        ("水", "<jlpt>4</jlpt>"),
        ("火", "<grade>1</grade>"),
        ("木", "<jlpt>1</jlpt><grade>7</grade>"),
        ("金", "<jlpt>0</jlpt>"),
        ("土", ""),
    ]);
    assert_eq!(dict.get_all_jlpt().unwrap(), sorted("水木金"));
    assert_eq!(dict.get_all_joyo().unwrap(), vec!['火']);
}

#[test]
fn the_result_is_sorted_by_code_point() {
    let dict = dictionary(&[
        ("龍", "<jlpt>1</jlpt>"),
        ("一", "<jlpt>1</jlpt>"),
        ("𠀋", "<jlpt>1</jlpt>"),
        ("a", "<jlpt>1</jlpt>"),
        ("㐀", "<jlpt>1</jlpt>"),
    ]);
    assert_eq!(dict.get_all_jlpt().unwrap(), vec!['a', '㐀', '一', '龍', '𠀋']);
}

#[test]
fn a_literal_that_occurs_twice_is_listed_twice() {
    let dict = dictionary(&[
        ("二", "<grade>1</grade>"),
        ("一", "<grade>1</grade>"),
        ("二", "<grade>2</grade>"),
    ]);
    assert_eq!(dict.get_all_kyoiku().unwrap(), vec!['一', '二', '二']);
}

#[test]
fn an_empty_category_is_an_empty_list() {
    let dict = dictionary(&[("一", "<grade>6</grade>")]);
    assert!(dict.get_all_jlpt().unwrap().is_empty());
    assert!(dict.get_all_joyo().unwrap().is_empty());
    assert!(dict.get_all_kyoiku().unwrap().is_empty());
    assert!(dictionary(&[]).get_all_jlpt().unwrap().is_empty());
}

#[test]
fn a_two_character_literal_fails_the_query() {
    let dict = dictionary(&[
        ("一", "<grade>1</grade>"),
        ("二三", "<grade>1</grade>"),
        ("四", "<grade>1</grade>"),
    ]);
    let StringToCharError(bad) = dict.get_all_kyoiku().unwrap_err();
    assert_eq!(bad, "二三");
    let StringToCharError(bad) = dict.get_all_joyo().unwrap_err();
    assert_eq!(bad, "二三");
}

#[test]
fn an_empty_literal_fails_the_query() {
    let dict = dictionary(&[("", "<jlpt>1</jlpt>"), ("一", "<jlpt>1</jlpt>")]);
    let StringToCharError(bad) = dict.get_all_jlpt().unwrap_err();
    assert_eq!(bad, "");
}

#[test]
fn a_bad_literal_outside_the_category_does_not_fail_the_query() {
    let dict = dictionary(&[("一", "<grade>1</grade>"), ("二三", "<grade>6</grade>")]);
    assert_eq!(dict.get_all_joyo().unwrap(), vec!['一']);
    assert!(dict.get_all_jlpt().unwrap().is_empty());
}

#[test]
fn the_first_bad_literal_in_sorted_order_is_reported() {
    let dict = dictionary(&[
        ("中中", "<jlpt>1</jlpt>"),
        ("一一", "<jlpt>1</jlpt>"),
        ("龍", "<jlpt>1</jlpt>"),
    ]);
    let StringToCharError(bad) = dict.get_all_jlpt().unwrap_err();
    assert_eq!(bad, "一一");
}

#[test]
fn the_named_queries_are_the_categories() {
    let dict = grades();
    assert_eq!(dict.get_all(Category::Joyo).unwrap(), dict.get_all_joyo().unwrap());
    assert_eq!(dict.get_all(Category::Kyoiku).unwrap(), dict.get_all_kyoiku().unwrap());
    assert_eq!(dict.get_all(Category::Jlpt).unwrap(), dict.get_all_jlpt().unwrap());
}
