use hantracker::quiz::{
    chinese_character_exists, create_test_from_raw_text, dedup, get_all_chinese_characters,
    known_chars, Quiz, QuizAction, QuizMessage, Recalled, Test,
};

fn test(character: char, recalled: Recalled) -> Test {
    Test { character, recalled }
}

fn quiz_of(chars: &str, at: usize) -> Quiz {
    let mut quiz = Quiz::new(at);
    let tests = chars.chars().map(|c| test(c, Recalled::Unknown)).collect();
    assert_eq!(quiz.update(QuizMessage::StartTest(tests)), QuizAction::Nothing);
    quiz
}

#[test]
fn the_han_characters_of_a_text_are_picked_in_order() {
    assert_eq!(get_all_chinese_characters("日本語 is 漢字、かな"), vec!['日', '本', '語', '漢', '字']);
    assert_eq!(get_all_chinese_characters("plain"), Vec::<char>::new());
    assert_eq!(get_all_chinese_characters(""), Vec::<char>::new());
}

#[test]
fn a_text_with_a_han_character_has_one() {
    assert!(chinese_character_exists("x漢"));
    assert!(!chinese_character_exists("xかな"));
    assert!(!chinese_character_exists(""));
}

#[test]
fn only_direct_repeats_are_removed() {
    assert_eq!(dedup(&vec!['一', '一', '二', '一', '三', '三', '三']), vec!['一', '二', '一', '三']);
    assert_eq!(dedup(&vec!['一']), vec!['一']);
    assert_eq!(dedup(&Vec::new()), Vec::<char>::new());
}

#[test]
fn a_new_quiz_holds_the_characters_of_the_text_unanswered() {
    let tests = create_test_from_raw_text("水水 and 火, then 水 and 木木木");
    let mut chars: Vec<char> = tests.iter().map(|t| t.character).collect();
    chars.sort();
    let mut expected = vec!['水', '火', '水', '木'];
    expected.sort();
    assert_eq!(chars, expected);
    assert!(tests.iter().all(|t| t.recalled == Recalled::Unknown));
    assert!(create_test_from_raw_text("no han here").is_empty());
}

#[test]
fn a_long_quiz_comes_out_shuffled() {
    let text: String = (0x4E00u32..0x4E00 + 200).map(|c| char::from_u32(c).unwrap()).collect();
    let tests = create_test_from_raw_text(&text);
    let chars: String = tests.iter().map(|t| t.character).collect();
    assert_eq!(tests.len(), 200);
    assert_ne!(chars, text);
}

#[test]
fn the_known_characters_are_listed_in_order() {
    let tests = vec![
        test('一', Recalled::Known),
        test('二', Recalled::Unknown),
        test('三', Recalled::Known),
    ];
    assert_eq!(known_chars(&tests), vec!['一', '三']);
    assert_eq!(known_chars(&Vec::new()), Vec::<char>::new());
}

#[test]
fn starting_replaces_the_characters_and_keeps_the_place() {
    let quiz = quiz_of("一二三", 2);
    assert_eq!(quiz.current_test, 2);
    assert_eq!(quiz.tests.len(), 3);
}

#[test]
fn an_answer_is_recorded_and_moves_on() {
    let mut quiz = quiz_of("一二三", 0);
    assert_eq!(quiz.update(QuizMessage::Answer(Recalled::Known)), QuizAction::Store(1));
    assert_eq!(quiz.tests[0], test('一', Recalled::Known));
    assert_eq!(quiz.tests[1], test('二', Recalled::Unknown));
    assert_eq!(quiz.current_test, 1);
    assert_eq!(quiz.update(QuizMessage::Answer(Recalled::Unknown)), QuizAction::Store(2));
    assert_eq!(quiz.tests[1], test('二', Recalled::Unknown));
}

#[test]
fn the_last_answer_ends_the_quiz() {
    let mut quiz = quiz_of("一二", 0);
    assert_eq!(quiz.update(QuizMessage::Answer(Recalled::Known)), QuizAction::Store(1));
    assert_eq!(
        quiz.update(QuizMessage::Answer(Recalled::Known)),
        QuizAction::StoreAndFinish(2, vec!['一', '二'])
    );
    assert_eq!(quiz.current_test, 2);
}

#[test]
fn an_answer_past_the_end_ends_the_quiz_without_a_move() {
    let mut quiz = quiz_of("一", 1);
    assert_eq!(quiz.update(QuizMessage::Answer(Recalled::Known)), QuizAction::Finish(Vec::new()));
    assert_eq!(quiz.current_test, 1);
    assert_eq!(quiz.tests[0].recalled, Recalled::Unknown);
    let mut empty = Quiz::new(0);
    assert_eq!(empty.update(QuizMessage::Answer(Recalled::Known)), QuizAction::Finish(Vec::new()));
}

#[test]
fn going_back_moves_one_place() {
    let mut quiz = quiz_of("一二三", 2);
    assert_eq!(quiz.update(QuizMessage::GoBack), QuizAction::Store(1));
    assert_eq!(quiz.current_test, 1);
    assert_eq!(quiz.update(QuizMessage::GoBack), QuizAction::Store(0));
    assert_eq!(quiz.current_test, 0);
}

#[test]
fn the_end_resets_the_place_and_hands_the_result_on() {
    let mut quiz = quiz_of("一二三", 3);
    assert_eq!(quiz.update(QuizMessage::Finish(vec!['二'])), QuizAction::Output(vec!['二']));
    assert_eq!(quiz.current_test, 0);
    assert_eq!(quiz.tests.len(), 3);
}
