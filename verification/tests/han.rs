use hantracker::han::is_chinese_character;

fn han(code: u32) -> bool {
    is_chinese_character(&char::from_u32(code).unwrap())
}

#[test]
fn unified_ideographs_are_han() {
    assert!(is_chinese_character(&'漢'));
    assert!(is_chinese_character(&'字'));
    assert!(han(0x4E00));
    assert!(han(0x9FFF));
}

#[test]
fn latin_kana_and_hangul_are_not_han() {
    assert!(!is_chinese_character(&'a'));
    assert!(!is_chinese_character(&'あ'));
    assert!(!is_chinese_character(&'カ'));
    assert!(!is_chinese_character(&'한'));
    assert!(!is_chinese_character(&'。'));
}

#[test]
fn every_block_is_inclusive_at_both_ends() {
    let blocks: [(u32, u32); 10] = [
        (0x3400, 0x4DBF),
        (0x4E00, 0x9FFF),
        (0x20000, 0x2A6DF),
        (0x2A700, 0x2B73F),
        (0x2B740, 0x2B81F),
        (0x2B820, 0x2CEAF),
        (0x2CEB0, 0x2EBEF),
        (0x2F800, 0x2FA1F),
        (0x30000, 0x3134F),
        (0x31350, 0x323AF),
    ];
    for (low, high) in blocks {
        assert!(han(low), "{low:#x}");
        assert!(han(high), "{high:#x}");
        assert!(han(low + (high - low) / 2));
    }
}

#[test]
fn gaps_between_blocks_are_not_han() {
    for code in [
        0x33FF, 0x4DC0, 0x4DFF, 0xA000, 0x1FFFF, 0x2A6E0, 0x2A6FF, 0x2EBF0, 0x2EE5F, 0x2EE60,
        0x2F7FF, 0x2FA20, 0x2FFFF, 0x323B0, 0x10FFFF, 0x0,
    ] {
        assert!(!han(code), "{code:#x}");
    }
}

#[test]
fn filtering_text_keeps_the_ideographs() {
    let kept: String = "日本語 is 漢字 and かな".chars().filter(is_chinese_character).collect();
    assert_eq!(kept, "日本語漢字");
}
