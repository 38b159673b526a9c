use nanai_simple_lang::text::{
    chars_of, code_point, digit, ident_part, ident_start, letter, push_decimal, push_hex_code,
    same_text, space, Run,
};

#[test]
fn chars_of_keeps_every_character() {
    assert_eq!(chars_of(""), Vec::<char>::new());
    assert_eq!(chars_of("a\u{e9}\u{1F600}#"), vec!['a', '\u{e9}', '\u{1F600}', '#']);
}

#[test]
fn same_text_compares_character_by_character() {
    assert!(same_text("", ""));
    assert!(same_text("let", "let"));
    assert!(!same_text("let", "le"));
    assert!(!same_text("le", "let"));
    assert!(!same_text("let", "lot"));
    assert!(same_text("\u{e9}a", "\u{e9}a"));
}

#[test]
fn character_classes() {
    assert!(digit('0') && digit('9') && !digit('a') && !digit('\u{663}'));
    assert!(letter('a') && letter('Z') && !letter('_') && !letter('\u{e9}'));
    assert!(ident_start('_') && ident_start('q') && !ident_start('1'));
    assert!(ident_part('1') && ident_part('_') && !ident_part('-'));
    assert!(space(' ') && space('\t') && space('\r') && space('\n') && !space('\u{a0}'));
    assert_eq!(code_point('A'), 65);
    assert_eq!(code_point('\u{1F600}'), 0x1F600);
}

#[test]
fn numbers_are_written_in_decimal() {
    for n in [0usize, 7, 10, 99, 100, 12345, usize::MAX] {
        let mut out = "n=".to_string();
        push_decimal(&mut out, n);
        assert_eq!(out, format!("n={}", n));
    }
}

#[test]
fn code_points_are_written_in_hexadecimal() {
    for n in [0u32, 9, 0xA, 0xF, 0x10, 0x23, 0xFF, 0x100, 0xABC, 0x1000, 0xFEFF, 0x10000, 0x10FFFF] {
        let mut out = "U+".to_string();
        push_hex_code(&mut out, n);
        assert_eq!(out, format!("U+{:04X}", n));
    }
}

#[test]
fn a_run_ends_at_the_first_character_outside_the_class() {
    let chars = chars_of("123abc_ \t\nx\"y");
    assert_eq!(Run::Digits.end(&chars, 0), 3);
    assert_eq!(Run::Digits.end(&chars, 3), 3);
    assert_eq!(Run::Letters.end(&chars, 3), 6);
    assert_eq!(Run::LettersOrDigits.end(&chars, 0), 6);
    assert_eq!(Run::Word.end(&chars, 0), 7);
    assert_eq!(Run::Blank.end(&chars, 7), 10);
    assert_eq!(Run::Until('"').end(&chars, 0), 11);
    assert_eq!(Run::Until('#').end(&chars, 0), 13);
    assert_eq!(Run::Digits.end(&chars, 13), 13);
    assert_eq!(Run::Digits.end(&chars, 20), 20);
}

#[test]
fn character_classes_agree_with_the_standard_library() {
    for code in 0..=0x10FFFFu32 {
        if let Some(c) = char::from_u32(code) {
            assert_eq!(digit(c), c.is_ascii_digit(), "{:?}", c);
            assert_eq!(letter(c), c.is_ascii_alphabetic(), "{:?}", c);
            assert_eq!(ident_start(c), c.is_ascii_alphabetic() || c == '_', "{:?}", c);
            assert_eq!(ident_part(c), c.is_ascii_alphanumeric() || c == '_', "{:?}", c);
            assert_eq!(code_point(c), code);
        }
    }
}
