use outlook_msg::text::{
    char_is_whitespace, chars_of, contains_char, contains_chars, copy_range, split_chars,
    starts_with_chars, string_of, strip_chars, strip_end_chars, strip_start_chars, trim_chars,
    CharClass,
};

fn chars(text: &str) -> Vec<char> {
    text.chars().collect()
}

fn string(text: &[char]) -> String {
    text.iter().collect()
}

#[test]
fn white_space_is_that_of_unicode() {
    let mut count = 0;
    for n in 0..=0x10FFFFu32 {
        if let Some(c) = char::from_u32(n) {
            assert_eq!(char_is_whitespace(c), c.is_whitespace(), "U+{:04X}", n);
            if char_is_whitespace(c) {
                count += 1;
            }
        }
    }
    assert_eq!(count, 25);
}

#[test]
fn character_classes_hold_their_characters() {
    assert!(CharClass::Whitespace.test('\u{3000}'));
    assert!(!CharClass::Whitespace.test('\0'));
    assert!(CharClass::Nul.test('\0'));
    assert!(!CharClass::Nul.test(' '));
    assert!(CharClass::AngleBracket.test('<'));
    assert!(CharClass::AngleBracket.test('>'));
    assert!(!CharClass::AngleBracket.test('('));
}

#[test]
fn strings_and_characters_convert_both_ways() {
    for text in ["", "abc", "né 日本 😀", "未命名附件"] {
        assert_eq!(chars_of(text), chars(text));
        assert_eq!(string_of(&chars(text)), text);
    }
}

#[test]
fn a_range_is_copied() {
    let v = chars("abcdef");
    assert_eq!(copy_range(&v, 2, 5), chars("cde"));
    assert_eq!(copy_range(&v, 3, 3), chars(""));
    assert_eq!(copy_range(&v, 0, 6), v);
}

#[test]
fn trimming_agrees_with_std() {
    for text in ["", " ", "a", "  a b  ", "\t\r\nx\u{A0}\u{2003}", "\u{3000}全角\u{3000}", "no-space", " \0 "] {
        assert_eq!(string(&trim_chars(&chars(text))), text.trim(), "{:?}", text);
        assert_eq!(
            string(&strip_start_chars(&chars(text), CharClass::Whitespace)),
            text.trim_start()
        );
        let mut v = chars(text);
        strip_end_chars(&mut v, CharClass::Whitespace);
        assert_eq!(string(&v), text.trim_end());
    }
}

#[test]
fn stripping_takes_only_the_ends() {
    assert_eq!(string(&strip_chars(&chars("<<a<b>>"), CharClass::AngleBracket)), "a<b");
    assert_eq!(string(&strip_chars(&chars("<>"), CharClass::AngleBracket)), "");
    let mut v = chars("a\0b\0\0");
    strip_end_chars(&mut v, CharClass::Nul);
    assert_eq!(string(&v), "a\0b");
    assert_eq!(string(&strip_start_chars(&chars("\0\0a\0"), CharClass::Nul)), "a\0");
}

#[test]
fn splitting_agrees_with_std() {
    for text in ["", ";", "a", "a;b", "a;;b;", ";a", "one; two ;three", ";;;"] {
        let pieces: Vec<String> = split_chars(&chars(text), ';').iter().map(|p| string(p)).collect();
        let expected: Vec<String> = text.split(';').map(|p| p.to_string()).collect();
        assert_eq!(pieces, expected, "{:?}", text);
    }
}

#[test]
fn searching_agrees_with_std() {
    let hays = ["", "a", "abcabd", "/__attach_version1.0_#00000000/__substg1.0_3701", "aaab"];
    let needles = ["", "a", "abd", "abcabd", "abcabde", "__attach_version1.0_#00000000", "aab", "b"];
    for hay in hays {
        for needle in needles {
            assert_eq!(contains_chars(&chars(hay), &chars(needle)), hay.contains(needle));
            assert_eq!(starts_with_chars(&chars(hay), &chars(needle)), hay.starts_with(needle));
        }
        assert_eq!(contains_char(&chars(hay), 'b'), hay.contains('b'));
        assert_eq!(contains_char(&chars(hay), '@'), hay.contains('@'));
    }
}
