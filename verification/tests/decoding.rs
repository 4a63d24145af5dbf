use outlook_msg::decode::{
    accept_legacy, accept_text, char_is_alphanumeric, decode_chars, decode_utf16,
    decode_utf8_strict, fits_legacy_decoder, text_looks_textual,
};
use outlook_msg::utf16::{decode_utf16_lossy, units_until_nul};
use outlook_msg::{decode_with_encoding, TextEncoding};

fn utf16(text: &str) -> Vec<u8> {
    text.encode_utf16().flat_map(|u| u.to_le_bytes()).collect()
}

fn decoded(data: &[u8]) -> Option<(String, String)> {
    decode_with_encoding(data)
}

fn pair(text: &str, label: &str) -> Option<(String, String)> {
    Some((text.to_string(), label.to_string()))
}

#[test]
fn empty_input_gives_nothing() {
    assert_eq!(decoded(&[]), None);
}

#[test]
fn utf16_text_with_terminator_comes_back() {
    for text in ["Hello", "Grüße aus Köln", "日本語のテキスト", "a b", "x 😀 y"] {
        let mut data = utf16(text);
        data.extend_from_slice(&[0, 0]);
        assert_eq!(decoded(&data), pair(text, "UTF-16 LE"));
    }
}

#[test]
fn utf16_stops_at_the_first_zero_unit() {
    let mut data = utf16("Hi");
    data.extend_from_slice(&[0, 0]);
    data.extend_from_slice(&utf16("junk"));
    assert_eq!(decoded(&data), pair("Hi", "UTF-16 LE"));
}

#[test]
fn utf16_text_is_trimmed() {
    let data = utf16("  padded \r\n");
    assert_eq!(decoded(&data), pair("padded", "UTF-16 LE"));
}

#[test]
fn utf16_surrogate_pair_is_one_character() {
    let data = utf16("😀a");
    let (text, label) = decoded(&data).unwrap();
    assert_eq!(text.chars().count(), 2);
    assert_eq!(text, "😀a");
    assert_eq!(label, "UTF-16 LE");
}

#[test]
fn utf16_lone_surrogates_are_replaced() {
    // A high surrogate before a letter, a low surrogate alone, a high one at the end.
    let units: Vec<u16> = vec![0xD800, 0x0041, 0xDC00, 0x0042, 0xDBFF];
    let expected = String::from_utf16_lossy(&units);
    assert_eq!(expected, "\u{FFFD}A\u{FFFD}B\u{FFFD}");
    let text: String = decode_utf16_lossy(&units).into_iter().collect();
    assert_eq!(text, expected);
    let data: Vec<u8> = units.iter().flat_map(|u| u.to_le_bytes()).collect();
    assert_eq!(decoded(&data), pair("\u{FFFD}A\u{FFFD}B\u{FFFD}", "UTF-16 LE"));
}

#[test]
fn utf16_decoding_agrees_with_std() {
    let mut seed: u32 = 12345;
    for _ in 0..2000 {
        let mut units: Vec<u16> = Vec::new();
        for _ in 0..6 {
            seed = seed.wrapping_mul(1664525).wrapping_add(1013904223);
            let pick = (seed >> 16) as u16;
            // Favour the surrogate range.
            let unit = if pick % 3 == 0 { 0xD800 + (pick % 0x800) } else { pick };
            units.push(unit);
        }
        let expected = String::from_utf16_lossy(&units);
        let text: String = decode_utf16_lossy(&units).into_iter().collect();
        assert_eq!(text, expected);
    }
}

#[test]
fn units_are_read_low_byte_first() {
    assert_eq!(units_until_nul(&[0x34, 0x12, 0xFF, 0x00, 0x00, 0x00, 0x01, 0x00]), vec![0x1234, 0x00FF]);
    // A last odd byte is left out.
    assert_eq!(units_until_nul(&[0x34, 0x12, 0x56]), vec![0x1234]);
}

#[test]
fn utf16_without_letters_is_not_taken() {
    // "!!" as UTF-16 holds nothing alphanumeric, so the bytes are read as UTF-8.
    let data = utf16("!!");
    assert_eq!(decode_utf16(&data), None);
    assert_eq!(decoded(&data), pair("!\0!", "UTF-8"));
}

#[test]
fn odd_length_is_not_utf16() {
    assert_eq!(decode_utf16(b"abc"), None);
    assert_eq!(decode_utf16(b"a"), None);
}

#[test]
fn utf8_padding_is_stripped() {
    assert_eq!(decoded(b"Hello\0\0"), pair("Hello", "UTF-8"));
    assert_eq!(decoded(b"  caf\xC3\xA9 \0\0\0"), pair("café", "UTF-8"));
    assert_eq!(decoded(b"Hello UTF-8"), pair("Hello UTF-8", "UTF-8"));
}

#[test]
fn utf8_of_even_length_can_be_claimed_as_utf16() {
    // The two bytes of "Hi" are one code unit, a letter, before the zero unit.
    assert_eq!(decoded(b"Hi\0\0"), pair("\u{6948}", "UTF-16 LE"));
}

#[test]
fn strict_utf8_refuses_invalid_bytes() {
    assert_eq!(decode_utf8_strict(b"ab\xFF"), None);
    assert_eq!(decode_utf8_strict(b"ab\xC3"), None);
    let text: String = decode_utf8_strict(b"ab\xC3\xA9").unwrap().into_iter().collect();
    assert_eq!(text, "abé");
    assert_eq!(decode_utf8_strict(b" \0\0"), None);
}

#[test]
fn gbk_bytes_are_decoded() {
    // "中文a" in GBK; five bytes, invalid as UTF-8.
    let data = [0xD6, 0xD0, 0xCE, 0xC4, 0x61];
    assert_eq!(decoded(&data), pair("中文a", "GBK"));
    let (chars, encoding) = decode_chars(&data).unwrap();
    assert_eq!(chars, vec!['中', '文', 'a']);
    assert_eq!(encoding, TextEncoding::Gbk);
}

#[test]
fn malformed_gbk_falls_back_to_lossy_utf8() {
    let data = [0x61, 0xFF, 0x62];
    assert_eq!(decoded(&data), pair("a\u{FFFD}b", "UTF-8 (lossy)"));
}

#[test]
fn nothing_is_left_of_padding_alone() {
    assert_eq!(decoded(&[0]), None);
    assert_eq!(decoded(&[0, 0, 0]), None);
    assert_eq!(decoded(b" \t\0"), None);
}

#[test]
fn legacy_text_is_refused_after_an_error() {
    assert_eq!(accept_legacy(" text \0", true), None);
    assert_eq!(accept_legacy(" text \0", false), Some(vec!['t', 'e', 'x', 't']));
    assert_eq!(accept_legacy(" \0", false), None);
    assert_eq!(accept_text("\0"), None);
    assert_eq!(accept_text("a\0b\0"), Some(vec!['a', '\0', 'b']));
}

#[test]
fn the_legacy_decoder_takes_what_it_can_reserve_for() {
    assert!(fits_legacy_decoder(0));
    assert!(fits_legacy_decoder(1 << 20));
    let third = isize::MAX as usize / 3;
    assert!(fits_legacy_decoder(third - 1));
    assert!(!fits_legacy_decoder(third));
    assert!(!fits_legacy_decoder(isize::MAX as usize));
    assert!(!fits_legacy_decoder(usize::MAX));
}

#[test]
fn alphanumeric_is_that_of_std() {
    for n in 0..=0x10FFFFu32 {
        if let Some(c) = char::from_u32(n) {
            assert_eq!(char_is_alphanumeric(c), c.is_alphanumeric(), "U+{:04X}", n);
        }
    }
    assert!(char_is_alphanumeric('a') && char_is_alphanumeric('Z') && char_is_alphanumeric('5'));
    assert!(char_is_alphanumeric('é') && char_is_alphanumeric('日') && char_is_alphanumeric('¾'));
    assert!(!char_is_alphanumeric('!') && !char_is_alphanumeric(' ') && !char_is_alphanumeric('\0'));
    assert!(!char_is_alphanumeric('@') && !char_is_alphanumeric('[') && !char_is_alphanumeric('`'));
    assert!(!char_is_alphanumeric('{') && !char_is_alphanumeric('/') && !char_is_alphanumeric(':'));
    assert!(!char_is_alphanumeric('\u{7F}') && !char_is_alphanumeric('\u{80}'));
}

#[test]
fn a_text_looks_textual_by_a_letter_a_digit_or_a_space() {
    let chars = |text: &str| text.chars().collect::<Vec<char>>();
    assert!(text_looks_textual(&chars("?a?")));
    assert!(text_looks_textual(&chars("--7")));
    assert!(text_looks_textual(&chars("! !")));
    assert!(text_looks_textual(&chars("…é")));
    assert!(!text_looks_textual(&chars("")));
    assert!(!text_looks_textual(&chars("<>")));
    assert!(!text_looks_textual(&chars("!?\0…")));
}

#[test]
fn labels_are_the_four_names() {
    assert_eq!(TextEncoding::Utf16Le.name(), "UTF-16 LE");
    assert_eq!(TextEncoding::Utf8.name(), "UTF-8");
    assert_eq!(TextEncoding::Gbk.name(), "GBK");
    assert_eq!(TextEncoding::Utf8Lossy.name(), "UTF-8 (lossy)");
}

#[test]
fn decoding_agrees_with_a_direct_cascade() {
    let samples: Vec<Vec<u8>> = vec![
        b"plain".to_vec(),
        utf16("wide text"),
        vec![0xD6, 0xD0, 0xCE, 0xC4, 0x61],
        vec![0xE3, 0x80, 0x80],
        vec![0x80, 0x81, 0x40],
        vec![0xFF, 0xFE, 0x41, 0x00, 0x42],
        vec![0xEF, 0xBB, 0xBF, 0x41],
        vec![0x81],
        vec![0x20, 0x00, 0x20],
    ];
    for data in samples {
        assert_eq!(decoded(&data), expected_by_std(&data), "{:?}", data);
    }
}

fn expected_by_std(data: &[u8]) -> Option<(String, String)> {
    if data.is_empty() {
        return None;
    }
    if data.len() >= 2 && data.len() % 2 == 0 {
        let units: Vec<u16> = data
            .chunks_exact(2)
            .map(|chunk| u16::from_le_bytes([chunk[0], chunk[1]]))
            .take_while(|&val| val != 0)
            .collect();
        if !units.is_empty() {
            let text = String::from_utf16_lossy(&units);
            let trimmed = text.trim();
            if !trimmed.is_empty() && trimmed.chars().any(|c| c.is_alphanumeric() || c.is_whitespace()) {
                return Some((trimmed.to_string(), "UTF-16 LE".to_string()));
            }
        }
    }
    if let Ok(text) = String::from_utf8(data.to_vec()) {
        let text = text.trim_end_matches('\0').trim();
        if !text.is_empty() {
            return Some((text.to_string(), "UTF-8".to_string()));
        }
    }
    let (text, _, had_errors) = encoding_rs::GBK.decode(data);
    if !had_errors {
        let text = text.trim_end_matches('\0').trim();
        if !text.is_empty() {
            return Some((text.to_string(), "GBK".to_string()));
        }
    }
    let text = String::from_utf8_lossy(data).to_string();
    let text = text.trim_end_matches('\0').trim();
    if !text.is_empty() {
        return Some((text.to_string(), "UTF-8 (lossy)".to_string()));
    }
    None
}
