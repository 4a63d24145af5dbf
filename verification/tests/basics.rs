use outlook_msg::{
    decode_with_encoding, filetime_to_string, parse_msg_to_struct, parse_property, MsgEmail,
};
use std::io::{Cursor, Write};

#[test]
fn test_filetime_to_string() {
    // 2023-10-27 08:44:20 (UTC) approx
    let ft: u64 = 133428698600000000;
    let s = filetime_to_string(ft).unwrap();
    assert!(s.contains("2023"));
    assert!(s.contains("UTC"));
}

#[test]
fn test_decode_utf16() {
    let data = vec![0x48, 0x00, 0x65, 0x00, 0x6c, 0x00, 0x6c, 0x00, 0x6f, 0x00]; // "Hello" in UTF-16 LE
    let (text, enc) = decode_with_encoding(&data).unwrap();
    assert_eq!(text, "Hello");
    assert_eq!(enc, "UTF-16 LE");
}

#[test]
fn test_decode_utf8() {
    let data = b"Hello UTF-8".to_vec();
    let (text, _) = decode_with_encoding(&data).unwrap();
    assert_eq!(text, "Hello UTF-8");
}

#[test]
fn test_parse_property_subject() {
    let mut email = MsgEmail::default();
    let data = vec![0x54, 0x00, 0x65, 0x00, 0x73, 0x00, 0x74, 0x00]; // "Test" in UTF-16 LE
    parse_property(&mut email, "__substg1.0_0037001F", &data);
    assert_eq!(email.subject, Some("Test".to_string()));
}

#[test]
fn test_parse_property_time() {
    let mut email = MsgEmail::default();

    let data = 133428698600000000u64.to_le_bytes().to_vec();

    parse_property(&mut email, "__substg1.0_00390040", &data);

    assert!(email.sent_time.is_some());
}

fn utf16(text: &str) -> Vec<u8> {
    text.encode_utf16().flat_map(|u| u.to_le_bytes()).collect()
}

fn sample_message() -> Vec<u8> {
    let mut comp = cfb::CompoundFile::create(Cursor::new(Vec::new())).unwrap();
    comp.create_stream("/__substg1.0_0037001F").unwrap().write_all(&utf16("Quarterly report")).unwrap();
    comp.create_stream("/__substg1.0_0C1A001F").unwrap().write_all(&utf16("Ada Lovelace")).unwrap();
    comp.create_storage("/__attach_version1.0_#00000000").unwrap();
    comp.create_stream("/__attach_version1.0_#00000000/__substg1.0_3707001F")
        .unwrap()
        .write_all(&utf16("report.pdf"))
        .unwrap();
    comp.create_stream("/__attach_version1.0_#00000000/__substg1.0_37010102")
        .unwrap()
        .write_all(&[1u8, 2, 3, 4])
        .unwrap();
    comp.flush().unwrap();
    comp.into_inner().into_inner()
}

#[test]
fn test_parse_real_msg_file() {
    let file_data = sample_message();

    let result = parse_msg_to_struct(&file_data);

    assert!(
        result.is_ok(),
        "Failed to parse MSG file: {:?}",
        result.err()
    );

    let email = result.unwrap();

    println!("Subject: {:?}", email.subject);

    println!("Sender: {:?}", email.sender_name);

    println!("Attachments: {}", email.attachments.len());

    assert!(email.subject.is_some());
}
