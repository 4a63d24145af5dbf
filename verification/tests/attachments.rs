use outlook_msg::attachment::{absorb_stream, apply_attachment_text};
use outlook_msg::tags::AttachmentTag;
use outlook_msg::{aggregate, parse_attachment, Attachment, AttachmentError, StreamRecord};

const DIR: &str = "__attach_version1.0_#00000000";

fn utf16(text: &str) -> Vec<u8> {
    text.encode_utf16().flat_map(|u| u.to_le_bytes()).collect()
}

fn chars(text: &str) -> Vec<char> {
    text.chars().collect()
}

fn some(text: &str) -> Option<String> {
    Some(text.to_string())
}

fn stream(dir: &str, name: &str, data: &[u8]) -> StreamRecord {
    StreamRecord {
        name: name.to_string(),
        path: format!("/{}/{}", dir, name),
        is_stream: true,
        data: Some(data.to_vec()),
    }
}

fn storage(name: &str) -> StreamRecord {
    StreamRecord { name: name.to_string(), path: format!("/{}", name), is_stream: false, data: None }
}

fn unnamed() -> Attachment {
    Attachment { filename: "未命名附件".to_string(), content_type: None, content_id: None, data: Vec::new() }
}

#[test]
fn a_default_attachment_is_empty() {
    let a = Attachment::default();
    assert_eq!(a.filename, "");
    assert_eq!(a.content_type, None);
    assert_eq!(a.content_id, None);
    assert!(a.data.is_empty());
}

#[test]
fn long_filename_wins_over_a_later_short_one() {
    let records = vec![
        stream(DIR, "__substg1.0_3707001F", &utf16("quarterly report.pdf")),
        stream(DIR, "__substg1.0_3704001F", &utf16("QUARTE~1.PDF")),
        stream(DIR, "__substg1.0_37010102", &[1, 2, 3]),
    ];
    let a = parse_attachment(&records, DIR).unwrap();
    assert_eq!(a.filename, "quarterly report.pdf");
    assert_eq!(a.data, vec![1, 2, 3]);
}

#[test]
fn long_filename_wins_over_an_earlier_short_one() {
    let records = vec![
        stream(DIR, "__substg1.0_3704001F", &utf16("QUARTE~1.PDF")),
        stream(DIR, "__substg1.0_3001001F", &utf16("Quarterly")),
        stream(DIR, "__substg1.0_3707001F", &utf16("quarterly report.pdf")),
        stream(DIR, "__substg1.0_3703001F", &utf16(".pdf")),
    ];
    let a = parse_attachment(&records, DIR).unwrap();
    assert_eq!(a.filename, "quarterly report.pdf");
}

#[test]
fn the_first_of_the_lesser_names_stays() {
    let records = vec![
        stream(DIR, "__substg1.0_3001001F", &utf16("Display name")),
        stream(DIR, "__substg1.0_3704001F", &utf16("SHORT.TXT")),
        stream(DIR, "__substg1.0_3703001F", &utf16(".txt")),
    ];
    assert_eq!(parse_attachment(&records, DIR).unwrap().filename, "Display name");
    let records = vec![
        stream(DIR, "__substg1.0_3704001F", &utf16("SHORT.TXT")),
        stream(DIR, "__substg1.0_3001001F", &utf16("Display name")),
    ];
    assert_eq!(parse_attachment(&records, DIR).unwrap().filename, "SHORT.TXT");
}

#[test]
fn an_extension_alone_gives_a_made_up_name() {
    let records = vec![stream(DIR, "__substg1.0_3703001F", &utf16(".pdf"))];
    let a = parse_attachment(&records, DIR).unwrap();
    assert_eq!(a.filename, "未命名附件.pdf");
    let records = vec![
        stream(DIR, "__substg1.0_3703001F", &utf16(".pdf")),
        stream(DIR, "__substg1.0_3704001F", &utf16("SHORT.PDF")),
    ];
    assert_eq!(parse_attachment(&records, DIR).unwrap().filename, "未命名附件.pdf");
}

#[test]
fn an_extension_and_data_give_the_placeholder_with_the_extension() {
    let records = vec![
        stream(DIR, "__substg1.0_3703001F", &utf16(".pdf")),
        stream(DIR, "__substg1.0_37010102", &[1]),
    ];
    let a = parse_attachment(&records, DIR).unwrap();
    assert_eq!(a.filename, format!("{}{}", unnamed().filename, ".pdf"));
    assert_eq!(a.data, vec![1]);
}

#[test]
fn an_extension_counts_only_while_there_is_no_name() {
    let mut a = unnamed();
    apply_attachment_text(&mut a, AttachmentTag::Extension, chars(""));
    assert_eq!(a.filename, "未命名附件");
    apply_attachment_text(&mut a, AttachmentTag::Extension, chars(".txt"));
    assert_eq!(a.filename, "未命名附件.txt");
    apply_attachment_text(&mut a, AttachmentTag::Extension, chars(".doc"));
    assert_eq!(a.filename, "未命名附件.txt");
    let records = vec![
        stream(DIR, "__substg1.0_3704001F", &utf16("SHORT.PDF")),
        stream(DIR, "__substg1.0_3703001F", &utf16(".pdf")),
    ];
    assert_eq!(parse_attachment(&records, DIR).unwrap().filename, "SHORT.PDF");
}

#[test]
fn content_id_loses_its_angle_brackets() {
    let records = vec![
        stream(DIR, "__substg1.0_3712001F", &utf16("<abc123>")),
        stream(DIR, "__substg1.0_37010102", &[9]),
    ];
    let a = parse_attachment(&records, DIR).unwrap();
    assert_eq!(a.content_id, some("abc123"));
    assert_eq!(a.filename, "未命名附件");
}

#[test]
fn content_id_is_stored_only_if_something_is_left() {
    let mut a = unnamed();
    apply_attachment_text(&mut a, AttachmentTag::ContentId, chars("<>"));
    assert_eq!(a.content_id, None);
    apply_attachment_text(&mut a, AttachmentTag::ContentId, chars("  <<image001.png@01D>>  "));
    assert_eq!(a.content_id, some("image001.png@01D"));
    apply_attachment_text(&mut a, AttachmentTag::ContentId, chars("><"));
    assert_eq!(a.content_id, some("image001.png@01D"));
    apply_attachment_text(&mut a, AttachmentTag::ContentId, chars("< inner >"));
    assert_eq!(a.content_id, some(" inner "));
    apply_attachment_text(&mut a, AttachmentTag::ContentId, chars("a<b>c"));
    assert_eq!(a.content_id, some("a<b>c"));
}

#[test]
fn the_mime_tag_gives_the_content_type() {
    let records = vec![
        stream(DIR, "__substg1.0_370E001F", &utf16("application/pdf")),
        stream(DIR, "__substg1.0_37010102", b"%PDF"),
    ];
    let a = parse_attachment(&records, DIR).unwrap();
    assert_eq!(a.content_type, some("application/pdf"));
    assert_eq!(a.data, b"%PDF".to_vec());
}

#[test]
fn the_last_data_stream_wins() {
    let records = vec![
        stream(DIR, "__substg1.0_37010102", &[1, 2, 3]),
        stream(DIR, "__substg1.0_37010102", &[4]),
    ];
    assert_eq!(parse_attachment(&records, DIR).unwrap().data, vec![4]);
}

#[test]
fn data_is_stored_as_it_is() {
    // Bytes that would decode as a text are not decoded.
    let data = utf16("text");
    let mut a = unnamed();
    absorb_stream(&mut a, "__substg1.0_37010102", &data);
    assert_eq!(a.data, data);
    absorb_stream(&mut a, "__substg1.0_37010102", &[]);
    assert!(a.data.is_empty());
}

#[test]
fn streams_with_short_or_unknown_names_are_skipped() {
    let mut a = unnamed();
    absorb_stream(&mut a, "707001F", &utf16("name"));
    absorb_stream(&mut a, "__substg1.0_0037001F", &utf16("name"));
    absorb_stream(&mut a, "__substg1.0_3707001F", &[]);
    assert_eq!(a.filename, "未命名附件");
    absorb_stream(&mut a, "3707001F", &utf16("name"));
    assert_eq!(a.filename, "name");
}

#[test]
fn a_name_equal_to_the_placeholder_counts_as_no_name() {
    let records = vec![
        stream(DIR, "__substg1.0_3707001F", &utf16("未命名附件")),
        stream(DIR, "__substg1.0_3704001F", &utf16("SHORT.TXT")),
    ];
    assert_eq!(parse_attachment(&records, DIR).unwrap().filename, "SHORT.TXT");
    let records = vec![stream(DIR, "__substg1.0_3707001F", &utf16("未命名附件"))];
    assert!(matches!(parse_attachment(&records, DIR), Err(AttachmentError::Empty)));
}

#[test]
fn a_group_without_name_and_data_fails() {
    let records = vec![storage(DIR), stream(DIR, "__substg1.0_37010102", &[])];
    let result = parse_attachment(&records, DIR);
    assert!(matches!(result, Err(AttachmentError::Empty)));
    assert_eq!(result.unwrap_err().message(), "附件数据为空");
    assert!(matches!(parse_attachment(&Vec::new(), DIR), Err(AttachmentError::Empty)));
    // The message is still read, without the attachment.
    let email = aggregate(&records);
    assert_eq!(email.attachments.len(), 0);
}

#[test]
fn a_group_with_a_name_and_no_data_is_an_attachment() {
    let records = vec![stream(DIR, "__substg1.0_3707001F", &utf16("empty.txt"))];
    let a = parse_attachment(&records, DIR).unwrap();
    assert_eq!(a.filename, "empty.txt");
    assert!(a.data.is_empty());
    let records = vec![stream(DIR, "__substg1.0_37010102", &[0])];
    let a = parse_attachment(&records, DIR).unwrap();
    assert_eq!(a.filename, "未命名附件");
    assert_eq!(a.data, vec![0]);
}

#[test]
fn only_readable_streams_of_the_directory_belong_to_the_group() {
    let other = "__attach_version1.0_#00000001";
    let mut unreadable = stream(DIR, "__substg1.0_3707001F", &utf16("unreadable.txt"));
    unreadable.data = None;
    let mut not_a_stream = stream(DIR, "__substg1.0_3707001F", &utf16("storage.txt"));
    not_a_stream.is_stream = false;
    let records = vec![
        storage(DIR),
        stream(other, "__substg1.0_3707001F", &utf16("other.txt")),
        unreadable,
        not_a_stream,
        stream(DIR, "__substg1.0_370E001F", &utf16("text/plain")),
        stream(DIR, "__substg1.0_37010102", &[7]),
    ];
    let a = parse_attachment(&records, DIR).unwrap();
    assert_eq!(a.filename, "未命名附件");
    assert_eq!(a.content_type, some("text/plain"));
    assert_eq!(parse_attachment(&records, other).unwrap().filename, "other.txt");
}

#[test]
fn the_directory_name_may_stand_anywhere_in_the_path() {
    let nested = StreamRecord {
        name: "__substg1.0_3707001F".to_string(),
        path: format!("/outer/{}/inner/__substg1.0_3707001F", DIR),
        is_stream: true,
        data: Some(utf16("nested.txt")),
    };
    assert_eq!(parse_attachment(&vec![nested], DIR).unwrap().filename, "nested.txt");
}
