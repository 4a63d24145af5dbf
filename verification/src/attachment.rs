//! Assembles one attachment from the streams of its group: the streams whose
//! path runs through the attachment's directory.

use vstd::prelude::*;
use vstd::slice::slice_to_vec;
use crate::container::{records_view, StreamRecord, StreamRecordView};
use crate::decode::{decode_chars, decoded_text};
use crate::message::{unnamed, unnamed_attachment, Attachment, AttachmentView};
use crate::tags::{attachment_tag, resolve_attachment, AttachmentTag};
use crate::text::{
    chars_of, contains_chars, contains_text, string_of, strip, strip_chars, trim, trim_chars,
    CharClass,
};

verus! {

/// A content identifier as it is stored: trimmed, and then without the angle
/// brackets at its ends.
pub open spec fn content_id_of(text: Seq<char>) -> Seq<char> {
    strip(trim(text), CharClass::AngleBracket)
}

/// The attachment after the text of a property was read. The long file name
/// always replaces the name. The short file name and the display name give
/// the name only while the attachment is unnamed, and so does the extension,
/// which is put behind the placeholder for no name.
pub open spec fn with_attachment_text(a: AttachmentView, tag: AttachmentTag, text: Seq<char>) -> AttachmentView {
    match tag {
        AttachmentTag::FilenameLong => AttachmentView { filename: text, ..a },
        AttachmentTag::FilenameShort | AttachmentTag::DisplayName => if a.filename == unnamed() {
            AttachmentView { filename: text, ..a }
        } else {
            a
        },
        AttachmentTag::Extension => if a.filename == unnamed() && text.len() > 0 {
            AttachmentView { filename: unnamed() + text, ..a }
        } else {
            a
        },
        AttachmentTag::MimeTag => AttachmentView { content_type: Some(text), ..a },
        AttachmentTag::ContentId => if content_id_of(text).len() > 0 {
            AttachmentView { content_id: Some(content_id_of(text)), ..a }
        } else {
            a
        },
        AttachmentTag::DataBinary => a,
    }
}

/// The attachment after a stream was read, with the text of its bytes as
/// given. The data stream is taken as it is; the others count only where
/// their bytes give a text.
pub open spec fn with_stream(
    a: AttachmentView,
    tag: AttachmentTag,
    data: Seq<u8>,
    text: Option<Seq<char>>,
) -> AttachmentView {
    match tag {
        AttachmentTag::DataBinary => AttachmentView { data: data, ..a },
        _ => match text {
            Some(t) => with_attachment_text(a, tag, t),
            None => a,
        },
    }
}

/// The attachment after a stream of the given name and content was read.
pub open spec fn absorbed(a: AttachmentView, name: Seq<char>, data: Seq<u8>) -> AttachmentView {
    match attachment_tag(name) {
        Some(tag) => with_stream(a, tag, data, decoded_text(data)),
        None => a,
    }
}

/// A record belongs to the group of a directory if it is a stream that
/// could be read and the directory's name stands in its path.
pub open spec fn in_group(r: StreamRecordView, dir: Seq<char>) -> bool {
    contains_text(r.path, dir) && r.is_stream && r.data is Some
}

/// The records of the group of a directory, in their order.
pub open spec fn group_of(records: Seq<StreamRecordView>, dir: Seq<char>) -> Seq<StreamRecordView> {
    records.filter(|r: StreamRecordView| in_group(r, dir))
}

/// The attachment that a sequence of streams gives, each read in turn.
pub open spec fn assembled(streams: Seq<StreamRecordView>) -> AttachmentView {
    streams.fold_left(
        AttachmentView::fresh(),
        |a: AttachmentView, r: StreamRecordView| absorbed(a, r.name, r.data->0),
    )
}

/// Why a group gave no attachment.
#[derive(Debug)]
pub enum AttachmentError {
    /// The group gave neither data nor a name.
    Empty,
}

impl AttachmentError {
    /// The words for the error.
    pub fn message(&self) -> (r: String)
        ensures
            r@ == "附件数据为空"@,
    {
        "附件数据为空".to_owned()
    }
}

/// What the assembly of a group gives: the attachment, unless it is hollow.
pub open spec fn attachment_of(a: AttachmentView) -> Option<AttachmentView> {
    if a.is_hollow() {
        None
    } else {
        Some(a)
    }
}

/// What came of an assembly.
pub open spec fn assembly_outcome(r: Result<Attachment, AttachmentError>) -> Option<
    AttachmentView,
> {
    match r {
        Ok(a) => Some(a@),
        Err(_) => None,
    }
}

/// Reading one more stream is one more step of the assembly.
pub proof fn lemma_assembled_push(streams: Seq<StreamRecordView>, r: StreamRecordView)
    ensures
        assembled(streams.push(r)) == absorbed(assembled(streams), r.name, r.data->0),
{
    assert(streams.push(r).drop_last() == streams);
}

/// A record joins the group exactly if it belongs to it.
pub proof fn lemma_group_push(records: Seq<StreamRecordView>, r: StreamRecordView, dir: Seq<char>)
    ensures
        group_of(records.push(r), dir) == if in_group(r, dir) {
            group_of(records, dir).push(r)
        } else {
            group_of(records, dir)
        },
{
    records.lemma_filter_push(r, |r: StreamRecordView| in_group(r, dir));
}

/// Whatever streams are read, a content identifier that is set is not empty.
pub proof fn lemma_assembled_content_id(streams: Seq<StreamRecordView>)
    ensures
        assembled(streams).has_sound_content_id(),
    decreases streams.len(),
{
    if streams.len() > 0 {
        lemma_assembled_content_id(streams.drop_last());
    }
}

/// An attachment that an assembly gives is well formed.
pub proof fn lemma_attachment_is_well_formed(streams: Seq<StreamRecordView>)
    ensures
        attachment_of(assembled(streams)) is Some ==> attachment_of(
            assembled(streams),
        )->0.well_formed(),
{
    lemma_assembled_content_id(streams);
}

/// Streams that carry no long file name leave a name that is set as it is.
pub proof fn lemma_name_is_kept(a: AttachmentView, streams: Seq<StreamRecordView>)
    requires
        a.filename != unnamed(),
        forall|i: int|
            0 <= i < streams.len() ==> attachment_tag(#[trigger] streams[i].name) != Some(
                AttachmentTag::FilenameLong,
            ),
    ensures
        streams.fold_left(
            a,
            |a: AttachmentView, r: StreamRecordView| absorbed(a, r.name, r.data->0),
        ).filename == a.filename,
    decreases streams.len(),
{
    if streams.len() > 0 {
        let before = streams.drop_last();
        assert forall|i: int| 0 <= i < before.len() implies attachment_tag(
            #[trigger] before[i].name,
        ) != Some(AttachmentTag::FilenameLong) by {
            assert(before[i] == streams[i]);
        }
        lemma_name_is_kept(a, before);
        assert(attachment_tag(streams[streams.len() - 1].name) != Some(
            AttachmentTag::FilenameLong,
        ));
    }
}

/// The long file name wins: where a stream with a long file name gives a
/// text other than the placeholder for no name, and no later stream of the
/// group carries a long file name, that text is the attachment's name,
/// whatever short names, display names and extensions stand before or after
/// it.
pub proof fn lemma_long_filename_wins(
    before: Seq<StreamRecordView>,
    long: StreamRecordView,
    after: Seq<StreamRecordView>,
)
    requires
        attachment_tag(long.name) == Some(AttachmentTag::FilenameLong),
        long.data is Some,
        decoded_text(long.data->0) is Some,
        decoded_text(long.data->0)->0 != unnamed(),
        forall|i: int|
            0 <= i < after.len() ==> attachment_tag(#[trigger] after[i].name) != Some(
                AttachmentTag::FilenameLong,
            ),
    ensures
        assembled(before.push(long) + after).filename == decoded_text(long.data->0)->0,
{
    let f = |a: AttachmentView, r: StreamRecordView| absorbed(a, r.name, r.data->0);
    let all = before.push(long) + after;
    let head = before.push(long);
    all.lemma_fold_left_split(AttachmentView::fresh(), f, head.len() as int);
    assert(all.subrange(0, head.len() as int) == head);
    assert(all.subrange(head.len() as int, all.len() as int) == after);
    lemma_assembled_push(before, long);
    let named = assembled(head);
    assert(named.filename == decoded_text(long.data->0)->0);
    lemma_name_is_kept(named, after);
}

/// Takes the text of a property into the attachment.
pub fn apply_attachment_text(attachment: &mut Attachment, tag: AttachmentTag, text: Vec<char>)
    ensures
        final(attachment)@ == with_attachment_text(old(attachment)@, tag, text@),
{
    match tag {
        AttachmentTag::FilenameLong => {
            attachment.filename = string_of(&text);
        },
        AttachmentTag::FilenameShort | AttachmentTag::DisplayName => {
            if attachment.filename == unnamed_attachment() {
                attachment.filename = string_of(&text);
            }
        },
        AttachmentTag::Extension => {
            if attachment.filename == unnamed_attachment() && text.len() > 0 {
                let mut name = chars_of(unnamed_attachment().as_str());
                let mut text = text;
                let ghost extension = text@;
                name.append(&mut text);
                assert(name@ == unnamed() + extension);
                attachment.filename = string_of(&name);
            }
        },
        AttachmentTag::MimeTag => {
            attachment.content_type = Some(string_of(&text));
        },
        AttachmentTag::ContentId => {
            let cid = strip_chars(&trim_chars(&text), CharClass::AngleBracket);
            if cid.len() > 0 {
                attachment.content_id = Some(string_of(&cid));
            }
        },
        AttachmentTag::DataBinary => {},
    }
}

/// Reads one stream of a group into the attachment. The name of the stream
/// says which property it holds; a stream with an unknown name leaves the
/// attachment as it is.
pub fn absorb_stream(attachment: &mut Attachment, name: &str, data: &[u8])
    ensures
        final(attachment)@ == absorbed(old(attachment)@, name@, data@),
{
    let tag = match resolve_attachment(name) {
        Some(tag) => tag,
        None => {
            return;
        },
    };
    match tag {
        AttachmentTag::DataBinary => {
            attachment.data = slice_to_vec(data);
        },
        _ => {
            if let Some((text, _)) = decode_chars(data) {
                apply_attachment_text(attachment, tag, text);
            }
        },
    }
}

/// Assembles the attachment of a directory from the records of a container:
/// the streams that could be read and whose path holds the directory's name
/// are read in their order. Fails where they give neither data nor a name.
pub fn parse_attachment(records: &Vec<StreamRecord>, attach_dir: &str) -> (r: Result<
    Attachment,
    AttachmentError,
>)
    ensures
        assembly_outcome(r) == attachment_of(
            assembled(group_of(records_view(records@), attach_dir@)),
        ),
        r matches Ok(a) ==> a@.well_formed(),
{
    proof {
        lemma_attachment_is_well_formed(group_of(records_view(records@), attach_dir@));
    }
    let dir = chars_of(attach_dir);
    let mut attachment = Attachment {
        filename: unnamed_attachment(),
        content_type: None,
        content_id: None,
        data: Vec::new(),
    };
    let mut i: usize = 0;
    proof {
        reveal(Seq::filter);
        assert(records_view(records@).take(0) == Seq::<StreamRecordView>::empty());
        assert(group_of(Seq::<StreamRecordView>::empty(), attach_dir@) == Seq::<
            StreamRecordView,
        >::empty());
    }
    while i < records.len()
        invariant
            i <= records.len(),
            dir@ == attach_dir@,
            attachment@ == assembled(
                group_of(records_view(records@).take(i as int), attach_dir@),
            ),
        decreases records.len() - i,
    {
        let record = &records[i];
        proof {
            let done = records_view(records@).take(i as int);
            assert(records_view(records@).take(i + 1) == done.push(record@));
            lemma_group_push(done, record@, attach_dir@);
            lemma_assembled_push(group_of(done, attach_dir@), record@);
        }
        if record.is_stream {
            if let Some(data) = &record.data {
                let path = chars_of(record.path.as_str());
                if contains_chars(&path, &dir) {
                    absorb_stream(&mut attachment, record.name.as_str(), data.as_slice());
                }
            }
        }
        i += 1;
    }
    assert(records_view(records@).take(records@.len() as int) == records_view(records@));
    if attachment.data.len() == 0 && attachment.filename == unnamed_attachment() {
        return Err(AttachmentError::Empty);
    }
    Ok(attachment)
}

} // verus!
