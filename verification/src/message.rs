//! The message that is read from a container, and its attachments.

use vstd::prelude::*;
use crate::text::{opt_string_view, strings_view, trim};

verus! {

/// The file name of an attachment that has none yet.
pub open spec fn unnamed() -> Seq<char> {
    "未命名附件"@
}

/// The file name of an attachment that has none yet.
pub fn unnamed_attachment() -> (r: String)
    ensures
        r@ == unnamed(),
{
    "未命名附件".to_owned()
}

/// One attachment of a message.
#[derive(Debug)]
pub struct Attachment {
    pub filename: String,
    pub content_type: Option<String>,
    /// The identifier by which the HTML body refers to the attachment, as the
    /// `xxx` of `src="cid:xxx"`.
    pub content_id: Option<String>,
    pub data: Vec<u8>,
}

/// What an attachment holds.
pub struct AttachmentView {
    pub filename: Seq<char>,
    pub content_type: Option<Seq<char>>,
    pub content_id: Option<Seq<char>>,
    pub data: Seq<u8>,
}

impl View for Attachment {
    type V = AttachmentView;

    open spec fn view(&self) -> AttachmentView {
        AttachmentView {
            filename: self.filename@,
            content_type: opt_string_view(self.content_type),
            content_id: opt_string_view(self.content_id),
            data: self.data@,
        }
    }
}

impl AttachmentView {
    /// An attachment with an empty name and nothing else.
    pub open spec fn empty() -> AttachmentView {
        AttachmentView {
            filename: Seq::<char>::empty(),
            content_type: None,
            content_id: None,
            data: Seq::<u8>::empty(),
        }
    }

    /// The attachment that the assembly of a group starts from.
    pub open spec fn fresh() -> AttachmentView {
        AttachmentView { filename: unnamed(), ..AttachmentView::empty() }
    }

    /// An attachment with no data and no name: its group held nothing of
    /// use.
    pub open spec fn is_hollow(self) -> bool {
        self.data.len() == 0 && self.filename == unnamed()
    }

    /// A content identifier that is set is not empty.
    pub open spec fn has_sound_content_id(self) -> bool {
        self.content_id is Some ==> self.content_id->0.len() > 0
    }

    /// What holds of every attachment of a message that was read: it is not
    /// hollow, and a content identifier that is set is not empty.
    pub open spec fn well_formed(self) -> bool {
        !self.is_hollow() && self.has_sound_content_id()
    }
}

impl Default for Attachment {
    fn default() -> (r: Attachment)
        ensures
            r@ == AttachmentView::empty(),
    {
        Attachment { filename: String::new(), content_type: None, content_id: None, data: Vec::new() }
    }
}

/// The views of a sequence of attachments.
pub open spec fn attachments_view(v: Seq<Attachment>) -> Seq<AttachmentView> {
    v.map_values(|a: Attachment| a@)
}

/// A mail message.
#[derive(Debug)]
pub struct MsgEmail {
    pub subject: Option<String>,
    pub sender_name: Option<String>,
    pub sender_email: Option<String>,
    pub recipients: Vec<String>,
    pub cc_recipients: Vec<String>,
    pub sent_time: Option<String>,
    pub body_text: Option<String>,
    pub body_html: Option<String>,
    pub body_rtf: Option<String>,
    pub attachments: Vec<Attachment>,
}

/// What a message holds.
pub struct MsgEmailView {
    pub subject: Option<Seq<char>>,
    pub sender_name: Option<Seq<char>>,
    pub sender_email: Option<Seq<char>>,
    pub recipients: Seq<Seq<char>>,
    pub cc_recipients: Seq<Seq<char>>,
    pub sent_time: Option<Seq<char>>,
    pub body_text: Option<Seq<char>>,
    pub body_html: Option<Seq<char>>,
    pub body_rtf: Option<Seq<char>>,
    pub attachments: Seq<AttachmentView>,
}

impl View for MsgEmail {
    type V = MsgEmailView;

    open spec fn view(&self) -> MsgEmailView {
        MsgEmailView {
            subject: opt_string_view(self.subject),
            sender_name: opt_string_view(self.sender_name),
            sender_email: opt_string_view(self.sender_email),
            recipients: strings_view(self.recipients@),
            cc_recipients: strings_view(self.cc_recipients@),
            sent_time: opt_string_view(self.sent_time),
            body_text: opt_string_view(self.body_text),
            body_html: opt_string_view(self.body_html),
            body_rtf: opt_string_view(self.body_rtf),
            attachments: attachments_view(self.attachments@),
        }
    }
}

impl MsgEmailView {
    /// What holds of every message that was read: no participant is empty
    /// or blank, and every attachment is well formed.
    pub open spec fn well_formed(self) -> bool {
        &&& forall|i: int|
            0 <= i < self.recipients.len() ==> trim(#[trigger] self.recipients[i]).len() > 0
        &&& forall|i: int|
            0 <= i < self.cc_recipients.len() ==> trim(#[trigger] self.cc_recipients[i]).len()
                > 0
        &&& forall|i: int|
            0 <= i < self.attachments.len() ==> (#[trigger] self.attachments[i]).well_formed()
    }

    /// The message in which nothing is set.
    pub open spec fn empty() -> MsgEmailView {
        MsgEmailView {
            subject: None,
            sender_name: None,
            sender_email: None,
            recipients: Seq::<Seq<char>>::empty(),
            cc_recipients: Seq::<Seq<char>>::empty(),
            sent_time: None,
            body_text: None,
            body_html: None,
            body_rtf: None,
            attachments: Seq::<AttachmentView>::empty(),
        }
    }
}

impl Default for MsgEmail {
    fn default() -> (r: MsgEmail)
        ensures
            r@ == MsgEmailView::empty(),
            r@.well_formed(),
    {
        let r = MsgEmail {
            subject: None,
            sender_name: None,
            sender_email: None,
            recipients: Vec::new(),
            cc_recipients: Vec::new(),
            sent_time: None,
            body_text: None,
            body_html: None,
            body_rtf: None,
            attachments: Vec::new(),
        };
        assert(r@.recipients =~= Seq::<Seq<char>>::empty());
        assert(r@.cc_recipients =~= Seq::<Seq<char>>::empty());
        assert(r@.attachments =~= Seq::<AttachmentView>::empty());
        r
    }
}

} // verus!
