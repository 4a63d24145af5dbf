//! The property that a stream holds, read from the stream's name. A name
//! carries a code of four characters at a fixed place.

use vstd::prelude::*;
use crate::text::chars_of;

verus! {

/// The properties of a message that are read.
#[derive(Clone, Copy, Debug, PartialEq, Eq, Structural)]
pub enum PropertyTag {
    Subject,
    SenderName,
    SenderEmail,
    DisplayTo,
    RecipientEmail,
    DisplayCc,
    TransportHeaders,
    ClientSubmitTime,
    MessageDeliveryTime,
    Body,
    BodyRtf,
    BodyHtml,
}

/// The properties of an attachment that are read.
#[derive(Clone, Copy, Debug, PartialEq, Eq, Structural)]
pub enum AttachmentTag {
    FilenameLong,
    FilenameShort,
    DisplayName,
    Extension,
    MimeTag,
    ContentId,
    DataBinary,
}

/// A code of four characters.
pub open spec fn code(a: char, b: char, c: char, d: char) -> Seq<char> {
    seq![a, b, c, d]
}

/// The message property that a code stands for.
pub open spec fn property_of_code(c: Seq<char>) -> Option<PropertyTag> {
    if c == code('0', '0', '3', '7') {
        Some(PropertyTag::Subject)
    } else if c == code('0', 'C', '1', 'A') {
        Some(PropertyTag::SenderName)
    } else if c == code('0', 'C', '1', 'F') || c == code('5', 'D', '0', '1') || c == code(
        '0',
        '0',
        '6',
        '5',
    ) {
        Some(PropertyTag::SenderEmail)
    } else if c == code('0', 'E', '0', '4') {
        Some(PropertyTag::DisplayTo)
    } else if c == code('0', 'E', '0', '3') || c == code('0', '0', '7', '6') {
        Some(PropertyTag::RecipientEmail)
    } else if c == code('0', 'E', '0', '2') {
        Some(PropertyTag::DisplayCc)
    } else if c == code('0', '0', '7', 'D') {
        Some(PropertyTag::TransportHeaders)
    } else if c == code('0', '0', '3', '9') {
        Some(PropertyTag::ClientSubmitTime)
    } else if c == code('0', 'E', '0', '6') {
        Some(PropertyTag::MessageDeliveryTime)
    } else if c == code('1', '0', '0', '0') {
        Some(PropertyTag::Body)
    } else if c == code('1', '0', '0', '9') {
        Some(PropertyTag::BodyRtf)
    } else if c == code('1', '0', '1', '3') {
        Some(PropertyTag::BodyHtml)
    } else {
        None
    }
}

/// The attachment property that a code stands for.
pub open spec fn attachment_of_code(c: Seq<char>) -> Option<AttachmentTag> {
    if c == code('3', '7', '0', '7') {
        Some(AttachmentTag::FilenameLong)
    } else if c == code('3', '7', '0', '4') {
        Some(AttachmentTag::FilenameShort)
    } else if c == code('3', '0', '0', '1') {
        Some(AttachmentTag::DisplayName)
    } else if c == code('3', '7', '0', '3') {
        Some(AttachmentTag::Extension)
    } else if c == code('3', '7', '0', 'E') {
        Some(AttachmentTag::MimeTag)
    } else if c == code('3', '7', '1', '2') {
        Some(AttachmentTag::ContentId)
    } else if c == code('3', '7', '0', '1') {
        Some(AttachmentTag::DataBinary)
    } else {
        None
    }
}

/// The code in the name of a stream of the message itself: the characters at
/// indices 12 to 15 of a name of at least 20 characters.
pub open spec fn property_code(name: Seq<char>) -> Option<Seq<char>> {
    if name.len() >= 20 {
        Some(name.subrange(12, 16))
    } else {
        None
    }
}

/// The code in the name of a stream of an attachment: the four characters
/// before the last four, in a name of at least 8 characters.
pub open spec fn attachment_code(name: Seq<char>) -> Option<Seq<char>> {
    if name.len() >= 8 {
        Some(name.subrange(name.len() - 8, name.len() - 4))
    } else {
        None
    }
}

/// The message property that a stream of the given name holds.
pub open spec fn property_tag(name: Seq<char>) -> Option<PropertyTag> {
    match property_code(name) {
        Some(c) => property_of_code(c),
        None => None,
    }
}

/// The attachment property that a stream of the given name holds.
pub open spec fn attachment_tag(name: Seq<char>) -> Option<AttachmentTag> {
    match attachment_code(name) {
        Some(c) => attachment_of_code(c),
        None => None,
    }
}

/// The message property that a code stands for.
pub fn lookup_property(a: char, b: char, c: char, d: char) -> (r: Option<PropertyTag>)
    ensures
        r == property_of_code(code(a, b, c, d)),
{
    proof {
        lemma_code_eq(a, b, c, d);
    }
    if a == '0' && b == '0' && c == '3' && d == '7' {
        Some(PropertyTag::Subject)
    } else if a == '0' && b == 'C' && c == '1' && d == 'A' {
        Some(PropertyTag::SenderName)
    } else if (a == '0' && b == 'C' && c == '1' && d == 'F') || (a == '5' && b == 'D' && c == '0'
        && d == '1') || (a == '0' && b == '0' && c == '6' && d == '5') {
        Some(PropertyTag::SenderEmail)
    } else if a == '0' && b == 'E' && c == '0' && d == '4' {
        Some(PropertyTag::DisplayTo)
    } else if (a == '0' && b == 'E' && c == '0' && d == '3') || (a == '0' && b == '0' && c == '7'
        && d == '6') {
        Some(PropertyTag::RecipientEmail)
    } else if a == '0' && b == 'E' && c == '0' && d == '2' {
        Some(PropertyTag::DisplayCc)
    } else if a == '0' && b == '0' && c == '7' && d == 'D' {
        Some(PropertyTag::TransportHeaders)
    } else if a == '0' && b == '0' && c == '3' && d == '9' {
        Some(PropertyTag::ClientSubmitTime)
    } else if a == '0' && b == 'E' && c == '0' && d == '6' {
        Some(PropertyTag::MessageDeliveryTime)
    } else if a == '1' && b == '0' && c == '0' && d == '0' {
        Some(PropertyTag::Body)
    } else if a == '1' && b == '0' && c == '0' && d == '9' {
        Some(PropertyTag::BodyRtf)
    } else if a == '1' && b == '0' && c == '1' && d == '3' {
        Some(PropertyTag::BodyHtml)
    } else {
        None
    }
}

/// The attachment property that a code stands for.
pub fn lookup_attachment(a: char, b: char, c: char, d: char) -> (r: Option<AttachmentTag>)
    ensures
        r == attachment_of_code(code(a, b, c, d)),
{
    proof {
        lemma_code_eq(a, b, c, d);
    }
    if a == '3' && b == '7' && c == '0' && d == '7' {
        Some(AttachmentTag::FilenameLong)
    } else if a == '3' && b == '7' && c == '0' && d == '4' {
        Some(AttachmentTag::FilenameShort)
    } else if a == '3' && b == '0' && c == '0' && d == '1' {
        Some(AttachmentTag::DisplayName)
    } else if a == '3' && b == '7' && c == '0' && d == '3' {
        Some(AttachmentTag::Extension)
    } else if a == '3' && b == '7' && c == '0' && d == 'E' {
        Some(AttachmentTag::MimeTag)
    } else if a == '3' && b == '7' && c == '1' && d == '2' {
        Some(AttachmentTag::ContentId)
    } else if a == '3' && b == '7' && c == '0' && d == '1' {
        Some(AttachmentTag::DataBinary)
    } else {
        None
    }
}

/// Two codes are equal exactly when their four characters are.
pub proof fn lemma_code_eq(a: char, b: char, c: char, d: char)
    ensures
        forall|w: char, x: char, y: char, z: char|
            (#[trigger] code(w, x, y, z) == code(a, b, c, d)) <==> (w == a && x == b && y == c && z
                == d),
{
    assert forall|w: char, x: char, y: char, z: char|
        (#[trigger] code(w, x, y, z) == code(a, b, c, d)) <==> (w == a && x == b && y == c && z
            == d) by {
        if code(w, x, y, z) == code(a, b, c, d) {
            assert(code(w, x, y, z)[0] == code(a, b, c, d)[0]);
            assert(code(w, x, y, z)[1] == code(a, b, c, d)[1]);
            assert(code(w, x, y, z)[2] == code(a, b, c, d)[2]);
            assert(code(w, x, y, z)[3] == code(a, b, c, d)[3]);
        }
    }
}

/// Reads the message property from the name of a stream.
pub fn resolve_property(name: &str) -> (r: Option<PropertyTag>)
    ensures
        r == property_tag(name@),
{
    let chars = chars_of(name);
    if chars.len() >= 20 {
        assert(chars@.subrange(12, 16) =~= code(chars@[12], chars@[13], chars@[14], chars@[15]));
        lookup_property(chars[12], chars[13], chars[14], chars[15])
    } else {
        None
    }
}

/// Reads the attachment property from the name of a stream.
pub fn resolve_attachment(name: &str) -> (r: Option<AttachmentTag>)
    ensures
        r == attachment_tag(name@),
{
    let chars = chars_of(name);
    let n = chars.len();
    if n >= 8 {
        assert(chars@.subrange(n - 8, n - 4) =~= code(
            chars@[n - 8],
            chars@[n - 7],
            chars@[n - 6],
            chars@[n - 5],
        ));
        lookup_attachment(chars[n - 8], chars[n - 7], chars[n - 6], chars[n - 5])
    } else {
        None
    }
}

} // verus!
