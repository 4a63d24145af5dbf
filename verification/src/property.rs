//! The rules by which the streams of the message itself fill the message.

use vstd::prelude::*;
use crate::decode::{decode_chars, decoded_text, opt_chars_view};
use crate::message::{MsgEmail, MsgEmailView};
use crate::rtf::{decompress_rtf, rtf_text};
use crate::tags::{property_tag, resolve_property, PropertyTag};
use crate::text::{
    chars_of, contains_char, copy_range, lemma_strip_idempotent, split_chars, split_on,
    string_of, strings_view, texts_view, trim, trim_chars, CharClass,
};
use crate::timestamp::{filetime_of, filetime_text, filetime_to_string, read_filetime};

verus! {

/// A trimmed piece of a list of participants counts as an entry if it is not
/// empty and, where only addresses are wanted, holds an `@`.
pub open spec fn is_entry(entry: Seq<char>, addresses_only: bool) -> bool {
    entry.len() > 0 && (addresses_only ==> entry.contains('@'))
}

/// The entries among the given pieces: each piece trimmed, those that do
/// not count left out.
pub open spec fn entries_of(pieces: Seq<Seq<char>>, addresses_only: bool) -> Seq<Seq<char>> {
    pieces.map_values(|piece: Seq<char>| trim(piece)).filter(
        |entry: Seq<char>| is_entry(entry, addresses_only),
    )
}

/// The participants that a text lists, separated by `;`.
pub open spec fn recipient_entries(text: Seq<char>, addresses_only: bool) -> Seq<Seq<char>> {
    entries_of(split_on(text, ';'), addresses_only)
}

/// A header line that begins with `date:`, in upper or lower case.
pub open spec fn is_date_line(line: Seq<char>) -> bool {
    &&& line.len() >= 5
    &&& (line[0] == 'd' || line[0] == 'D')
    &&& (line[1] == 'a' || line[1] == 'A')
    &&& (line[2] == 't' || line[2] == 'T')
    &&& (line[3] == 'e' || line[3] == 'E')
    &&& line[4] == ':'
}

/// What the first date line among the given lines says, trimmed.
pub open spec fn first_date(lines: Seq<Seq<char>>) -> Option<Seq<char>>
    decreases lines.len(),
{
    if lines.len() == 0 {
        None
    } else if is_date_line(lines.first()) {
        Some(trim(lines.first().skip(5)))
    } else {
        first_date(lines.drop_first())
    }
}

/// The date that the transport headers give. A line ends at a line feed; a
/// carriage return before it is white space and is trimmed away with the
/// rest.
pub open spec fn header_date(headers: Seq<char>) -> Option<Seq<char>> {
    first_date(split_on(headers, '\n'))
}

/// The message after a text property was read.
pub open spec fn with_text(m: MsgEmailView, tag: PropertyTag, text: Seq<char>) -> MsgEmailView {
    match tag {
        PropertyTag::Subject => MsgEmailView { subject: Some(text), ..m },
        PropertyTag::SenderName => MsgEmailView { sender_name: Some(text), ..m },
        PropertyTag::SenderEmail => MsgEmailView { sender_email: Some(text), ..m },
        PropertyTag::DisplayTo => MsgEmailView {
            recipients: m.recipients + recipient_entries(text, false),
            ..m
        },
        PropertyTag::RecipientEmail => MsgEmailView {
            recipients: m.recipients + recipient_entries(text, true),
            ..m
        },
        PropertyTag::DisplayCc => MsgEmailView {
            cc_recipients: m.cc_recipients + recipient_entries(text, false),
            ..m
        },
        PropertyTag::TransportHeaders => if m.sent_time is None && header_date(text) is Some {
            MsgEmailView { sent_time: header_date(text), ..m }
        } else {
            m
        },
        PropertyTag::Body => if trim(text).len() > 0 {
            MsgEmailView { body_text: Some(text), ..m }
        } else {
            m
        },
        PropertyTag::BodyHtml => if trim(text).len() > 0 {
            MsgEmailView { body_html: Some(text), ..m }
        } else {
            m
        },
        PropertyTag::ClientSubmitTime | PropertyTag::MessageDeliveryTime | PropertyTag::BodyRtf => m,
    }
}

/// The message after a time property was read. The time of submission
/// replaces a sent time that is set; the time of delivery does not.
pub open spec fn with_time(m: MsgEmailView, tag: PropertyTag, data: Seq<u8>) -> MsgEmailView {
    if data.len() >= 8 && filetime_text(filetime_of(data)) is Some && (m.sent_time is None || tag
        == PropertyTag::ClientSubmitTime) {
        MsgEmailView { sent_time: filetime_text(filetime_of(data)), ..m }
    } else {
        m
    }
}

/// The message after the RTF body was decompressed.
pub open spec fn with_rtf(m: MsgEmailView, rtf: Seq<char>) -> MsgEmailView {
    if trim(rtf).len() > 0 {
        MsgEmailView { body_rtf: Some(rtf), ..m }
    } else {
        m
    }
}

/// The message after a property was read, with the text of its bytes and
/// the decompressed RTF as given.
pub open spec fn with_property(
    m: MsgEmailView,
    tag: PropertyTag,
    data: Seq<u8>,
    text: Option<Seq<char>>,
    rtf: Option<Seq<char>>,
) -> MsgEmailView {
    match tag {
        PropertyTag::ClientSubmitTime | PropertyTag::MessageDeliveryTime => with_time(
            m,
            tag,
            data,
        ),
        PropertyTag::BodyRtf => match rtf {
            Some(t) => with_rtf(m, t),
            None => m,
        },
        _ => match text {
            Some(t) => with_text(m, tag, t),
            None => m,
        },
    }
}

/// The message after a stream of the given name and content was read. A
/// stream whose name carries no known code leaves the message as it is.
pub open spec fn resolved(m: MsgEmailView, name: Seq<char>, data: Seq<u8>) -> MsgEmailView {
    match property_tag(name) {
        Some(tag) => with_property(m, tag, data, decoded_text(data), rtf_text(data)),
        None => m,
    }
}

/// One more piece gives one more entry exactly if, trimmed, it counts.
pub proof fn lemma_entries_push(pieces: Seq<Seq<char>>, piece: Seq<char>, addresses_only: bool)
    ensures
        entries_of(pieces.push(piece), addresses_only) == if is_entry(
            trim(piece),
            addresses_only,
        ) {
            entries_of(pieces, addresses_only).push(trim(piece))
        } else {
            entries_of(pieces, addresses_only)
        },
{
    let f = |piece: Seq<char>| trim(piece);
    let p = |entry: Seq<char>| is_entry(entry, addresses_only);
    assert(pieces.push(piece).map_values(f) =~= pieces.map_values(f).push(trim(piece)));
    pieces.map_values(f).lemma_filter_push(trim(piece), p);
}

/// No entry among the pieces is empty or blank.
pub proof fn lemma_entries_are_not_blank(pieces: Seq<Seq<char>>, addresses_only: bool)
    ensures
        forall|i: int|
            0 <= i < entries_of(pieces, addresses_only).len() ==> trim(
                #[trigger] entries_of(pieces, addresses_only)[i],
            ).len() > 0,
    decreases pieces.len(),
{
    if pieces.len() == 0 {
        reveal(Seq::filter);
        assert(entries_of(pieces, addresses_only) =~= Seq::<Seq<char>>::empty());
    } else {
        let before = pieces.drop_last();
        let piece = pieces.last();
        lemma_entries_are_not_blank(before, addresses_only);
        assert(pieces == before.push(piece));
        lemma_entries_push(before, piece, addresses_only);
        lemma_strip_idempotent(piece, CharClass::Whitespace);
    }
}

/// Reading a property leaves a well-formed message well formed.
pub proof fn lemma_resolved_is_well_formed(m: MsgEmailView, name: Seq<char>, data: Seq<u8>)
    requires
        m.well_formed(),
    ensures
        resolved(m, name, data).well_formed(),
        resolved(m, name, data).attachments == m.attachments,
{
    let after = resolved(m, name, data);
    if property_tag(name) is Some && decoded_text(data) is Some {
        let text = decoded_text(data)->0;
        lemma_entries_are_not_blank(split_on(text, ';'), false);
        lemma_entries_are_not_blank(split_on(text, ';'), true);
    }
}

/// Lines that are no date lines can be passed over.
pub proof fn lemma_first_date_skip(lines: Seq<Seq<char>>, n: int)
    requires
        0 <= n <= lines.len(),
        forall|j: int| 0 <= j < n ==> !is_date_line(lines[j]),
    ensures
        first_date(lines) == first_date(lines.skip(n)),
    decreases n,
{
    if n == 0 {
        assert(lines.skip(0) == lines);
    } else {
        let rest = lines.drop_first();
        assert forall|j: int| 0 <= j < n - 1 implies !is_date_line(rest[j]) by {
            assert(rest[j] == lines[j + 1]);
        }
        lemma_first_date_skip(rest, n - 1);
        assert(rest.skip(n - 1) == lines.skip(n));
    }
}

/// Appends the participants that a text lists, separated by `;`: each piece
/// trimmed, the empty ones dropped and, where only addresses are wanted,
/// those without an `@`.
pub fn append_entries(list: &mut Vec<String>, text: &Vec<char>, addresses_only: bool)
    ensures
        strings_view(final(list)@) == strings_view(old(list)@) + recipient_entries(
            text@,
            addresses_only,
        ),
{
    let pieces = split_chars(text, ';');
    let mut i: usize = 0;
    proof {
        assert(texts_view(pieces@).take(0) == Seq::<Seq<char>>::empty());
        reveal(Seq::filter);
        assert(entries_of(Seq::<Seq<char>>::empty(), addresses_only) =~= Seq::<Seq<char>>::empty());
        assert(strings_view(list@) =~= strings_view(old(list)@) + Seq::<Seq<char>>::empty());
    }
    while i < pieces.len()
        invariant
            i <= pieces.len(),
            strings_view(list@) == strings_view(old(list)@) + entries_of(
                texts_view(pieces@).take(i as int),
                addresses_only,
            ),
        decreases pieces.len() - i,
    {
        let entry = trim_chars(&pieces[i]);
        proof {
            let done = texts_view(pieces@).take(i as int);
            assert(texts_view(pieces@).take(i + 1) == done.push(pieces@[i as int]@));
            lemma_entries_push(done, pieces@[i as int]@, addresses_only);
        }
        if entry.len() > 0 && (!addresses_only || contains_char(&entry, '@')) {
            let ghost before = list@;
            list.push(string_of(&entry));
            assert(strings_view(list@) =~= strings_view(before).push(entry@));
        }
        i += 1;
    }
    assert(texts_view(pieces@).take(pieces@.len() as int) == texts_view(pieces@));
}

/// Whether a header line begins with `date:`, in upper or lower case.
pub fn line_is_date(line: &Vec<char>) -> (r: bool)
    ensures
        r == is_date_line(line@),
{
    line.len() >= 5 && (line[0] == 'd' || line[0] == 'D') && (line[1] == 'a' || line[1] == 'A')
        && (line[2] == 't' || line[2] == 'T') && (line[3] == 'e' || line[3] == 'E') && line[4]
        == ':'
}

/// Finds the first line of the transport headers that begins with `date:`
/// and gives what follows on that line, trimmed.
pub fn find_header_date(headers: &Vec<char>) -> (r: Option<Vec<char>>)
    ensures
        opt_chars_view(r) == header_date(headers@),
{
    let lines = split_chars(headers, '\n');
    let mut i: usize = 0;
    while i < lines.len()
        invariant
            i <= lines.len(),
            texts_view(lines@) == split_on(headers@, '\n'),
            forall|j: int| 0 <= j < i ==> !is_date_line(texts_view(lines@)[j]),
        decreases lines.len() - i,
    {
        let line = &lines[i];
        assert(texts_view(lines@)[i as int] == line@);
        if line_is_date(line) {
            proof {
                lemma_first_date_skip(texts_view(lines@), i as int);
                assert(texts_view(lines@).skip(i as int).first() == line@);
                assert(line@.skip(5) == line@.subrange(5, line@.len() as int));
            }
            let rest = copy_range(line, 5, line.len());
            return Some(trim_chars(&rest));
        }
        i += 1;
    }
    proof {
        lemma_first_date_skip(texts_view(lines@), lines@.len() as int);
        assert(texts_view(lines@).skip(lines@.len() as int) == Seq::<Seq<char>>::empty());
    }
    None
}

/// Takes the text of a property into the message.
pub fn apply_text(email: &mut MsgEmail, tag: PropertyTag, text: Vec<char>)
    ensures
        final(email)@ == with_text(old(email)@, tag, text@),
{
    match tag {
        PropertyTag::Subject => {
            email.subject = Some(string_of(&text));
        },
        PropertyTag::SenderName => {
            email.sender_name = Some(string_of(&text));
        },
        PropertyTag::SenderEmail => {
            email.sender_email = Some(string_of(&text));
        },
        PropertyTag::DisplayTo => {
            append_entries(&mut email.recipients, &text, false);
        },
        PropertyTag::RecipientEmail => {
            append_entries(&mut email.recipients, &text, true);
        },
        PropertyTag::DisplayCc => {
            append_entries(&mut email.cc_recipients, &text, false);
        },
        PropertyTag::TransportHeaders => {
            if email.sent_time.is_none() {
                if let Some(date) = find_header_date(&text) {
                    email.sent_time = Some(string_of(&date));
                }
            }
        },
        PropertyTag::Body => {
            if trim_chars(&text).len() > 0 {
                email.body_text = Some(string_of(&text));
            }
        },
        PropertyTag::BodyHtml => {
            if trim_chars(&text).len() > 0 {
                email.body_html = Some(string_of(&text));
            }
        },
        PropertyTag::ClientSubmitTime | PropertyTag::MessageDeliveryTime | PropertyTag::BodyRtf => {},
    }
}

/// Takes a time property into the message: the tick count in the first
/// eight bytes, rendered, where it has a rendering.
pub fn apply_time(email: &mut MsgEmail, tag: PropertyTag, data: &[u8])
    ensures
        final(email)@ == with_time(old(email)@, tag, data@),
{
    if data.len() >= 8 {
        let filetime = read_filetime(data);
        if let Some(datetime) = filetime_to_string(filetime) {
            if email.sent_time.is_none() || tag == PropertyTag::ClientSubmitTime {
                email.sent_time = Some(datetime);
            }
        }
    }
}

/// Takes the decompressed RTF body into the message, unless it is blank.
pub fn apply_rtf(email: &mut MsgEmail, rtf: String)
    ensures
        final(email)@ == with_rtf(old(email)@, rtf@),
{
    let chars = chars_of(rtf.as_str());
    if trim_chars(&chars).len() > 0 {
        email.body_rtf = Some(rtf);
    }
}

/// Reads one stream of the message itself into the message. The name of the
/// stream says which property it holds; a stream with an unknown name, or
/// with a content that gives no text, leaves the message as it is.
pub fn parse_property(email: &mut MsgEmail, prop_name: &str, data: &[u8])
    ensures
        final(email)@ == resolved(old(email)@, prop_name@, data@),
        old(email)@.well_formed() ==> final(email)@.well_formed(),
{
    proof {
        if email@.well_formed() {
            lemma_resolved_is_well_formed(email@, prop_name@, data@);
        }
    }
    let tag = match resolve_property(prop_name) {
        Some(tag) => tag,
        None => {
            return;
        },
    };
    match tag {
        PropertyTag::ClientSubmitTime | PropertyTag::MessageDeliveryTime => {
            apply_time(email, tag, data);
        },
        PropertyTag::BodyRtf => {
            if let Some(rtf) = decompress_rtf(data) {
                apply_rtf(email, rtf);
            }
        },
        _ => {
            if let Some((text, _)) = decode_chars(data) {
                apply_text(email, tag, text);
            }
        },
    }
}

} // verus!
