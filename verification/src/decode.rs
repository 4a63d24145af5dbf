//! Turns the bytes of a text property into text. The encoding is not
//! recorded beside the bytes, so four readings are tried in a fixed order and
//! the first that gives a text is taken.

use vstd::prelude::*;
use vstd::utf8::{decode_utf8, valid_utf8};
use crate::text::{
    char_is_whitespace, chars_of, is_whitespace, lemma_strip_idempotent, string_of, strip_end,
    strip_end_chars, trim, trim_chars, CharClass,
};
use crate::utf16::{
    decode_lossy, decode_utf16_lossy, encode, le_bytes, le_units, lemma_decode_encode,
    lemma_encode_no_nul, lemma_le_units_of_le_bytes, lemma_until_nul_take, units_until_nul,
    until_nul,
};

verus! {

/// Whether a character is alphabetic or numeric in the sense of Unicode, as
/// `char::is_alphanumeric` decides it.
pub uninterp spec fn unicode_alphanumeric(c: char) -> bool;

/// The letters and digits of ASCII.
pub open spec fn is_ascii_alphanumeric(c: char) -> bool {
    let n = c as u32;
    ||| 0x30 <= n <= 0x39
    ||| 0x41 <= n <= 0x5A
    ||| 0x61 <= n <= 0x7A
}

/// Whether a character is alphabetic or numeric: within ASCII the letters
/// and digits, beyond it what Unicode counts as such.
pub open spec fn is_alphanumeric(c: char) -> bool {
    if (c as u32) < 0x80 {
        is_ascii_alphanumeric(c)
    } else {
        unicode_alphanumeric(c)
    }
}

/// The text and the error flag that the decoder of `encoding_rs` for GBK
/// gives for a byte sequence.
pub uninterp spec fn gbk_decoded(bytes: Seq<u8>) -> (Seq<char>, bool);

/// The text that `String::from_utf8_lossy` gives for a byte sequence.
pub uninterp spec fn utf8_lossy(bytes: Seq<u8>) -> Seq<char>;

/// Whether an input of the given length can be handed to the GBK decoder.
/// The decoder reserves three bytes of output for each byte of input and up
/// to three more, and does not return where that is more than a buffer can
/// hold, which is `isize::MAX` bytes.
pub open spec fn legacy_decoder_takes(len: nat) -> bool {
    3 * len + 3 <= isize::MAX
}

/// Calls `char::is_alphanumeric`. Its result is a fixed property of the
/// character, known here only by name.
#[verifier::external_body]
fn unicode_is_alphanumeric(c: char) -> (r: bool)
    ensures
        r == unicode_alphanumeric(c),
{
    c.is_alphanumeric()
}

/// Calls `String::from_utf8`, which succeeds exactly on valid UTF-8 and then
/// holds the characters that the bytes encode.
#[verifier::external_body]
fn utf8_strict(data: &[u8]) -> (r: Option<String>)
    ensures
        r is Some <==> valid_utf8(data@),
        r matches Some(s) ==> s@ == decode_utf8(data@),
{
    String::from_utf8(data.to_vec()).ok()
}

/// Calls `encoding_rs::GBK.decode`, which decodes the whole input, honours a
/// byte order mark, puts the replacement character for each malformed
/// sequence and reports whether there was one. Text and flag depend on the
/// bytes alone and are known here only by name. The encoding that was used,
/// its second result, is dropped. The function panics where the size that
/// it reserves for its output overflows: inputs that long are left out.
#[verifier::external_body]
fn gbk_decode(data: &[u8]) -> (r: (String, bool))
    requires
        legacy_decoder_takes(data@.len()),
    ensures
        (r.0@, r.1) == gbk_decoded(data@),
{
    let (text, _, had_errors) = encoding_rs::GBK.decode(data);
    (text.into_owned(), had_errors)
}

/// Calls `String::from_utf8_lossy`, which decodes UTF-8 and puts the
/// replacement character for invalid sequences. The text depends on the
/// bytes alone and is known here only by name.
#[verifier::external_body]
fn utf8_lossy_text(data: &[u8]) -> (r: String)
    ensures
        r@ == utf8_lossy(data@),
{
    String::from_utf8_lossy(data).into_owned()
}

/// The reading that gave a text.
#[derive(Clone, Copy, Debug, PartialEq, Eq, Structural)]
pub enum TextEncoding {
    Utf16Le,
    Utf8,
    Gbk,
    Utf8Lossy,
}

impl TextEncoding {
    /// The name under which the encoding is reported.
    pub open spec fn label(self) -> Seq<char> {
        match self {
            TextEncoding::Utf16Le => "UTF-16 LE"@,
            TextEncoding::Utf8 => "UTF-8"@,
            TextEncoding::Gbk => "GBK"@,
            TextEncoding::Utf8Lossy => "UTF-8 (lossy)"@,
        }
    }

    pub fn name(self) -> (r: String)
        ensures
            r@ == self.label(),
    {
        match self {
            TextEncoding::Utf16Le => "UTF-16 LE".to_owned(),
            TextEncoding::Utf8 => "UTF-8".to_owned(),
            TextEncoding::Gbk => "GBK".to_owned(),
            TextEncoding::Utf8Lossy => "UTF-8 (lossy)".to_owned(),
        }
    }
}

/// A text holds a character that is alphanumeric or white space. Binary
/// payloads read as UTF-16 seldom do.
pub open spec fn looks_textual(text: Seq<char>) -> bool {
    exists|i: int| 0 <= i < text.len() && (is_alphanumeric(text[i]) || is_whitespace(text[i]))
}

/// The text without trailing NUL padding and then without surrounding white
/// space.
pub open spec fn clean(text: Seq<char>) -> Seq<char> {
    trim(strip_end(text, CharClass::Nul))
}

/// A text, unless it is empty.
pub open spec fn nonempty(text: Seq<char>) -> Option<Seq<char>> {
    if text.len() > 0 {
        Some(text)
    } else {
        None
    }
}

/// The bytes read as UTF-16 in little-endian order, up to the first zero
/// unit and trimmed. The reading stands only for an even number of bytes and
/// a text that looks like one.
pub open spec fn utf16_candidate(bytes: Seq<u8>) -> Option<Seq<char>> {
    let text = trim(decode_lossy(until_nul(le_units(bytes))));
    if bytes.len() >= 2 && bytes.len() % 2 == 0 && text.len() > 0 && looks_textual(text) {
        Some(text)
    } else {
        None
    }
}

/// The bytes read as strict UTF-8.
pub open spec fn utf8_candidate(bytes: Seq<u8>) -> Option<Seq<char>> {
    if valid_utf8(bytes) {
        nonempty(clean(decode_utf8(bytes)))
    } else {
        None
    }
}

/// What the GBK decoder gave, if it met no malformed sequence.
pub open spec fn legacy_candidate(text: Seq<char>, had_errors: bool) -> Option<Seq<char>> {
    if had_errors {
        None
    } else {
        nonempty(clean(text))
    }
}

/// The first reading that gives a text, with the GBK decoder's result and
/// the lossy UTF-8 text as given.
pub open spec fn cascade(bytes: Seq<u8>, legacy: (Seq<char>, bool), lossy: Seq<char>) -> Option<
    (Seq<char>, TextEncoding),
> {
    if bytes.len() == 0 {
        None
    } else if utf16_candidate(bytes) is Some {
        Some((utf16_candidate(bytes)->0, TextEncoding::Utf16Le))
    } else if utf8_candidate(bytes) is Some {
        Some((utf8_candidate(bytes)->0, TextEncoding::Utf8))
    } else if legacy_decoder_takes(bytes.len()) && legacy_candidate(legacy.0, legacy.1) is Some {
        Some((legacy_candidate(legacy.0, legacy.1)->0, TextEncoding::Gbk))
    } else if nonempty(clean(lossy)) is Some {
        Some((clean(lossy), TextEncoding::Utf8Lossy))
    } else {
        None
    }
}

/// The text of a byte sequence and the reading that gave it.
pub open spec fn decoded(bytes: Seq<u8>) -> Option<(Seq<char>, TextEncoding)> {
    cascade(bytes, gbk_decoded(bytes), utf8_lossy(bytes))
}

/// The text of a byte sequence.
pub open spec fn decoded_text(bytes: Seq<u8>) -> Option<Seq<char>> {
    match decoded(bytes) {
        Some(pair) => Some(pair.0),
        None => None,
    }
}

/// The view of an optional text.
pub open spec fn opt_chars_view(o: Option<Vec<char>>) -> Option<Seq<char>> {
    match o {
        Some(t) => Some(t@),
        None => None,
    }
}

/// The view of a decoding result.
pub open spec fn decoding_view(o: Option<(Vec<char>, TextEncoding)>) -> Option<
    (Seq<char>, TextEncoding),
> {
    match o {
        Some(pair) => Some((pair.0@, pair.1)),
        None => None,
    }
}

/// The view of a decoding result with the encoding's label.
pub open spec fn labelled_view(o: Option<(String, String)>) -> Option<(Seq<char>, Seq<char>)> {
    match o {
        Some(pair) => Some((pair.0@, pair.1@)),
        None => None,
    }
}

/// The text of a byte sequence and the label of the reading that gave it.
pub open spec fn decoded_labelled(bytes: Seq<u8>) -> Option<(Seq<char>, Seq<char>)> {
    match decoded(bytes) {
        Some(pair) => Some((pair.0, pair.1.label())),
        None => None,
    }
}

/// Whether an input of the given length can be handed to the GBK decoder.
pub fn fits_legacy_decoder(len: usize) -> (r: bool)
    ensures
        r == legacy_decoder_takes(len as nat),
{
    len <= (isize::MAX as usize - 3) / 3
}

/// Whether a character is alphabetic or numeric. Within ASCII that is
/// decided here; beyond it the question goes to `char::is_alphanumeric`.
pub fn char_is_alphanumeric(c: char) -> (r: bool)
    ensures
        r == is_alphanumeric(c),
{
    let n: u32 = c as u32;
    if n < 0x80 {
        (0x30 <= n && n <= 0x39) || (0x41 <= n && n <= 0x5A) || (0x61 <= n && n <= 0x7A)
    } else {
        unicode_is_alphanumeric(c)
    }
}

/// Whether the text holds a character that is alphanumeric or white space.
pub fn text_looks_textual(text: &Vec<char>) -> (r: bool)
    ensures
        r == looks_textual(text@),
{
    let mut i: usize = 0;
    while i < text.len()
        invariant
            i <= text.len(),
            forall|j: int| 0 <= j < i ==> !(is_alphanumeric(text@[j]) || is_whitespace(text@[j])),
        decreases text.len() - i,
    {
        let c = text[i];
        if char_is_alphanumeric(c) || char_is_whitespace(c) {
            return true;
        }
        i += 1;
    }
    false
}

/// The text without trailing NUL padding and surrounding white space.
pub fn clean_chars(text: Vec<char>) -> (r: Vec<char>)
    ensures
        r@ == clean(text@),
{
    let mut text = text;
    strip_end_chars(&mut text, CharClass::Nul);
    trim_chars(&text)
}

/// The cleaned text, unless nothing is left of it.
pub fn accept_text(text: &str) -> (r: Option<Vec<char>>)
    ensures
        opt_chars_view(r) == nonempty(clean(text@)),
{
    let cleaned = clean_chars(chars_of(text));
    if cleaned.len() > 0 {
        Some(cleaned)
    } else {
        None
    }
}

/// The cleaned text of the GBK decoder, unless it met a malformed sequence
/// or nothing is left.
pub fn accept_legacy(text: &str, had_errors: bool) -> (r: Option<Vec<char>>)
    ensures
        opt_chars_view(r) == legacy_candidate(text@, had_errors),
{
    if had_errors {
        None
    } else {
        accept_text(text)
    }
}

/// Reads the bytes as UTF-16 in little-endian order.
pub fn decode_utf16(data: &[u8]) -> (r: Option<Vec<char>>)
    ensures
        opt_chars_view(r) == utf16_candidate(data@),
{
    if data.len() >= 2 && data.len() % 2 == 0 {
        let units = units_until_nul(data);
        let text = decode_utf16_lossy(&units);
        let trimmed = trim_chars(&text);
        if trimmed.len() > 0 && text_looks_textual(&trimmed) {
            return Some(trimmed);
        }
    }
    None
}

/// Reads the bytes as strict UTF-8.
pub fn decode_utf8_strict(data: &[u8]) -> (r: Option<Vec<char>>)
    ensures
        opt_chars_view(r) == utf8_candidate(data@),
{
    match utf8_strict(data) {
        Some(text) => accept_text(text.as_str()),
        None => None,
    }
}

/// Decodes the bytes of a text property: as UTF-16 in little-endian order,
/// else as strict UTF-8, else as GBK, else as UTF-8 with replacement
/// characters. Gives nothing for an empty input and where every reading
/// leaves an empty text.
pub fn decode_chars(data: &[u8]) -> (r: Option<(Vec<char>, TextEncoding)>)
    ensures
        decoding_view(r) == decoded(data@),
{
    if data.len() == 0 {
        return None;
    }
    if let Some(text) = decode_utf16(data) {
        return Some((text, TextEncoding::Utf16Le));
    }
    if let Some(text) = decode_utf8_strict(data) {
        return Some((text, TextEncoding::Utf8));
    }
    if fits_legacy_decoder(data.len()) {
        let (text, had_errors) = gbk_decode(data);
        if let Some(text) = accept_legacy(text.as_str(), had_errors) {
            return Some((text, TextEncoding::Gbk));
        }
    }
    let lossy = utf8_lossy_text(data);
    if let Some(text) = accept_text(lossy.as_str()) {
        return Some((text, TextEncoding::Utf8Lossy));
    }
    None
}

/// Decodes the bytes of a text property and names the encoding that was
/// taken: `UTF-16 LE`, `UTF-8`, `GBK` or `UTF-8 (lossy)`.
pub fn decode_with_encoding(data: &[u8]) -> (r: Option<(String, String)>)
    ensures
        labelled_view(r) == decoded_labelled(data@),
{
    match decode_chars(data) {
        Some((text, encoding)) => Some((string_of(&text), encoding.name())),
        None => None,
    }
}

/// A text that was decoded is not empty and has no white space at its ends,
/// whichever reading gave it.
pub proof fn lemma_decoded_is_trimmed(bytes: Seq<u8>)
    ensures
        decoded_text(bytes) is Some ==> decoded_text(bytes)->0.len() > 0 && trim(
            decoded_text(bytes)->0,
        ) == decoded_text(bytes)->0,
{
    lemma_strip_idempotent(decode_lossy(until_nul(le_units(bytes))), CharClass::Whitespace);
    lemma_strip_idempotent(strip_end(decode_utf8(bytes), CharClass::Nul), CharClass::Whitespace);
    lemma_strip_idempotent(strip_end(gbk_decoded(bytes).0, CharClass::Nul), CharClass::Whitespace);
    lemma_strip_idempotent(strip_end(utf8_lossy(bytes), CharClass::Nul), CharClass::Whitespace);
}

/// `n` zero bytes.
pub open spec fn nul_bytes(n: nat) -> Seq<u8> {
    Seq::new(n, |i: int| 0u8)
}

/// `n` NUL characters.
pub open spec fn nul_chars(n: nat) -> Seq<char> {
    Seq::new(n, |i: int| '\0')
}

/// A text written as UTF-16 in little-endian order and closed by a zero
/// unit decodes to itself, trimmed, under the label of UTF-16: if it holds
/// no NUL and, trimmed, is not empty and holds a character that is
/// alphanumeric or white space. A text without surrounding white space comes
/// back as it is.
pub proof fn lemma_utf16_text_decodes(text: Seq<char>)
    requires
        !text.contains('\0'),
        trim(text).len() > 0,
        looks_textual(trim(text)),
    ensures
        decoded(le_bytes(encode(text)) + seq![0u8, 0u8]) == Some(
            (trim(text), TextEncoding::Utf16Le),
        ),
        trim(text) == text ==> decoded_labelled(le_bytes(encode(text)) + seq![0u8, 0u8]) == Some(
            (text, "UTF-16 LE"@),
        ),
{
    let units = encode(text);
    let closed = units.push(0u16);
    let bytes = le_bytes(units) + seq![0u8, 0u8];
    assert(bytes =~= le_bytes(closed));
    lemma_le_units_of_le_bytes(closed);
    lemma_encode_no_nul(text);
    lemma_until_nul_take(closed, units.len() as int);
    assert(closed.take(units.len() as int) == units);
    lemma_decode_encode(text);
    assert(bytes.len() == 2 * closed.len());
    assert(utf16_candidate(bytes) == Some(trim(text)));
}

/// A valid UTF-8 buffer that the reading as UTF-16 does not claim decodes to
/// its text, without trailing NUL padding and surrounding white space, under
/// the label of UTF-8, if anything is left of the text.
pub proof fn lemma_utf8_buffer_decodes(bytes: Seq<u8>)
    requires
        valid_utf8(bytes),
        utf16_candidate(bytes) is None,
        clean(decode_utf8(bytes)).len() > 0,
    ensures
        decoded(bytes) == Some((clean(decode_utf8(bytes)), TextEncoding::Utf8)),
        decoded_labelled(bytes) == Some((clean(decode_utf8(bytes)), "UTF-8"@)),
{
    if bytes.len() == 0 {
        assert(decode_utf8(bytes) =~= Seq::<char>::empty());
        assert(clean(Seq::<char>::empty()).len() == 0);
    }
}

/// Trailing NUL characters do not count.
pub proof fn lemma_clean_ignores_padding(text: Seq<char>, padding: nat)
    ensures
        clean(text + nul_chars(padding)) == clean(text),
    decreases padding,
{
    if padding == 0 {
        assert(text + nul_chars(0) == text);
    } else {
        let padded = text + nul_chars(padding);
        assert(padded.last() == '\0');
        assert(padded.drop_last() == text + nul_chars((padding - 1) as nat));
        lemma_clean_ignores_padding(text, (padding - 1) as nat);
    }
}

/// Zero bytes behind valid UTF-8 are NUL characters behind its text.
pub proof fn lemma_decode_padded(body: Seq<u8>, padding: nat)
    requires
        valid_utf8(body),
    ensures
        valid_utf8(body + nul_bytes(padding)),
        decode_utf8(body + nul_bytes(padding)) == decode_utf8(body) + nul_chars(padding),
{
    let zeros = nul_bytes(padding);
    let nuls = nul_chars(padding);
    let bytes = body + zeros;
    assert(vstd::utf8::is_ascii_chars(nuls));
    vstd::utf8::is_ascii_chars_encode_utf8(nuls);
    assert forall|i: int| 0 <= i < zeros.len() implies vstd::utf8::encode_utf8(nuls)[i]
        == zeros[i] by {
        assert(nuls[i] as u8 == vstd::utf8::encode_utf8(nuls)[i]);
    }
    assert(vstd::utf8::encode_utf8(nuls) =~= zeros);
    vstd::utf8::encode_utf8_valid_utf8(nuls);
    vstd::utf8::encode_utf8_decode_utf8(nuls);
    vstd::utf8::valid_utf8_concat(body, zeros);
    let at = body.len() as int;
    if padding == 0 {
        assert(bytes == body);
        vstd::utf8::is_char_boundary_start_end_of_seq(bytes);
    } else {
        assert(bytes[at] == 0u8);
        assert(!vstd::utf8::is_continuation_byte(0u8)) by {
            assert(0u8 & 0xC0 != 0x80) by (bit_vector);
        }
        vstd::utf8::is_char_boundary_iff_not_is_continuation_byte(bytes, at);
    }
    vstd::utf8::decode_utf8_split(bytes, at);
    assert(bytes.subrange(0, at) == body);
    assert(bytes.subrange(at, bytes.len() as int) == zeros);
}

/// A valid UTF-8 buffer with trailing NUL padding decodes to the text of the
/// buffer without the padding, cleaned, under the label of UTF-8: if the
/// reading as UTF-16 does not claim the padded buffer and anything is left
/// of the text.
pub proof fn lemma_padded_utf8_decodes(body: Seq<u8>, padding: nat)
    requires
        valid_utf8(body),
        utf16_candidate(body + nul_bytes(padding)) is None,
        clean(decode_utf8(body)).len() > 0,
    ensures
        decoded_labelled(body + nul_bytes(padding)) == Some((clean(decode_utf8(body)), "UTF-8"@)),
{
    lemma_decode_padded(body, padding);
    lemma_clean_ignores_padding(decode_utf8(body), padding);
    lemma_utf8_buffer_decodes(body + nul_bytes(padding));
}

} // verus!
