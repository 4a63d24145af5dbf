//! The compressed RTF body. Decompression is the work of the
//! `compressed_rtf` crate; this module decides which inputs it is given.

use vstd::prelude::*;
use crate::text::opt_string_view;

verus! {

/// The text that `compressed_rtf::decompress_rtf` gives for a byte sequence,
/// or nothing where it reports an error.
pub uninterp spec fn rtf_decompressed(bytes: Seq<u8>) -> Option<Seq<char>>;

/// The length of the header: four numbers of four bytes, which are the
/// size of what follows the first number, the size of the text, the kind of
/// storage and a checksum.
pub const RTF_HEADER_LEN: usize = 16;

/// The kind of storage of a text that is stored as it is.
pub const RTF_STORED: u64 = 0x414C454D;

/// The number in the four bytes from index `at`, low byte first.
pub open spec fn le_u32_at(bytes: Seq<u8>, at: int) -> int {
    bytes[at] + 0x100 * bytes[at + 1] + 0x10000 * bytes[at + 2] + 0x1000000 * bytes[at + 3]
}

/// The inputs that are handed to the decompressor: the header is complete,
/// the size in its first number is that of the rest of the input, the size
/// of the text is one that a buffer can have, and a text that is stored as
/// it is lies within the input.
pub open spec fn rtf_admissible(bytes: Seq<u8>) -> bool {
    &&& bytes.len() >= RTF_HEADER_LEN
    &&& le_u32_at(bytes, 0) + 4 == bytes.len()
    &&& le_u32_at(bytes, 4) <= isize::MAX
    &&& (le_u32_at(bytes, 8) == RTF_STORED ==> le_u32_at(bytes, 4) + RTF_HEADER_LEN
        <= bytes.len())
}

/// The text of a compressed RTF body, or nothing where the input is not
/// handed to the decompressor or the decompressor reports an error.
pub open spec fn rtf_text(bytes: Seq<u8>) -> Option<Seq<char>> {
    if rtf_admissible(bytes) {
        rtf_decompressed(bytes)
    } else {
        None
    }
}

/// Calls `compressed_rtf::decompress_rtf` and drops its error. The text
/// depends on the bytes alone and is known here only by name. The function
/// slices the first 16 bytes of its input and, for a text that is stored as
/// it is, the bytes from index 16 up to the size of the text behind it,
/// without a test: the inputs that are too short for that are left out. For
/// a compressed text it reserves a buffer of the size of the text, which
/// panics above `isize::MAX` bytes: such sizes are left out too.
#[verifier::external_body]
fn decompress(data: &[u8]) -> (r: Option<String>)
    requires
        rtf_admissible(data@),
    ensures
        opt_string_view(r) == rtf_decompressed(data@),
{
    compressed_rtf::decompress_rtf(data).ok()
}

/// Reads the number in the four bytes from index `at`, low byte first.
fn read_u32_at(data: &[u8], at: usize) -> (r: u64)
    requires
        at + 4 <= data@.len(),
    ensures
        r == le_u32_at(data@, at as int),
{
    (data[at] as u64) + 0x100 * (data[at + 1] as u64) + 0x10000 * (data[at + 2] as u64) + 0x1000000
        * (data[at + 3] as u64)
}

/// Whether the input can be handed to the decompressor.
pub fn is_rtf_admissible(data: &[u8]) -> (r: bool)
    ensures
        r == rtf_admissible(data@),
{
    if data.len() < RTF_HEADER_LEN {
        return false;
    }
    let compressed_size = read_u32_at(data, 0);
    let raw_size = read_u32_at(data, 4);
    let kind = read_u32_at(data, 8);
    let total = data.len() as u64;
    if compressed_size + 4 != total {
        return false;
    }
    if raw_size > isize::MAX as u64 {
        return false;
    }
    kind != RTF_STORED || raw_size + 16 <= total
}

/// Decompresses a compressed RTF body. Gives nothing where the header does
/// not fit the input or the decompressor reports an error.
pub fn decompress_rtf(data: &[u8]) -> (r: Option<String>)
    ensures
        opt_string_view(r) == rtf_text(data@),
{
    if is_rtf_admissible(data) {
        decompress(data)
    } else {
        None
    }
}

} // verus!
