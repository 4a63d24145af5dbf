//! UTF-16 in little-endian byte order: code units from bytes, and the lossy
//! decoding of code units to characters.

use vstd::prelude::*;

verus! {

/// `char::from_u32` gives the character with the given scalar value, and
/// nothing for a surrogate or a number above `0x10FFFF`.
pub assume_specification[ char::from_u32 ](i: u32) -> (r: Option<char>)
    ensures
        r == (if i < 0xD800 || (0xE000 <= i && i <= 0x10FFFF) {
            Some(i as char)
        } else {
            None::<char>
        }),
;

/// What stands for a code unit that does not decode.
pub const REPLACEMENT_CHARACTER: char = '\u{FFFD}';

/// The `i`-th code unit of a byte sequence: low byte first.
pub open spec fn unit_at(bytes: Seq<u8>, i: int) -> u16 {
    (bytes[2 * i] as int + 256 * (bytes[2 * i + 1] as int)) as u16
}

/// The code units of a byte sequence. A last odd byte is left out.
pub open spec fn le_units(bytes: Seq<u8>) -> Seq<u16> {
    Seq::new((bytes.len() / 2) as nat, |i: int| unit_at(bytes, i))
}

/// The code units before the first zero unit.
pub open spec fn until_nul(units: Seq<u16>) -> Seq<u16>
    decreases units.len(),
{
    if units.len() == 0 || units.first() == 0 {
        Seq::<u16>::empty()
    } else {
        seq![units.first()] + until_nul(units.drop_first())
    }
}

/// A code unit that opens a surrogate pair.
pub open spec fn is_high_surrogate(u: u16) -> bool {
    0xD800 <= u <= 0xDBFF
}

/// A code unit that closes a surrogate pair.
pub open spec fn is_low_surrogate(u: u16) -> bool {
    0xDC00 <= u <= 0xDFFF
}

/// The character that a surrogate pair encodes.
pub open spec fn combine(high: u16, low: u16) -> char
    recommends
        is_high_surrogate(high),
        is_low_surrogate(low),
{
    (0x10000 + (high - 0xD800) * 0x400 + (low - 0xDC00)) as char
}

/// The characters that a sequence of code units encodes. A surrogate that is
/// not part of a pair gives the replacement character.
pub open spec fn decode_lossy(units: Seq<u16>) -> Seq<char>
    decreases units.len(),
{
    if units.len() == 0 {
        Seq::<char>::empty()
    } else {
        let u = units.first();
        if is_high_surrogate(u) && units.len() >= 2 && is_low_surrogate(units[1]) {
            seq![combine(u, units[1])] + decode_lossy(units.skip(2))
        } else if is_high_surrogate(u) || is_low_surrogate(u) {
            seq![REPLACEMENT_CHARACTER] + decode_lossy(units.drop_first())
        } else {
            seq![u as char] + decode_lossy(units.drop_first())
        }
    }
}

/// The code units that encode one character.
pub open spec fn encode_char(c: char) -> Seq<u16> {
    let n = c as u32;
    if n < 0x10000 {
        seq![n as u16]
    } else {
        seq![
            (0xD800 + (n - 0x10000) / 0x400) as u16,
            (0xDC00 + (n - 0x10000) % 0x400) as u16,
        ]
    }
}

/// The code units that encode a text.
pub open spec fn encode(text: Seq<char>) -> Seq<u16>
    decreases text.len(),
{
    if text.len() == 0 {
        Seq::<u16>::empty()
    } else {
        encode_char(text.first()) + encode(text.drop_first())
    }
}

/// The bytes of a sequence of code units, low byte first.
pub open spec fn le_bytes(units: Seq<u16>) -> Seq<u8> {
    Seq::new(
        2 * units.len(),
        |i: int|
            if i % 2 == 0 {
                (units[i / 2] % 256) as u8
            } else {
                (units[i / 2] / 256) as u8
            },
    )
}

/// The units before the first zero are a prefix in which no zero occurs.
pub proof fn lemma_until_nul_take(units: Seq<u16>, n: int)
    requires
        0 <= n <= units.len(),
        forall|j: int| 0 <= j < n ==> units[j] != 0,
        n < units.len() ==> units[n] == 0,
    ensures
        until_nul(units) == units.take(n),
    decreases n,
{
    if n == 0 {
        assert(units.take(0) == Seq::<u16>::empty());
    } else {
        let rest = units.drop_first();
        assert forall|j: int| 0 <= j < n - 1 implies rest[j] != 0 by {
            assert(rest[j] == units[j + 1]);
        }
        lemma_until_nul_take(rest, n - 1);
        assert(units.take(n) == seq![units.first()] + rest.take(n - 1));
    }
}

/// Reading the bytes of code units gives the code units back.
pub proof fn lemma_le_units_of_le_bytes(units: Seq<u16>)
    ensures
        le_units(le_bytes(units)) == units,
{
    let bytes = le_bytes(units);
    assert(bytes.len() / 2 == units.len());
    assert forall|i: int| 0 <= i < units.len() implies unit_at(bytes, i) == units[i] by {
        assert(bytes[2 * i] == (units[(2 * i) / 2] % 256) as u8);
        assert(bytes[2 * i + 1] == (units[(2 * i + 1) / 2] / 256) as u8);
    }
    assert(le_units(bytes) =~= units);
}

/// No code unit of a text without NUL is zero.
pub proof fn lemma_encode_no_nul(text: Seq<char>)
    requires
        !text.contains('\0'),
    ensures
        forall|j: int| 0 <= j < encode(text).len() ==> encode(text)[j] != 0,
    decreases text.len(),
{
    if text.len() > 0 {
        let rest = text.drop_first();
        assert(text.contains(text.first()));
        assert forall|c: char| rest.contains(c) implies text.contains(c) by {
            let k = choose|k: int| 0 <= k < rest.len() && rest[k] == c;
            assert(text[k + 1] == c);
        }
        lemma_encode_no_nul(rest);
        let c = text.first();
        let head = encode_char(c);
        assert(c != '\0');
        assert(c as u32 != 0) by {
            vstd::utf8::char_u32_cast(c, c as u32);
            vstd::utf8::char_u32_cast('\0', 0u32);
        }
        vstd::utf8::char_is_scalar(c);
        assert forall|j: int| 0 <= j < head.len() implies head[j] != 0 by {
            let n = c as u32;
            if n < 0x10000 {
                assert(head[0] == n as u16);
            } else {
                assert(head[0] == (0xD800 + (n - 0x10000) / 0x400) as u16);
                assert(head[1] == (0xDC00 + (n - 0x10000) % 0x400) as u16);
            }
        }
        assert(encode(text) == head + encode(rest));
        assert forall|j: int| 0 <= j < encode(text).len() implies encode(text)[j] != 0 by {
            if j < head.len() {
                assert(encode(text)[j] == head[j]);
            } else {
                assert(encode(text)[j] == encode(rest)[j - head.len()]);
            }
        }
    }
}

/// Decoding the code units of a text gives the text back.
pub proof fn lemma_decode_encode(text: Seq<char>)
    ensures
        decode_lossy(encode(text)) == text,
    decreases text.len(),
{
    if text.len() > 0 {
        let c = text.first();
        let rest = text.drop_first();
        lemma_decode_encode(rest);
        let head = encode_char(c);
        let units = encode(text);
        let n = c as u32;
        vstd::utf8::char_is_scalar(c);
        vstd::utf8::char_u32_cast(c, n);
        assert(units == head + encode(rest));
        if n < 0x10000 {
            assert(units.first() == n as u16);
            assert(units.drop_first() == encode(rest));
            assert((n as u16) as char == c);
        } else {
            let high = (0xD800 + (n - 0x10000) / 0x400) as u16;
            let low = (0xDC00 + (n - 0x10000) % 0x400) as u16;
            assert(units.first() == high);
            assert(units[1] == low);
            assert(units.skip(2) == encode(rest));
            assert(combine(high, low) == c);
        }
        assert(text == seq![c] + rest);
    }
}

/// The code units of a byte sequence, up to the first zero unit.
pub fn units_until_nul(data: &[u8]) -> (units: Vec<u16>)
    ensures
        units@ == until_nul(le_units(data@)),
{
    let count: usize = data.len() / 2;
    let mut units: Vec<u16> = Vec::new();
    let mut i: usize = 0;
    while i < count
        invariant
            i <= count,
            count == data@.len() / 2,
            data@.len() <= usize::MAX,
            units@ == le_units(data@).take(i as int),
            forall|j: int| 0 <= j < i ==> le_units(data@)[j] != 0,
        decreases count - i,
    {
        let low: u16 = data[2 * i] as u16;
        let high: u16 = data[2 * i + 1] as u16;
        let unit: u16 = low + 256 * high;
        assert(unit == le_units(data@)[i as int]);
        if unit == 0 {
            proof {
                lemma_until_nul_take(le_units(data@), i as int);
            }
            return units;
        }
        assert(le_units(data@).take(i + 1) == le_units(data@).take(i as int).push(unit));
        units.push(unit);
        i += 1;
    }
    proof {
        lemma_until_nul_take(le_units(data@), i as int);
    }
    units
}

/// Decodes code units to characters, with the replacement character for
/// each surrogate that is not part of a pair.
pub fn decode_utf16_lossy(units: &Vec<u16>) -> (text: Vec<char>)
    ensures
        text@ == decode_lossy(units@),
{
    let mut text: Vec<char> = Vec::new();
    let mut i: usize = 0;
    assert(units@.skip(0) == units@);
    assert(text@ + decode_lossy(units@) == decode_lossy(units@));
    while i < units.len()
        invariant
            i <= units.len(),
            text@ + decode_lossy(units@.skip(i as int)) == decode_lossy(units@),
        decreases units.len() - i,
    {
        let u: u16 = units[i];
        let ghost rest = units@.skip(i as int);
        assert(rest.first() == u);
        let ghost before = text@;
        if 0xD800 <= u && u <= 0xDBFF && i + 1 < units.len() && 0xDC00 <= units[i + 1] && units[i
            + 1] <= 0xDFFF {
            let low: u16 = units[i + 1];
            assert(rest[1] == low);
            let code: u32 = 0x10000 + ((u - 0xD800) as u32) * 0x400 + ((low - 0xDC00) as u32);
            let c = match char::from_u32(code) {
                Some(c) => c,
                None => REPLACEMENT_CHARACTER,
            };
            assert(c == combine(u, low));
            text.push(c);
            assert(rest.skip(2) == units@.skip(i + 2));
            assert(text@ + decode_lossy(units@.skip(i + 2)) =~= before + decode_lossy(rest));
            i += 2;
        } else {
            let c = match char::from_u32(u as u32) {
                Some(c) => c,
                None => REPLACEMENT_CHARACTER,
            };
            text.push(c);
            assert(rest.drop_first() == units@.skip(i + 1));
            assert(text@ + decode_lossy(units@.skip(i + 1)) =~= before + decode_lossy(rest));
            i += 1;
        }
    }
    assert(units@.skip(units@.len() as int) == Seq::<u16>::empty());
    assert(text@ + Seq::<char>::empty() == text@);
    text
}

} // verus!
