//! Character classes and the sequence operations on text that the property
//! rules are built from: stripping, splitting, searching.

use vstd::prelude::*;

verus! {

/// `String::push` appends one character.
pub assume_specification[ String::push ](s: &mut String, c: char)
    ensures
        final(s)@ == old(s)@.push(c),
;

/// The characters with the Unicode property `White_Space`.
pub open spec fn is_whitespace(c: char) -> bool {
    let n = c as u32;
    ||| 0x09 <= n <= 0x0D
    ||| n == 0x20
    ||| n == 0x85
    ||| n == 0xA0
    ||| n == 0x1680
    ||| 0x2000 <= n <= 0x200A
    ||| n == 0x2028
    ||| n == 0x2029
    ||| n == 0x202F
    ||| n == 0x205F
    ||| n == 0x3000
}

/// Whether a character has the Unicode property `White_Space`.
pub fn char_is_whitespace(c: char) -> (r: bool)
    ensures
        r == is_whitespace(c),
{
    let n: u32 = c as u32;
    (0x09 <= n && n <= 0x0D) || n == 0x20 || n == 0x85 || n == 0xA0 || n == 0x1680 || (0x2000 <= n
        && n <= 0x200A) || n == 0x2028 || n == 0x2029 || n == 0x202F || n == 0x205F || n == 0x3000
}

/// A set of characters that can be stripped from the ends of a text.
#[derive(Clone, Copy, Debug)]
pub enum CharClass {
    /// Unicode white space.
    Whitespace,
    /// The NUL character, used as padding.
    Nul,
    /// `<` and `>`.
    AngleBracket,
}

impl CharClass {
    /// Whether the character is in the class.
    pub open spec fn holds(self, c: char) -> bool {
        match self {
            CharClass::Whitespace => is_whitespace(c),
            CharClass::Nul => c == '\0',
            CharClass::AngleBracket => c == '<' || c == '>',
        }
    }

    /// Whether the character is in the class.
    pub fn test(self, c: char) -> (r: bool)
        ensures
            r == self.holds(c),
    {
        match self {
            CharClass::Whitespace => char_is_whitespace(c),
            CharClass::Nul => c == '\0',
            CharClass::AngleBracket => c == '<' || c == '>',
        }
    }
}

/// `s` without its longest prefix of characters in `class`.
pub open spec fn strip_start(s: Seq<char>, class: CharClass) -> Seq<char>
    decreases s.len(),
{
    if s.len() > 0 && class.holds(s.first()) {
        strip_start(s.drop_first(), class)
    } else {
        s
    }
}

/// `s` without its longest suffix of characters in `class`.
pub open spec fn strip_end(s: Seq<char>, class: CharClass) -> Seq<char>
    decreases s.len(),
{
    if s.len() > 0 && class.holds(s.last()) {
        strip_end(s.drop_last(), class)
    } else {
        s
    }
}

/// `s` with the characters in `class` removed from both ends.
pub open spec fn strip(s: Seq<char>, class: CharClass) -> Seq<char> {
    strip_end(strip_start(s, class), class)
}

/// `s` without leading and trailing white space.
pub open spec fn trim(s: Seq<char>) -> Seq<char> {
    strip(s, CharClass::Whitespace)
}

/// The pieces of `s` between occurrences of `sep`, in order. There is always
/// at least one piece; a text that ends in `sep` has an empty last piece.
pub open spec fn split_on(s: Seq<char>, sep: char) -> Seq<Seq<char>>
    decreases s.len(),
{
    if s.len() == 0 {
        seq![Seq::<char>::empty()]
    } else {
        let before = split_on(s.drop_last(), sep);
        if s.last() == sep {
            before.push(Seq::<char>::empty())
        } else {
            before.drop_last().push(before.last().push(s.last()))
        }
    }
}

/// `needle` stands in `hay` at index `i`.
pub open spec fn occurs_at(hay: Seq<char>, needle: Seq<char>, i: int) -> bool {
    &&& 0 <= i
    &&& i + needle.len() <= hay.len()
    &&& hay.subrange(i, i + needle.len()) == needle
}

/// `needle` stands somewhere in `hay`.
pub open spec fn contains_text(hay: Seq<char>, needle: Seq<char>) -> bool {
    exists|i: int| occurs_at(hay, needle, i)
}

/// The views of a vector of texts.
pub open spec fn texts_view(v: Seq<Vec<char>>) -> Seq<Seq<char>> {
    v.map_values(|t: Vec<char>| t@)
}

/// The views of a vector of strings.
pub open spec fn strings_view(v: Seq<String>) -> Seq<Seq<char>> {
    v.map_values(|t: String| t@)
}

/// The view of an optional string.
pub open spec fn opt_string_view(o: Option<String>) -> Option<Seq<char>> {
    match o {
        Some(s) => Some(s@),
        None => None,
    }
}

/// The pieces put together again, with `sep` between each two.
pub open spec fn joined(pieces: Seq<Seq<char>>, sep: char) -> Seq<char>
    decreases pieces.len(),
{
    if pieces.len() == 0 {
        Seq::<char>::empty()
    } else if pieces.len() == 1 {
        pieces.last()
    } else {
        joined(pieces.drop_last(), sep) + seq![sep] + pieces.last()
    }
}

/// Splitting gives at least one piece, no piece holds the separator, and
/// the pieces joined by the separator are the text.
pub proof fn lemma_split_is_sound(s: Seq<char>, sep: char)
    ensures
        split_on(s, sep).len() >= 1,
        forall|i: int|
            0 <= i < split_on(s, sep).len() ==> !(#[trigger] split_on(s, sep)[i]).contains(sep),
        joined(split_on(s, sep), sep) == s,
    decreases s.len(),
{
    if s.len() == 0 {
        assert(joined(split_on(s, sep), sep) =~= s);
    } else {
        let shorter = s.drop_last();
        let c = s.last();
        lemma_split_is_sound(shorter, sep);
        let before = split_on(shorter, sep);
        let pieces = split_on(s, sep);
        if c == sep {
            assert(pieces.drop_last() == before);
            assert(joined(pieces, sep) =~= shorter.push(c));
        } else {
            let grown = before.last().push(c);
            assert(pieces.drop_last() == before.drop_last());
            assert(pieces.last() == grown);
            if before.len() == 1 {
                assert(joined(pieces, sep) =~= shorter.push(c));
            } else {
                assert(joined(pieces, sep) =~= joined(before, sep).push(c));
            }
            assert forall|i: int| 0 <= i < pieces.len() implies !(#[trigger] pieces[i]).contains(
                sep,
            ) by {
                if i < pieces.len() - 1 {
                    assert(pieces[i] == before[i]);
                } else {
                    assert(!before.last().contains(sep));
                    if grown.contains(sep) {
                        let k = choose|k: int| 0 <= k < grown.len() && grown[k] == sep;
                        assert(before.last()[k] == sep);
                    }
                }
            }
        }
        assert(shorter.push(c) == s);
    }
}

/// Stripping from the start leaves what follows the first character outside
/// the class.
pub proof fn lemma_strip_start_skip(s: Seq<char>, class: CharClass, i: int)
    requires
        0 <= i <= s.len(),
        forall|j: int| 0 <= j < i ==> class.holds(s[j]),
        i < s.len() ==> !class.holds(s[i]),
    ensures
        strip_start(s, class) == s.skip(i),
    decreases i,
{
    if i == 0 {
        assert(s.skip(0) == s);
    } else {
        let t = s.drop_first();
        assert forall|j: int| 0 <= j < i - 1 implies class.holds(t[j]) by {
            assert(t[j] == s[j + 1]);
        }
        lemma_strip_start_skip(t, class, i - 1);
        assert(t.skip(i - 1) == s.skip(i));
    }
}

/// What is left after stripping from the start is empty or begins outside
/// the class.
pub proof fn lemma_strip_start_begins_outside(s: Seq<char>, class: CharClass)
    ensures
        strip_start(s, class).len() > 0 ==> !class.holds(strip_start(s, class).first()),
    decreases s.len(),
{
    if s.len() > 0 && class.holds(s.first()) {
        lemma_strip_start_begins_outside(s.drop_first(), class);
    }
}

/// What is left after stripping from the end is a prefix that is empty or
/// ends outside the class.
pub proof fn lemma_strip_end_is_prefix(s: Seq<char>, class: CharClass)
    ensures
        strip_end(s, class).len() <= s.len(),
        strip_end(s, class) == s.take(strip_end(s, class).len() as int),
        strip_end(s, class).len() > 0 ==> !class.holds(strip_end(s, class).last()),
    decreases s.len(),
{
    if s.len() > 0 && class.holds(s.last()) {
        let shorter = s.drop_last();
        lemma_strip_end_is_prefix(shorter, class);
        let n = strip_end(shorter, class).len() as int;
        assert(shorter.take(n) == s.take(n));
    } else {
        assert(s.take(s.len() as int) == s);
    }
}

/// A stripped text is empty or begins and ends outside the class.
pub proof fn lemma_strip_ends_outside(s: Seq<char>, class: CharClass)
    ensures
        strip(s, class).len() > 0 ==> !class.holds(strip(s, class).first()) && !class.holds(
            strip(s, class).last(),
        ),
{
    let t = strip_start(s, class);
    lemma_strip_start_begins_outside(s, class);
    lemma_strip_end_is_prefix(t, class);
}

/// Stripping a stripped text changes nothing.
pub proof fn lemma_strip_idempotent(s: Seq<char>, class: CharClass)
    ensures
        strip(strip(s, class), class) == strip(s, class),
{
    lemma_strip_ends_outside(s, class);
}

/// The characters of a string slice.
pub fn chars_of(s: &str) -> (v: Vec<char>)
    ensures
        v@ == s@,
{
    let mut v: Vec<char> = Vec::new();
    for c in iter: s.chars()
        invariant
            iter.seq() == s@,
            v@ == iter.seq().take(iter.index() as int),
    {
        assert(iter.seq().take(iter.index() + 1) == iter.seq().take(iter.index() as int).push(c));
        v.push(c);
    }
    assert(s@.take(s@.len() as int) == s@);
    v
}

/// The string made of the given characters.
pub fn string_of(v: &Vec<char>) -> (s: String)
    ensures
        s@ == v@,
{
    let mut s = String::new();
    let mut i: usize = 0;
    while i < v.len()
        invariant
            i <= v.len(),
            s@ == v@.take(i as int),
        decreases v.len() - i,
    {
        assert(v@.take(i + 1) == v@.take(i as int).push(v@[i as int]));
        s.push(v[i]);
        i += 1;
    }
    assert(v@.take(v@.len() as int) == v@);
    s
}

/// A copy of the characters from index `from` up to `to`.
pub fn copy_range(v: &Vec<char>, from: usize, to: usize) -> (r: Vec<char>)
    requires
        from <= to <= v.len(),
    ensures
        r@ == v@.subrange(from as int, to as int),
{
    let mut r: Vec<char> = Vec::new();
    let mut i: usize = from;
    while i < to
        invariant
            from <= i <= to <= v.len(),
            r@ == v@.subrange(from as int, i as int),
        decreases to - i,
    {
        assert(v@.subrange(from as int, i + 1) == v@.subrange(from as int, i as int).push(
            v@[i as int],
        ));
        r.push(v[i]);
        i += 1;
    }
    r
}

/// Removes the trailing characters in `class`.
pub fn strip_end_chars(v: &mut Vec<char>, class: CharClass)
    ensures
        final(v)@ == strip_end(old(v)@, class),
{
    while v.len() > 0 && class.test(v[v.len() - 1])
        invariant
            strip_end(v@, class) == strip_end(old(v)@, class),
        decreases v.len(),
    {
        v.pop();
    }
}

/// The text without its leading characters in `class`.
pub fn strip_start_chars(v: &Vec<char>, class: CharClass) -> (r: Vec<char>)
    ensures
        r@ == strip_start(v@, class),
{
    let mut i: usize = 0;
    while i < v.len() && class.test(v[i])
        invariant
            i <= v.len(),
            forall|j: int| 0 <= j < i ==> class.holds(v@[j]),
        decreases v.len() - i,
    {
        i += 1;
    }
    proof {
        lemma_strip_start_skip(v@, class, i as int);
    }
    copy_range(v, i, v.len())
}

/// The text with the characters in `class` removed from both ends.
pub fn strip_chars(v: &Vec<char>, class: CharClass) -> (r: Vec<char>)
    ensures
        r@ == strip(v@, class),
{
    let mut r = strip_start_chars(v, class);
    strip_end_chars(&mut r, class);
    r
}

/// The text without leading and trailing white space.
pub fn trim_chars(v: &Vec<char>) -> (r: Vec<char>)
    ensures
        r@ == trim(v@),
{
    strip_chars(v, CharClass::Whitespace)
}

/// Splits a text at every occurrence of `sep`.
pub fn split_chars(v: &Vec<char>, sep: char) -> (pieces: Vec<Vec<char>>)
    ensures
        texts_view(pieces@) == split_on(v@, sep),
{
    let mut pieces: Vec<Vec<char>> = Vec::new();
    let mut current: Vec<char> = Vec::new();
    let mut i: usize = 0;
    while i < v.len()
        invariant
            i <= v.len(),
            texts_view(pieces@).push(current@) == split_on(v@.take(i as int), sep),
        decreases v.len() - i,
    {
        let c = v[i];
        proof {
            let next = v@.take(i + 1);
            assert(next.drop_last() == v@.take(i as int));
            assert(next.last() == c);
            let before = split_on(v@.take(i as int), sep);
            assert(before.drop_last() == texts_view(pieces@));
            assert(before.last() == current@);
        }
        if c == sep {
            let ghost old_pieces = pieces@;
            pieces.push(current);
            assert(texts_view(pieces@) == texts_view(old_pieces).push(current@));
            current = Vec::new();
        } else {
            current.push(c);
        }
        i += 1;
    }
    assert(v@.take(v@.len() as int) == v@);
    let ghost old_pieces = pieces@;
    pieces.push(current);
    assert(texts_view(pieces@) == texts_view(old_pieces).push(current@));
    pieces
}

/// Whether `c` occurs in the text.
pub fn contains_char(v: &Vec<char>, c: char) -> (r: bool)
    ensures
        r == v@.contains(c),
{
    let mut i: usize = 0;
    while i < v.len()
        invariant
            i <= v.len(),
            forall|j: int| 0 <= j < i ==> v@[j] != c,
        decreases v.len() - i,
    {
        if v[i] == c {
            return true;
        }
        i += 1;
    }
    false
}

/// Whether `prefix` stands at the start of the text.
pub fn starts_with_chars(v: &Vec<char>, prefix: &Vec<char>) -> (r: bool)
    ensures
        r == prefix@.is_prefix_of(v@),
{
    if prefix.len() > v.len() {
        return false;
    }
    let mut i: usize = 0;
    while i < prefix.len()
        invariant
            i <= prefix.len() <= v.len(),
            forall|j: int| 0 <= j < i ==> v@[j] == prefix@[j],
        decreases prefix.len() - i,
    {
        if v[i] != prefix[i] {
            assert(v@.subrange(0, prefix@.len() as int)[i as int] != prefix@[i as int]);
            return false;
        }
        i += 1;
    }
    assert(prefix@ =~= v@.subrange(0, prefix@.len() as int));
    true
}

/// Whether `needle` stands in `hay` at index `at`.
pub fn matches_at(hay: &Vec<char>, needle: &Vec<char>, at: usize) -> (r: bool)
    requires
        at + needle.len() <= hay.len(),
    ensures
        r == occurs_at(hay@, needle@, at as int),
{
    let mut j: usize = 0;
    while j < needle.len()
        invariant
            j <= needle.len(),
            at + needle.len() <= hay.len(),
            forall|k: int| 0 <= k < j ==> hay@[at + k] == needle@[k],
        decreases needle.len() - j,
    {
        if hay[at + j] != needle[j] {
            assert(hay@.subrange(at as int, at + needle@.len())[j as int] != needle@[j as int]);
            return false;
        }
        j += 1;
    }
    assert(hay@.subrange(at as int, at + needle@.len()) =~= needle@);
    true
}

/// Whether `needle` stands somewhere in `hay`.
pub fn contains_chars(hay: &Vec<char>, needle: &Vec<char>) -> (r: bool)
    ensures
        r == contains_text(hay@, needle@),
{
    if needle.len() > hay.len() {
        return false;
    }
    let last: usize = hay.len() - needle.len();
    let mut i: usize = 0;
    while i < last
        invariant
            i <= last,
            last == hay.len() - needle.len(),
            needle.len() <= hay.len(),
            forall|k: int| 0 <= k < i ==> !occurs_at(hay@, needle@, k),
        decreases last - i,
    {
        if matches_at(hay, needle, i) {
            return true;
        }
        i += 1;
    }
    matches_at(hay, needle, last)
}

} // verus!
