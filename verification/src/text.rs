//! Paths as the system reports them: decoding, and the part after the last separator.

use vstd::prelude::*;

verus! {

/// What `String::from_utf8_lossy` makes of `bytes`.
pub uninterp spec fn utf8_lossy(bytes: Seq<u8>) -> Seq<char>;

/// `String::from_utf8_lossy`: the bytes read as UTF-8, with U+FFFD in the place of each invalid
/// part. The contract names the result and claims of it that valid UTF-8 is decoded as such, that
/// some text comes out of any bytes at all, and that a NUL comes out only of a zero byte. How many
/// replacement characters an invalid part gives is left unsaid.
#[verifier::external_body]
pub(crate) fn decode_utf8_lossy(bytes: &[u8]) -> (text: String)
    ensures
        text@ == utf8_lossy(bytes@),
        vstd::utf8::valid_utf8(bytes@) ==> text@ == vstd::utf8::decode_utf8(bytes@),
        bytes@.len() > 0 ==> text@.len() > 0,
        !bytes@.contains(0u8) ==> !text@.contains('\0'),
{
    String::from_utf8_lossy(bytes).into_owned()
}

/// `char::from_u32`: the character with the code point `i`, unless `i` is a surrogate or beyond
/// the last code point.
pub assume_specification[ char::from_u32 ](i: u32) -> (c: Option<char>)
    ensures
        c == (if vstd::utf8::is_scalar(i) {
            Some(i as char)
        } else {
            None
        }),
;

/// `String::push`: one more character at the end.
pub assume_specification[ String::push ](s: &mut String, c: char)
    ensures
        final(s)@ == old(s)@.push(c),
;

/// The longest part at the end of `text` without `separator`: what follows the last separator,
/// or all of `text` if there is none.
pub open spec fn after_last(text: Seq<char>, separator: char) -> Seq<char>
    decreases text.len(),
{
    if text.len() == 0 || text.last() == separator {
        seq![]
    } else {
        after_last(text.drop_last(), separator).push(text.last())
    }
}

/// The items before the first `end`, or all of them if there is none.
pub open spec fn before_first<T>(items: Seq<T>, end: T) -> Seq<T>
    decreases items.len(),
{
    if items.len() == 0 || items[0] == end {
        seq![]
    } else {
        seq![items[0]] + before_first(items.skip(1), end)
    }
}

/// `before_first` of items of which the first `n` are known to be no `end`.
pub(crate) proof fn lemma_before_first<T>(items: Seq<T>, end: T, n: int)
    requires
        0 <= n <= items.len(),
        n < items.len() ==> items[n] == end,
        forall|j: int| 0 <= j < n ==> items[j] != end,
    ensures
        before_first(items, end) == items.take(n),
        !before_first(items, end).contains(end),
    decreases n,
{
    if n > 0 {
        lemma_before_first(items.skip(1), end, n - 1);
        assert(seq![items[0]] + items.skip(1).take(n - 1) =~= items.take(n));
    } else {
        assert(items.take(0) =~= seq![]);
    }
}

pub open spec fn is_surrogate(unit: u16) -> bool {
    0xD800 <= unit <= 0xDFFF
}

/// Whether two code units make up one character beyond U+FFFF.
pub open spec fn is_surrogate_pair(first: u16, second: u16) -> bool {
    0xD800 <= first <= 0xDBFF && 0xDC00 <= second <= 0xDFFF
}

pub open spec fn pair_code_point(first: u16, second: u16) -> int {
    0x1_0000 + (first - 0xD800) * 0x400 + (second - 0xDC00)
}

/// The text of UTF-16 code units, with U+FFFD for every surrogate that is not half of a pair.
pub open spec fn utf16_lossy(units: Seq<u16>) -> Seq<char>
    decreases units.len(),
{
    if units.len() == 0 {
        seq![]
    } else if !is_surrogate(units[0]) {
        seq![units[0] as char] + utf16_lossy(units.skip(1))
    } else if units.len() > 1 && is_surrogate_pair(units[0], units[1]) {
        seq![pair_code_point(units[0], units[1]) as char] + utf16_lossy(units.skip(2))
    } else {
        seq!['\u{FFFD}'] + utf16_lossy(units.skip(1))
    }
}

/// Decodes UTF-16. Surrogates without a partner become U+FFFD.
pub fn decode_utf16_lossy(units: &[u16]) -> (text: String)
    ensures
        text@ == utf16_lossy(units@),
{
    let mut text = String::new();
    let mut i: usize = 0;
    proof {
        assert(units@.skip(0) =~= units@);
    }
    while i < units.len()
        invariant
            i <= units@.len(),
            text@ + utf16_lossy(units@.skip(i as int)) == utf16_lossy(units@),
        decreases units@.len() - i,
    {
        let unit = units[i];
        let mut code: u32 = 0xFFFD;
        let mut width: usize = 1;
        if unit < 0xD800 || unit > 0xDFFF {
            code = unit as u32;
        } else if unit <= 0xDBFF && units.len() - i > 1 {
            let second = units[i + 1];
            if second >= 0xDC00 && second <= 0xDFFF {
                code = 0x1_0000 + (unit as u32 - 0xD800) * 0x400 + (second as u32 - 0xDC00);
                width = 2;
            }
        }
        let ghost before = text@;
        if let Some(c) = char::from_u32(code) {
            text.push(c);
        }
        proof {
            assert(units@.skip(i as int).skip(width as int) =~= units@.skip(i + width));
            assert(text@ == before + seq![code as char]);
            assert(before + (seq![code as char] + utf16_lossy(units@.skip(i + width)))
                =~= text@ + utf16_lossy(units@.skip(i + width)));
        }
        i += width;
    }
    text
}

/// The index of the last `separator` in `text`, if there is one.
fn rfind(text: &str, separator: char) -> (index: Option<usize>)
    ensures
        match index {
            Some(i) => i < text@.len() && text@[i as int] == separator && forall|j: int|
                i < j < text@.len() ==> text@[j] != separator,
            None => !text@.contains(separator),
        },
{
    let mut index: Option<usize> = None;
    let len = text.unicode_len();
    let mut i: usize = 0;
    for c in it: text.chars()
        invariant
            it.seq() == text@,
            i == it.index(),
            len == text@.len(),
            match index {
                Some(k) => k < i && text@[k as int] == separator && forall|j: int|
                    k < j < i ==> text@[j] != separator,
                None => forall|j: int| 0 <= j < i ==> text@[j] != separator,
            },
    {
        if c == separator {
            index = Some(i);
        }
        i += 1;
    }
    index
}

/// The name at the end of a module's path: what follows the last backslash, or the last slash
/// if there is no backslash, or the whole path.
pub open spec fn basename(path: Seq<char>) -> Seq<char> {
    if path.contains('\\') {
        after_last(path, '\\')
    } else {
        after_last(path, '/')
    }
}

/// `after_last` of a text whose last separator is known.
proof fn lemma_after_last_at(text: Seq<char>, separator: char, i: int)
    requires
        0 <= i < text.len(),
        text[i] == separator,
        forall|j: int| i < j < text.len() ==> text[j] != separator,
    ensures
        after_last(text, separator) == text.skip(i + 1),
    decreases text.len(),
{
    if i < text.len() - 1 {
        lemma_after_last_at(text.drop_last(), separator, i);
        assert(text.drop_last().skip(i + 1).push(text.last()) =~= text.skip(i + 1));
    } else {
        assert(text.skip(i + 1) =~= seq![]);
    }
}

/// `after_last` of a text without a separator.
proof fn lemma_after_last_none(text: Seq<char>, separator: char)
    requires
        !text.contains(separator),
    ensures
        after_last(text, separator) == text,
    decreases text.len(),
{
    if text.len() > 0 {
        assert(text[text.len() - 1] != separator);
        assert forall|j: int| 0 <= j < text.len() - 1 implies text.drop_last()[j] != separator by {
            assert(text[j] != separator);
        }
        lemma_after_last_none(text.drop_last(), separator);
        assert(text.drop_last().push(text.last()) =~= text);
    }
}

/// What follows the last backslash or, without one, the last slash of a module's path.
pub fn split_basename(path: &str) -> (name: &str)
    ensures
        name@ == basename(path@),
{
    let len = path.unicode_len();
    let backslash = rfind(path, '\\');
    let separator = if backslash.is_some() {
        backslash
    } else {
        rfind(path, '/')
    };
    match separator {
        Some(i) => {
            proof {
                lemma_after_last_at(path@, path@[i as int], i as int);
            }
            path.substring_char(i + 1, len)
        },
        None => {
            proof {
                lemma_after_last_none(path@, '/');
            }
            path
        },
    }
}

/// What follows the last backslash of a path.
pub fn after_backslash(path: &str) -> (name: &str)
    ensures
        name@ == after_last(path@, '\\'),
{
    let len = path.unicode_len();
    match rfind(path, '\\') {
        Some(i) => {
            proof {
                lemma_after_last_at(path@, '\\', i as int);
            }
            path.substring_char(i + 1, len)
        },
        None => {
            proof {
                lemma_after_last_none(path@, '\\');
            }
            path
        },
    }
}

/// What follows the last separator is an end of the text, holds no separator, and starts right
/// behind one unless it is the whole text.
pub proof fn law_after_last(text: Seq<char>, separator: char)
    ensures
        after_last(text, separator).is_suffix_of(text),
        !after_last(text, separator).contains(separator),
        after_last(text, separator) == text || text[text.len() - after_last(
            text,
            separator,
        ).len() - 1] == separator,
    decreases text.len(),
{
    let tail = after_last(text, separator);
    if text.contains(separator) {
        if text.last() == separator {
            assert(text.skip(text.len() as int) =~= tail);
        } else {
            law_after_last(text.drop_last(), separator);
            let shorter = after_last(text.drop_last(), separator);
            assert forall|j: int| 0 <= j < tail.len() implies tail[j] != separator by {
                if j < shorter.len() {
                    assert(shorter[j] != separator);
                }
            }
            assert(tail =~= text.skip(text.len() - tail.len()));
            if shorter == text.drop_last() {
                assert(tail =~= text);
            }
        }
    } else {
        lemma_after_last_none(text, separator);
        assert(tail =~= text.skip(text.len() - tail.len()));
    }
}

/// The end of a text without a NUL holds none either.
pub(crate) proof fn lemma_after_last_without_nul(text: Seq<char>, separator: char)
    requires
        !text.contains('\0'),
    ensures
        !after_last(text, separator).contains('\0'),
{
    law_after_last(text, separator);
    let tail = after_last(text, separator);
    assert forall|j: int| 0 <= j < tail.len() implies tail[j] != '\0' by {
        assert(text[text.len() - tail.len() + j] == tail[j]);
    }
}

/// A module's name is an end of its path, without a backslash, and without a slash too where
/// the path has no backslash.
pub proof fn law_basename(path: Seq<char>)
    ensures
        basename(path).is_suffix_of(path),
        !basename(path).contains('\\'),
        !path.contains('\\') ==> !basename(path).contains('/'),
{
    law_after_last(path, '\\');
    law_after_last(path, '/');
    if !path.contains('\\') && basename(path).contains('\\') {
        let name = basename(path);
        let j = choose|j: int| 0 <= j < name.len() && name[j] == '\\';
        assert(path[path.len() - name.len() + j] == '\\');
    }
}

/// The name that was joined to a directory by a backslash comes back.
pub proof fn law_basename_of_join(directory: Seq<char>, name: Seq<char>)
    requires
        !name.contains('\\'),
    ensures
        basename(directory.push('\\') + name) == name,
        after_last(directory.push('\\') + name, '\\') == name,
{
    let path = directory.push('\\') + name;
    let at = directory.len() as int;
    assert(path[at] == '\\');
    assert forall|j: int| at < j < path.len() implies path[j] != '\\' by {
        assert(path[j] == name[j - at - 1]);
    }
    lemma_after_last_at(path, '\\', at);
    assert(path.skip(at + 1) =~= name);
}

/// The UTF-16 code units of a character: its code point, or a pair of surrogates.
pub open spec fn char_units(c: char) -> Seq<u16> {
    let code = c as int;
    if code < 0x1_0000 {
        seq![code as u16]
    } else {
        seq![
            (0xD800 + (code - 0x1_0000) / 0x400) as u16,
            (0xDC00 + (code - 0x1_0000) % 0x400) as u16,
        ]
    }
}

/// The UTF-16 code units of a text.
pub open spec fn utf16_units(text: Seq<char>) -> Seq<u16>
    decreases text.len(),
{
    if text.len() == 0 {
        seq![]
    } else {
        char_units(text[0]) + utf16_units(text.skip(1))
    }
}

/// Decoding starts with the character whose code units come first.
proof fn lemma_utf16_first(c: char, rest: Seq<u16>)
    ensures
        utf16_lossy(char_units(c) + rest) == seq![c] + utf16_lossy(rest),
{
    let code = c as int;
    let units = char_units(c) + rest;
    if code < 0x1_0000 {
        assert(units[0] == code);
        assert(units.skip(1) =~= rest);
    } else {
        let offset = code - 0x1_0000;
        assert(units[0] == 0xD800 + offset / 0x400);
        assert(units[1] == 0xDC00 + offset % 0x400);
        assert(pair_code_point(units[0], units[1]) == code);
        assert(units.skip(2) =~= rest);
    }
}

/// Decoding gives back every text that was encoded as UTF-16.
pub proof fn law_utf16_reads_back(text: Seq<char>)
    ensures
        utf16_lossy(utf16_units(text)) == text,
    decreases text.len(),
{
    if text.len() > 0 {
        law_utf16_reads_back(text.skip(1));
        lemma_utf16_first(text[0], utf16_units(text.skip(1)));
        assert(seq![text[0]] + text.skip(1) =~= text);
    }
}

/// A text without a NUL has no zero among its code units.
pub(crate) proof fn lemma_utf16_units_without_zero(text: Seq<char>)
    requires
        !text.contains('\0'),
    ensures
        !utf16_units(text).contains(0u16),
    decreases text.len(),
{
    if text.len() > 0 {
        let rest = text.skip(1);
        let units = utf16_units(text);
        assert forall|j: int| 0 <= j < rest.len() implies rest[j] != '\0' by {
            assert(text[j + 1] != '\0');
        }
        lemma_utf16_units_without_zero(rest);
        lemma_char_units_without_zero(text[0]);
        let first = char_units(text[0]);
        assert forall|j: int| 0 <= j < units.len() implies units[j] != 0u16 by {
            if j >= first.len() {
                assert(units[j] == utf16_units(rest)[j - first.len()]);
            } else {
                assert(units[j] == first[j]);
            }
        }
    }
}

proof fn lemma_char_units_without_zero(c: char)
    requires
        c != '\0',
    ensures
        !char_units(c).contains(0u16),
{
    let code = c as int;
    assert(code != 0);
    assert forall|j: int| 0 <= j < char_units(c).len() implies char_units(c)[j] != 0u16 by {}
}

/// The UTF-8 bytes of two texts, one behind the other, are those of the joined text.
pub(crate) proof fn lemma_utf8_of_join(first: Seq<char>, second: Seq<char>)
    ensures
        vstd::utf8::encode_utf8(first + second) == vstd::utf8::encode_utf8(first)
            + vstd::utf8::encode_utf8(second),
    decreases first.len(),
{
    if first.len() == 0 {
        assert(first + second =~= second);
        assert(vstd::utf8::encode_utf8(first) =~= seq![]);
    } else {
        lemma_utf8_of_join(first.drop_first(), second);
        assert((first + second).drop_first() =~= first.drop_first() + second);
    }
}

/// A NUL comes out of UTF-16 code units only if one went in.
pub proof fn law_utf16_without_nul(units: Seq<u16>)
    requires
        !units.contains(0u16),
    ensures
        !utf16_lossy(units).contains('\0'),
    decreases units.len(),
{
    if units.len() > 0 {
        let width: int = if !is_surrogate(units[0]) || units.len() == 1 || !is_surrogate_pair(
            units[0],
            units[1],
        ) {
            1
        } else {
            2
        };
        let rest = units.skip(width);
        assert forall|j: int| 0 <= j < rest.len() implies rest[j] != 0u16 by {
            assert(units[j + width] != 0u16);
        }
        law_utf16_without_nul(rest);
        assert(units[0] != 0u16);
        let text = utf16_lossy(units);
        assert forall|j: int| 0 <= j < text.len() implies text[j] != '\0' by {
            if j > 0 {
                assert(text[j] == utf16_lossy(rest)[j - 1]);
            }
        }
    }
}

/// Without a backslash, the name that was joined to a directory by a slash comes back.
pub proof fn law_basename_of_slash_join(directory: Seq<char>, name: Seq<char>)
    requires
        !directory.contains('\\'),
        !name.contains('\\'),
        !name.contains('/'),
    ensures
        basename(directory.push('/') + name) == name,
{
    let path = directory.push('/') + name;
    let at = directory.len() as int;
    assert(path[at] == '/');
    assert forall|j: int| 0 <= j < path.len() implies path[j] != '\\' by {
        if j < at {
            assert(path[j] == directory[j]);
        } else if j > at {
            assert(path[j] == name[j - at - 1]);
        }
    }
    assert forall|j: int| at < j < path.len() implies path[j] != '/' by {
        assert(path[j] == name[j - at - 1]);
    }
    lemma_after_last_at(path, '/', at);
    assert(path.skip(at + 1) =~= name);
}

/// A path without a separator is a name already.
pub proof fn law_basename_of_plain_name(path: Seq<char>)
    ensures
        !path.contains('\\') && !path.contains('/') ==> basename(path) == path,
        !path.contains('\\') ==> after_last(path, '\\') == path,
{
    if !path.contains('\\') {
        lemma_after_last_none(path, '\\');
        if !path.contains('/') {
            lemma_after_last_none(path, '/');
        }
    }
}

/// What comes before the first end is a start of the items, holds no end, and is followed by one
/// unless it is all there is.
pub proof fn law_before_first<T>(items: Seq<T>, end: T)
    ensures
        before_first(items, end).is_prefix_of(items),
        !before_first(items, end).contains(end),
        before_first(items, end).len() < items.len() ==> items[before_first(
            items,
            end,
        ).len() as int] == end,
    decreases items.len(),
{
    let start = before_first(items, end);
    if items.len() == 0 || items[0] == end {
        assert(start =~= items.take(0));
    } else {
        let rest = items.skip(1);
        let later = before_first(rest, end);
        law_before_first(rest, end);
        assert(later =~= rest.take(later.len() as int));
        assert(start =~= items.take(start.len() as int));
        assert forall|j: int| 0 <= j < start.len() implies start[j] != end by {
            if j > 0 {
                assert(start[j] == later[j - 1]);
            }
        }
        if start.len() < items.len() {
            assert(items[start.len() as int] == rest[later.len() as int]);
        }
    }
}

/// How UTF-16 is decoded, from the front: a code unit that is no surrogate is a character, a high
/// and a low surrogate are one character, and any other surrogate is U+FFFD.
pub proof fn law_utf16_from_the_front(unit: u16, rest: Seq<u16>)
    ensures
        unit < 0xD800 || unit > 0xDFFF ==> utf16_lossy(seq![unit] + rest) == seq![unit as char]
            + utf16_lossy(rest),
        0xD800 <= unit <= 0xDBFF && rest.len() > 0 && 0xDC00 <= rest[0] <= 0xDFFF ==> utf16_lossy(
            seq![unit] + rest,
        ) == seq![(0x1_0000 + (unit - 0xD800) * 0x400 + (rest[0] - 0xDC00)) as char]
            + utf16_lossy(rest.skip(1)),
        0xDC00 <= unit <= 0xDFFF || (0xD800 <= unit <= 0xDBFF && (rest.len() == 0 || rest[0] < 0xDC00
            || rest[0] > 0xDFFF)) ==> utf16_lossy(seq![unit] + rest) == seq!['\u{FFFD}']
            + utf16_lossy(rest),
        utf16_lossy(Seq::<u16>::empty()) == Seq::<char>::empty(),
{
    let units = seq![unit] + rest;
    assert(units.skip(1) =~= rest);
    if rest.len() > 0 {
        assert(units[1] == rest[0]);
        assert(units.skip(2) =~= rest.skip(1));
    }
}

/// The code units of a character are its code point, or the pair of surrogates that make it up.
pub proof fn law_char_units(c: char)
    ensures
        (c as int) < 0x1_0000 ==> char_units(c).len() == 1 && char_units(c)[0] == c as int,
        (c as int) >= 0x1_0000 ==> {
            let units = char_units(c);
            &&& units.len() == 2
            &&& 0xD800 <= units[0] <= 0xDBFF
            &&& 0xDC00 <= units[1] <= 0xDFFF
            &&& 0x1_0000 + (units[0] - 0xD800) * 0x400 + (units[1] - 0xDC00) == c as int
        },
{
    let offset = c as int - 0x1_0000;
    if offset >= 0 {
        assert(offset == (offset / 0x400) * 0x400 + offset % 0x400);
    }
}

/// The code units of a text are those of its characters, one behind the other.
pub proof fn law_utf16_units(c: char, rest: Seq<char>)
    ensures
        utf16_units(seq![c] + rest) == char_units(c) + utf16_units(rest),
        utf16_units(Seq::<char>::empty()) == Seq::<u16>::empty(),
{
    assert((seq![c] + rest).skip(1) =~= rest);
}

} // verus!
