//! Character classes and ASCII case folding.

use vstd::prelude::*;
use vstd::string::*;

verus! {

/// `String::push` appends the given character to the end of the string.
pub assume_specification[ String::push ](text: &mut String, ch: char)
    ensures
        final(text)@ == old(text)@.push(ch),
;

/// `str::to_lowercase` maps a text to its Unicode lowercase form; the table
/// behind it is not spelled out here, so the result carries a name.
pub uninterp spec fn lowercase(text: Seq<char>) -> Seq<char>;

/// Calls `str::to_lowercase`. The result is the lowercase form of `text`,
/// which depends on `text` alone.
#[verifier::external_body]
pub(crate) fn to_lowercase(text: &str) -> (lower: String)
    ensures
        lower@ == lowercase(text@),
{
    text.to_lowercase()
}

/// The characters with the Unicode `White_Space` property.
pub open spec fn is_whitespace(ch: char) -> bool {
    ||| 0x9 <= ch as u32 <= 0xd
    ||| ch as u32 == 0x20
    ||| ch as u32 == 0x85
    ||| ch as u32 == 0xa0
    ||| ch as u32 == 0x1680
    ||| 0x2000 <= ch as u32 <= 0x200a
    ||| ch as u32 == 0x2028
    ||| ch as u32 == 0x2029
    ||| ch as u32 == 0x202f
    ||| ch as u32 == 0x205f
    ||| ch as u32 == 0x3000
}

pub fn whitespace(ch: char) -> (found: bool)
    ensures
        found == is_whitespace(ch),
{
    let code: u32 = ch as u32;
    (0x9 <= code && code <= 0xd) || code == 0x20 || code == 0x85 || code == 0xa0 || code == 0x1680
        || (0x2000 <= code && code <= 0x200a) || code == 0x2028 || code == 0x2029 || code == 0x202f
        || code == 0x205f || code == 0x3000
}

/// The control characters: general category `Cc`.
pub open spec fn is_control(ch: char) -> bool {
    ch as u32 <= 0x1f || 0x7f <= ch as u32 <= 0x9f
}

pub fn control(ch: char) -> (found: bool)
    ensures
        found == is_control(ch),
{
    let code: u32 = ch as u32;
    code <= 0x1f || (0x7f <= code && code <= 0x9f)
}

pub open spec fn is_digit(ch: char) -> bool {
    '0' <= ch <= '9'
}

/// ASCII uppercase form of one character; other characters are unchanged.
pub open spec fn upper_char(ch: char) -> char {
    if 'a' <= ch <= 'z' {
        (ch as u32 - 32) as char
    } else {
        ch
    }
}

/// ASCII uppercase form of a text.
pub open spec fn upper(text: Seq<char>) -> Seq<char> {
    text.map_values(|ch: char| upper_char(ch))
}

/// ASCII uppercase form of one byte; other bytes are unchanged.
pub open spec fn upper_byte(byte: u8) -> u8 {
    if 0x61 <= byte <= 0x7a {
        (byte - 0x20) as u8
    } else {
        byte
    }
}

pub open spec fn upper_bytes(bytes: Seq<u8>) -> Seq<u8> {
    bytes.map_values(|byte: u8| upper_byte(byte))
}

pub fn to_upper_char(ch: char) -> (up: char)
    ensures
        up == upper_char(ch),
{
    if 'a' <= ch && ch <= 'z' {
        let byte: u8 = (ch as u32 - 32) as u8;
        byte as char
    } else {
        ch
    }
}

pub fn to_upper_byte(byte: u8) -> (up: u8)
    ensures
        up == upper_byte(byte),
{
    if 0x61 <= byte && byte <= 0x7a {
        byte - 0x20
    } else {
        byte
    }
}

/// The characters of a text, in order.
pub fn to_chars(text: &str) -> (chars: Vec<char>)
    ensures
        chars@ == text@,
{
    let mut chars: Vec<char> = Vec::new();
    for ch in iter: text.chars()
        invariant
            chars@ == iter.seq().take(iter.index() as int),
            iter.seq() == text@,
    {
        chars.push(ch);
    }
    chars
}

/// Uppercases the ASCII letters of a text.
pub fn to_upper(text: &str) -> (up: String)
    ensures
        up@ == upper(text@),
{
    let chars: Vec<char> = to_chars(text);
    let mut up: String = String::new();
    let mut at: usize = 0;
    while at < chars.len()
        invariant
            at <= chars@.len(),
            chars@ == text@,
            up@ == upper(text@.take(at as int)),
        decreases chars@.len() - at,
    {
        up.push(to_upper_char(chars[at]));
        assert(upper(text@.take(at as int)).push(upper_char(text@[at as int]))
            == upper(text@.take(at + 1)));
        at += 1;
    }
    assert(text@.take(at as int) == text@);
    up
}

/// Compares two texts.
pub fn same(left: &str, right: &str) -> (equal: bool)
    ensures
        equal == (left@ == right@),
{
    left.to_owned() == right.to_owned()
}

/// Compares two texts without regard to ASCII case.
pub fn same_ignoring_case(left: &str, right: &str) -> (equal: bool)
    ensures
        equal == (upper(left@) == upper(right@)),
{
    to_upper(left) == to_upper(right)
}

/// Compares two byte strings without regard to ASCII case.
pub fn same_bytes_ignoring_case(left: &Vec<u8>, right: &Vec<u8>) -> (equal: bool)
    ensures
        equal == (upper_bytes(left@) == upper_bytes(right@)),
{
    if left.len() != right.len() {
        assert(upper_bytes(left@).len() != upper_bytes(right@).len());
        return false;
    }
    let mut at: usize = 0;
    while at < left.len()
        invariant
            at <= left@.len(),
            left@.len() == right@.len(),
            forall|i: int| 0 <= i < at ==> upper_byte(left@[i]) == upper_byte(right@[i]),
        decreases left@.len() - at,
    {
        if to_upper_byte(left[at]) != to_upper_byte(right[at]) {
            assert(upper_bytes(left@)[at as int] != upper_bytes(right@)[at as int]);
            return false;
        }
        at += 1;
    }
    assert(upper_bytes(left@) =~= upper_bytes(right@));
    true
}

/// Compares two byte strings.
pub fn same_bytes(left: &Vec<u8>, right: &Vec<u8>) -> (equal: bool)
    ensures
        equal == (left@ == right@),
{
    if left.len() != right.len() {
        return false;
    }
    let mut at: usize = 0;
    while at < left.len()
        invariant
            at <= left@.len(),
            left@.len() == right@.len(),
            forall|i: int| 0 <= i < at ==> left@[i] == right@[i],
        decreases left@.len() - at,
    {
        if left[at] != right[at] {
            return false;
        }
        at += 1;
    }
    assert(left@ =~= right@);
    true
}

/// Whitespace is exactly the blank, the tab, the line breaks and the spaces of
/// other scripts; no visible character is.
pub proof fn whitespace_is_blank(ch: char)
    ensures
        is_whitespace(ch) <==> ({
            ||| ch == ' '
            ||| ch == '\t'
            ||| ch == '\n'
            ||| ch == '\u{b}'
            ||| ch == '\u{c}'
            ||| ch == '\r'
            ||| ch == '\u{85}'
            ||| ch == '\u{a0}'
            ||| ch == '\u{1680}'
            ||| '\u{2000}' <= ch <= '\u{200a}'
            ||| ch == '\u{2028}'
            ||| ch == '\u{2029}'
            ||| ch == '\u{202f}'
            ||| ch == '\u{205f}'
            ||| ch == '\u{3000}'
        }),
{
}

/// Control characters lie below the blank or in the block from DEL on; no
/// printable ASCII character is one.
pub proof fn control_is_unprintable(ch: char)
    ensures
        is_control(ch) <==> ch < ' ' || '\u{7f}' <= ch <= '\u{9f}',
{
}

/// Upper case moves exactly the letters from `a` to `z`, each to the letter at
/// the same place of the upper alphabet.
pub proof fn upper_moves_letters_only(ch: char)
    ensures
        'a' <= ch <= 'z' ==> 'A' <= upper_char(ch) <= 'Z' && upper_char(ch) as u32 - 'A' as u32
            == ch as u32 - 'a' as u32,
        !('a' <= ch <= 'z') ==> upper_char(ch) == ch,
{
}

/// The same holds of bytes.
pub proof fn upper_moves_letter_bytes_only(byte: u8)
    ensures
        97 <= byte <= 122 ==> upper_byte(byte) as int == byte - 32,
        !(97 <= byte <= 122) ==> upper_byte(byte) == byte,
{
}

/// Two texts are the same but for case exactly if they are as long, and differ
/// at most where one has a small and the other the capital ASCII letter.
pub proof fn ignoring_case_is_letter_by_letter(left: Seq<char>, right: Seq<char>)
    ensures
        upper(left) == upper(right) <==> left.len() == right.len() && forall|i: int|
            0 <= i < left.len() ==> ({
                let (a, b) = (#[trigger] left[i], right[i]);
                ||| a == b
                ||| 'a' <= a <= 'z' && b as u32 == a as u32 - 32
                ||| 'a' <= b <= 'z' && a as u32 == b as u32 - 32
            }),
{
    if upper(left) == upper(right) {
        assert(upper(left).len() == left.len());
        assert(upper(right).len() == right.len());
        assert forall|i: int| 0 <= i < left.len() implies ({
            let (a, b) = (#[trigger] left[i], right[i]);
            ||| a == b
            ||| 'a' <= a <= 'z' && b as u32 == a as u32 - 32
            ||| 'a' <= b <= 'z' && a as u32 == b as u32 - 32
        }) by {
            assert(upper(left)[i] == upper_char(left[i]));
            assert(upper(right)[i] == upper_char(right[i]));
        }
    }
    if left.len() == right.len() && forall|i: int|
        0 <= i < left.len() ==> ({
            let (a, b) = (#[trigger] left[i], right[i]);
            ||| a == b
            ||| 'a' <= a <= 'z' && b as u32 == a as u32 - 32
            ||| 'a' <= b <= 'z' && a as u32 == b as u32 - 32
        }) {
        assert forall|i: int| 0 <= i < left.len() implies #[trigger] upper(left)[i]
            == upper(right)[i] by {
            assert(left[i] == left[i]);
        }
        assert(upper(left) =~= upper(right));
    }
}

/// Byte strings are the same but for case exactly if they are as long, and
/// differ at most in the case of ASCII letters.
pub proof fn ignoring_byte_case_is_letter_by_letter(left: Seq<u8>, right: Seq<u8>)
    ensures
        upper_bytes(left) == upper_bytes(right) <==> left.len() == right.len() && forall|i: int|
            0 <= i < left.len() ==> ({
                let (a, b) = (#[trigger] left[i], right[i]);
                ||| a == b
                ||| 97 <= a <= 122 && b == a - 32
                ||| 97 <= b <= 122 && a == b - 32
            }),
{
    if upper_bytes(left) == upper_bytes(right) {
        assert(upper_bytes(left).len() == left.len());
        assert(upper_bytes(right).len() == right.len());
        assert forall|i: int| 0 <= i < left.len() implies ({
            let (a, b) = (#[trigger] left[i], right[i]);
            ||| a == b
            ||| 97 <= a <= 122 && b == a - 32
            ||| 97 <= b <= 122 && a == b - 32
        }) by {
            assert(upper_bytes(left)[i] == upper_byte(left[i]));
            assert(upper_bytes(right)[i] == upper_byte(right[i]));
        }
    }
    if left.len() == right.len() && forall|i: int|
        0 <= i < left.len() ==> ({
            let (a, b) = (#[trigger] left[i], right[i]);
            ||| a == b
            ||| 97 <= a <= 122 && b == a - 32
            ||| 97 <= b <= 122 && a == b - 32
        }) {
        assert forall|i: int| 0 <= i < left.len() implies #[trigger] upper_bytes(left)[i]
            == upper_bytes(right)[i] by {
            assert(left[i] == left[i]);
        }
        assert(upper_bytes(left) =~= upper_bytes(right));
    }
}

} // verus!
