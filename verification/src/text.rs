//! Text and bytes: what the rest of the library needs of strings.

use vstd::prelude::*;
use vstd::string::*;
use vstd::utf8::*;

verus! {

/// `String::push` appends one character.
pub assume_specification[ String::push ](text: &mut String, character: char)
    ensures
        final(text)@ == old(text)@.push(character),
;

/// `char::from_u32`: the character with the given number, where there is one.
pub assume_specification[ char::from_u32 ](number: u32) -> (character: Option<char>)
    ensures
        character is Some <==> is_scalar(number),
        character matches Some(c) ==> c as u32 == number,
;

/// Compares two strings with `==`: equal when they hold the same characters.
#[verifier::external_body]
pub(crate) fn same_text(left: &str, right: &str) -> (same: bool)
    ensures
        same == (left@ == right@),
{
    left == right
}

/// `std::str::from_utf8`: the text that the bytes encode, if they are UTF-8.
#[verifier::external_body]
pub(crate) fn utf8_text(bytes: &[u8]) -> (text: Option<String>)
    ensures
        text is Some <==> valid_utf8(bytes@),
        text matches Some(t) ==> t@ == decode_utf8(bytes@),
{
    std::str::from_utf8(bytes).ok().map(String::from)
}

/// What `String::from_utf8_lossy` makes of bytes that need not be UTF-8.
pub uninterp spec fn utf8_lossy(bytes: Seq<u8>) -> Seq<char>;

/// `String::from_utf8_lossy`: the encoded text; bytes that are not UTF-8 are
/// shown by replacement characters, how many and where is left to the name.
#[verifier::external_body]
pub(crate) fn lossy_text(bytes: &[u8]) -> (text: String)
    ensures
        text@ == utf8_lossy(bytes@),
        valid_utf8(bytes@) ==> text@ == decode_utf8(bytes@),
{
    String::from_utf8_lossy(bytes).into_owned()
}

/// The texts that strings hold.
pub open spec fn texts(strings: Seq<String>) -> Seq<Seq<char>> {
    strings.map_values(|text: String| text@)
}

/// The text of a string that may be missing.
pub open spec fn text_view(text: Option<&str>) -> Option<Seq<char>> {
    match text {
        Some(text) => Some(text@),
        None => None,
    }
}

/// Strings that hold the same texts.
pub fn copy_texts(strings: &Vec<String>) -> (result: Vec<String>)
    ensures
        texts(result@) == texts(strings@),
{
    let mut result: Vec<String> = Vec::new();
    let mut i: usize = 0;
    while i < strings.len()
        invariant
            i <= strings@.len(),
            result@.len() == i,
            forall|j: int| 0 <= j < i ==> (#[trigger] result@[j])@ == strings@[j]@,
        decreases strings@.len() - i,
    {
        result.push(strings[i].clone());
        i += 1;
    }
    assert(texts(result@) =~= texts(strings@));
    result
}

/// The UTF-8 bytes of a string.
pub fn bytes_of(text: &str) -> (bytes: Vec<u8>)
    ensures
        bytes@ == encode_utf8(text@),
{
    text.as_bytes_vec()
}

/// The characters of a string, in order.
pub fn chars_of(text: &str) -> (chars: Vec<char>)
    ensures
        chars@ == text@,
{
    let mut chars: Vec<char> = Vec::new();
    for c in it: text.chars()
        invariant
            it.seq() == text@,
            chars@ == text@.take(it.index()),
    {
        chars.push(c);
    }
    chars
}

/// The string of the given characters.
pub fn text_of(chars: &[char]) -> (text: String)
    ensures
        text@ == chars@,
{
    let mut text = String::new();
    let mut i: usize = 0;
    while i < chars.len()
        invariant
            i <= chars@.len(),
            text@ == chars@.take(i as int),
        decreases chars@.len() - i,
    {
        text.push(chars[i]);
        i += 1;
    }
    text
}

pub open spec fn digit(d: nat) -> char {
    ((d % 10) + 48) as char
}

/// `n` written in decimal.
pub open spec fn decimal(n: nat) -> Seq<char>
    decreases n,
{
    if n < 10 {
        seq![digit(n)]
    } else {
        decimal(n / 10).push(digit(n % 10))
    }
}

/// Different numbers are written differently, and only with digits.
pub proof fn decimals_tell_numbers_apart(left: nat, right: nat)
    ensures
        decimal(left) == decimal(right) ==> left == right,
        decimal(left).len() > 0,
        forall|i: int| 0 <= i < decimal(left).len() ==> '0' <= #[trigger] decimal(left)[i] <= '9',
    decreases left,
{
    if left >= 10 {
        decimals_tell_numbers_apart(left / 10, right / 10);
        let rest = decimal(left / 10);
        assert(decimal(left).drop_last() =~= rest);
        assert(forall|i: int| 0 <= i < rest.len() ==> #[trigger] decimal(left)[i] == rest[i]);
    }
    if right >= 10 {
        assert(decimal(right).drop_last() =~= decimal(right / 10));
        if left < 10 {
            decimal_is_not_empty(right / 10);
        }
    }
    if decimal(left) == decimal(right) {
        assert(decimal(left).last() == digit(left));
        assert(decimal(right).last() == digit(right));
    }
}

proof fn decimal_is_not_empty(n: nat)
    ensures
        decimal(n).len() > 0,
{
}

/// `n` written in decimal.
pub fn decimal_text(n: u64) -> (text: String)
    ensures
        text@ == decimal(n as nat),
    decreases n,
{
    let last: char = ((n % 10) as u8 + 48) as char;
    if n < 10 {
        let mut text = String::new();
        text.push(last);
        text
    } else {
        let mut text = decimal_text(n / 10);
        text.push(last);
        text
    }
}

/// Whether a character has the Unicode property `White_Space`.
pub open spec fn white_space(character: char) -> bool {
    let number = character as u32;
    ||| 9 <= number <= 13
    ||| number == 0x20
    ||| number == 0x85
    ||| number == 0xa0
    ||| number == 0x1680
    ||| 0x2000 <= number <= 0x200a
    ||| number == 0x2028
    ||| number == 0x2029
    ||| number == 0x202f
    ||| number == 0x205f
    ||| number == 0x3000
}

/// `char::is_whitespace`: whether the character has the Unicode property
/// `White_Space`.
pub assume_specification[ char::is_whitespace ](character: char) -> (result: bool)
    ensures
        result == white_space(character),
;

/// `text` without the white space that it starts with.
pub open spec fn without_leading_space(text: Seq<char>) -> Seq<char>
    decreases text.len(),
{
    if text.len() > 0 && white_space(text[0]) {
        without_leading_space(text.skip(1))
    } else {
        text
    }
}

/// `text` without the white space that it ends with.
pub open spec fn without_trailing_space(text: Seq<char>) -> Seq<char>
    decreases text.len(),
{
    if text.len() > 0 && white_space(text.last()) {
        without_trailing_space(text.drop_last())
    } else {
        text
    }
}

/// `text` without the white space at its ends.
pub fn trimmed(text: &str) -> (result: String)
    ensures
        result@ == without_trailing_space(without_leading_space(text@)),
{
    let chars = chars_of(text);
    let mut start: usize = 0;
    assert(chars@.skip(0) =~= chars@);
    while start < chars.len() && chars[start].is_whitespace()
        invariant
            start <= chars@.len(),
            chars@ == text@,
            without_leading_space(chars@.skip(start as int)) == without_leading_space(text@),
        decreases chars@.len() - start,
    {
        assert(chars@.skip(start as int).skip(1) =~= chars@.skip(start + 1));
        start += 1;
    }
    let ghost rest = without_leading_space(text@);
    assert(rest =~= chars@.skip(start as int));
    let mut end: usize = chars.len();
    assert(chars@.subrange(start as int, end as int) =~= rest);
    while end > start && chars[end - 1].is_whitespace()
        invariant
            start <= end <= chars@.len(),
            without_trailing_space(chars@.subrange(start as int, end as int))
                == without_trailing_space(rest),
        decreases end,
    {
        assert(chars@.subrange(start as int, end as int).drop_last() =~= chars@.subrange(
            start as int,
            end - 1,
        ));
        end -= 1;
    }
    let mut result = String::new();
    let mut i: usize = start;
    while i < end
        invariant
            start <= i <= end <= chars@.len(),
            result@ == chars@.subrange(start as int, i as int),
        decreases end - i,
    {
        result.push(chars[i]);
        i += 1;
        assert(chars@.subrange(start as int, i as int) =~= chars@.subrange(
            start as int,
            i - 1,
        ).push(chars@[i - 1]));
    }
    result
}

/// The number that digits stand for.
pub open spec fn number_of(digits: Seq<char>) -> int
    decreases digits.len(),
{
    if digits.len() == 0 {
        0
    } else {
        number_of(digits.drop_last()) * 10 + (digits.last() as int - '0' as int)
    }
}

/// The digits of a number, read from the left, give the number back. They do not
/// start with a zero, unless the number is zero.
pub proof fn decimals_can_be_read_back(n: nat)
    ensures
        number_of(decimal(n)) == n,
        n > 0 ==> decimal(n)[0] != '0',
        n < 10 ==> decimal(n).len() == 1,
    decreases n,
{
    let digits = decimal(n);
    if n < 10 {
        assert(digits.drop_last() =~= Seq::empty());
        reveal_with_fuel(number_of, 2);
    } else {
        decimals_can_be_read_back(n / 10);
        assert(digits.drop_last() =~= decimal(n / 10));
        assert(digits[0] == decimal(n / 10)[0]);
    }
}

/// To trim a text takes white space off its ends and nothing else: what is left
/// is a stretch of the text, all before and after it is white space, and it
/// neither starts nor ends with any.
pub proof fn trimming_takes_only_space(text: Seq<char>) -> (cut: (int, int))
    ensures
        0 <= cut.0 <= cut.1 <= text.len(),
        ({
            let left = without_trailing_space(without_leading_space(text));
            &&& left == text.subrange(cut.0, cut.1)
            &&& left.len() > 0 ==> !white_space(left[0]) && !white_space(left.last())
        }),
        forall|i: int| 0 <= i < cut.0 ==> white_space(#[trigger] text[i]),
        forall|i: int| cut.1 <= i < text.len() ==> white_space(#[trigger] text[i]),
{
    let start = leading_space(text);
    let rest = text.skip(start);
    let end = trailing_space(rest);
    assert(rest.take(end) =~= text.subrange(start, start + end));
    assert forall|i: int| start + end <= i < text.len() implies white_space(#[trigger] text[i]) by {
        assert(rest[i - start] == text[i]);
    }
    (start, start + end)
}

proof fn leading_space(text: Seq<char>) -> (start: int)
    ensures
        0 <= start <= text.len(),
        without_leading_space(text) == text.skip(start),
        start < text.len() ==> !white_space(text[start]),
        forall|i: int| 0 <= i < start ==> white_space(#[trigger] text[i]),
    decreases text.len(),
{
    if text.len() > 0 && white_space(text[0]) {
        let rest = text.skip(1);
        let start = leading_space(rest);
        assert(rest.skip(start) =~= text.skip(start + 1));
        assert forall|i: int| 0 <= i < start + 1 implies white_space(#[trigger] text[i]) by {
            if i > 0 {
                assert(rest[i - 1] == text[i]);
            }
        }
        start + 1
    } else {
        assert(text.skip(0) =~= text);
        0
    }
}

proof fn trailing_space(text: Seq<char>) -> (end: int)
    ensures
        0 <= end <= text.len(),
        without_trailing_space(text) == text.take(end),
        end > 0 ==> !white_space(text[end - 1]),
        forall|i: int| end <= i < text.len() ==> white_space(#[trigger] text[i]),
    decreases text.len(),
{
    if text.len() > 0 && white_space(text.last()) {
        let rest = text.drop_last();
        let end = trailing_space(rest);
        assert(rest.take(end) =~= text.take(end));
        assert forall|i: int| end <= i < text.len() implies white_space(#[trigger] text[i]) by {
            if i < rest.len() {
                assert(rest[i] == text[i]);
            }
        }
        end
    } else {
        assert(text.take(text.len() as int) =~= text);
        text.len() as int
    }
}

} // verus!
