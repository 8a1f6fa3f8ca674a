//! Byte strings: searching, splitting and hexadecimal digits.

use vstd::prelude::*;

verus! {

/// The byte strings that vectors hold.
pub open spec fn byte_strings(vectors: Seq<Vec<u8>>) -> Seq<Seq<u8>> {
    vectors.map_values(|bytes: Vec<u8>| bytes@)
}

/// Where `separator` first occurs; the length where it does not occur.
pub open spec fn position(bytes: Seq<u8>, separator: u8) -> nat
    decreases bytes.len(),
{
    if bytes.len() == 0 || bytes[0] == separator {
        0
    } else {
        1 + position(bytes.skip(1), separator)
    }
}

/// The pieces between the separators, at most `limit` of them: the last piece
/// keeps the separators that are left.
pub open spec fn pieces(bytes: Seq<u8>, separator: u8, limit: nat) -> Seq<Seq<u8>>
    decreases limit,
{
    let at = position(bytes, separator);
    if limit == 0 {
        Seq::empty()
    } else if limit == 1 || at >= bytes.len() {
        seq![bytes]
    } else {
        seq![bytes.take(at as int)] + pieces(
            bytes.skip((at + 1) as int),
            separator,
            (limit - 1) as nat,
        )
    }
}

/// All pieces between the separators.
pub open spec fn split(bytes: Seq<u8>, separator: u8) -> Seq<Seq<u8>> {
    pieces(bytes, separator, bytes.len() + 1)
}

/// The place of a separator is that of the first one, or the end.
pub proof fn lemma_position(bytes: Seq<u8>, separator: u8)
    ensures
        position(bytes, separator) <= bytes.len(),
        position(bytes, separator) < bytes.len() ==> bytes[position(bytes, separator) as int]
            == separator,
        forall|i: int| 0 <= i < position(bytes, separator) ==> bytes[i] != separator,
    decreases bytes.len(),
{
    if bytes.len() > 0 && bytes[0] != separator {
        let rest = bytes.skip(1);
        lemma_position(rest, separator);
        assert forall|i: int| 0 <= i < position(bytes, separator) implies bytes[i] != separator by {
            if i > 0 {
                assert(bytes[i] == rest[i - 1]);
            }
        }
    }
}

/// The place of a separator is known from what stands before it.
pub proof fn lemma_position_unique(bytes: Seq<u8>, separator: u8, at: int)
    requires
        0 <= at <= bytes.len(),
        forall|i: int| 0 <= i < at ==> bytes[i] != separator,
        at == bytes.len() || bytes[at] == separator,
    ensures
        position(bytes, separator) == at,
{
    lemma_position(bytes, separator);
    let found = position(bytes, separator) as int;
    if found < at {
        assert(bytes[found] != separator);
    } else if at < found {
        assert(bytes[at] != separator);
    }
}

/// Once the limit is past the number of separators it has no effect.
pub proof fn lemma_pieces_limit(bytes: Seq<u8>, separator: u8, limit: nat)
    requires
        limit > bytes.len(),
    ensures
        pieces(bytes, separator, limit) == split(bytes, separator),
    decreases bytes.len(),
{
    lemma_position(bytes, separator);
    let at = position(bytes, separator);
    if at < bytes.len() {
        let rest = bytes.skip((at + 1) as int);
        lemma_pieces_limit(rest, separator, (limit - 1) as nat);
        lemma_pieces_limit(rest, separator, bytes.len());
    }
}

/// Splitting text without a separator gives it back.
pub proof fn lemma_split_last(bytes: Seq<u8>, separator: u8)
    requires
        forall|i: int| 0 <= i < bytes.len() ==> bytes[i] != separator,
    ensures
        split(bytes, separator) == seq![bytes],
{
    lemma_position_unique(bytes, separator, bytes.len() as int);
}

/// Splitting takes off the first piece.
pub proof fn lemma_split_first(first: Seq<u8>, separator: u8, rest: Seq<u8>)
    requires
        forall|i: int| 0 <= i < first.len() ==> first[i] != separator,
    ensures
        split(first.push(separator) + rest, separator) == seq![first] + split(rest, separator),
{
    let bytes = first.push(separator) + rest;
    assert forall|i: int| 0 <= i < first.len() implies bytes[i] != separator by {
        assert(bytes[i] == first[i]);
    }
    lemma_position_unique(bytes, separator, first.len() as int);
    assert(bytes.take(first.len() as int) =~= first);
    assert(bytes.skip((first.len() + 1) as int) =~= rest);
    lemma_pieces_limit(rest, separator, bytes.len());
}

fn find(bytes: &[u8], separator: u8, start: usize) -> (at: usize)
    requires
        start <= bytes@.len(),
    ensures
        start <= at <= bytes@.len(),
        at == start + position(bytes@.skip(start as int), separator),
{
    let mut at: usize = start;
    while at < bytes.len() && bytes[at] != separator
        invariant
            start <= at <= bytes@.len(),
            forall|i: int| start <= i < at ==> bytes@[i] != separator,
        decreases bytes@.len() - at,
    {
        at += 1;
    }
    proof {
        lemma_position_unique(bytes@.skip(start as int), separator, at - start);
    }
    at
}

/// The bytes from `start` up to `end`.
pub fn range_of(bytes: &[u8], start: usize, end: usize) -> (result: Vec<u8>)
    requires
        start <= end <= bytes@.len(),
    ensures
        result@ == bytes@.subrange(start as int, end as int),
{
    let mut result: Vec<u8> = Vec::new();
    let mut i: usize = start;
    while i < end
        invariant
            start <= i <= end <= bytes@.len(),
            result@ == bytes@.subrange(start as int, i as int),
        decreases end - i,
    {
        result.push(bytes[i]);
        i += 1;
    }
    result
}

/// Whether two byte strings are the same.
pub fn same_bytes(left: &[u8], right: &[u8]) -> (same: bool)
    ensures
        same == (left@ == right@),
{
    if left.len() != right.len() {
        return false;
    }
    let mut i: usize = 0;
    while i < left.len()
        invariant
            left@.len() == right@.len(),
            i <= left@.len(),
            forall|j: int| 0 <= j < i ==> left@[j] == right@[j],
        decreases left@.len() - i,
    {
        if left[i] != right[i] {
            return false;
        }
        i += 1;
    }
    assert(left@ =~= right@);
    true
}

/// Splits at most into `limit` pieces.
pub fn split_at_most(bytes: &[u8], separator: u8, limit: usize) -> (result: Vec<Vec<u8>>)
    ensures
        byte_strings(result@) == pieces(bytes@, separator, limit as nat),
{
    let mut result: Vec<Vec<u8>> = Vec::new();
    let mut start: usize = 0;
    let mut left: usize = limit;
    assert(bytes@.skip(0) =~= bytes@);
    while left > 0
        invariant
            left <= limit,
            start <= bytes@.len(),
            byte_strings(result@) + pieces(bytes@.skip(start as int), separator, left as nat)
                == pieces(bytes@, separator, limit as nat),
        decreases left,
    {
        let ghost before = byte_strings(result@);
        let at: usize = find(bytes, separator, start);
        let ghost rest = bytes@.skip(start as int);
        if left == 1 || at == bytes.len() {
            let piece = range_of(bytes, start, bytes.len());
            assert(piece@ =~= rest);
            result.push(piece);
            assert(byte_strings(result@) =~= before + seq![rest]);
            return result;
        }
        let piece = range_of(bytes, start, at);
        assert(piece@ =~= rest.take(at - start));
        assert(rest.skip(at - start + 1) =~= bytes@.skip(at + 1));
        result.push(piece);
        assert(byte_strings(result@) =~= before + seq![rest.take(at - start)]);
        assert(before + (seq![rest.take(at - start)] + pieces(
            bytes@.skip(at + 1),
            separator,
            (left - 1) as nat,
        )) =~= byte_strings(result@) + pieces(bytes@.skip(at + 1), separator, (left - 1) as nat));
        start = at + 1;
        left -= 1;
    }
    assert(byte_strings(result@) + Seq::<Seq<u8>>::empty() =~= byte_strings(result@));
    result
}

/// Splits at every separator.
pub fn split_all(bytes: &[u8], separator: u8) -> (result: Vec<Vec<u8>>)
    ensures
        byte_strings(result@) == split(bytes@, separator),
{
    let mut result: Vec<Vec<u8>> = Vec::new();
    let mut start: usize = 0;
    assert(bytes@.skip(0) =~= bytes@);
    loop
        invariant
            start <= bytes@.len(),
            byte_strings(result@) + split(bytes@.skip(start as int), separator) == split(
                bytes@,
                separator,
            ),
        decreases bytes@.len() - start,
    {
        let ghost before = byte_strings(result@);
        let at: usize = find(bytes, separator, start);
        let ghost rest = bytes@.skip(start as int);
        let piece = range_of(bytes, start, at);
        assert(piece@ =~= rest.take(at - start));
        result.push(piece);
        assert(byte_strings(result@) =~= before + seq![rest.take(at - start)]);
        if at == bytes.len() {
            assert(rest.take(at - start) =~= rest);
            return result;
        }
        proof {
            lemma_pieces_limit(rest.skip(at - start + 1), separator, rest.len());
            assert(rest.skip(at - start + 1) =~= bytes@.skip(at + 1));
            assert(before + (seq![rest.take(at - start)] + split(bytes@.skip(at + 1), separator))
                =~= byte_strings(result@) + split(bytes@.skip(at + 1), separator));
        }
        start = at + 1;
    }
}

/// The lower-case hexadecimal digit of a number below sixteen.
pub open spec fn hex_digit(value: int) -> char {
    if value < 10 {
        (value + '0' as int) as char
    } else {
        (value - 10 + 'a' as int) as char
    }
}

/// Two lower-case hexadecimal digits for each byte.
pub open spec fn hex_of(bytes: Seq<u8>) -> Seq<char>
    decreases bytes.len(),
{
    if bytes.len() == 0 {
        Seq::empty()
    } else {
        hex_of(bytes.drop_last()).push(hex_digit(bytes.last() as int / 16)).push(
            hex_digit(bytes.last() as int % 16),
        )
    }
}

fn digit(value: u8) -> (c: char)
    requires
        value < 16,
    ensures
        c == hex_digit(value as int),
{
    if value < 10 {
        (value + 48) as char
    } else {
        (value - 10 + 97) as char
    }
}

/// Writes bytes in lower-case hexadecimal digits.
pub fn hex(bytes: &[u8]) -> (text: String)
    ensures
        text@ == hex_of(bytes@),
{
    let mut text = String::new();
    let mut i: usize = 0;
    while i < bytes.len()
        invariant
            i <= bytes@.len(),
            text@ == hex_of(bytes@.take(i as int)),
        decreases bytes@.len() - i,
    {
        let ghost next = bytes@.take(i + 1);
        assert(next.drop_last() =~= bytes@.take(i as int));
        text.push(digit(bytes[i] / 16));
        text.push(digit(bytes[i] % 16));
        i += 1;
    }
    assert(bytes@.take(i as int) =~= bytes@);
    text
}

/// Different bytes are written differently.
pub proof fn hex_tells_bytes_apart(left: Seq<u8>, right: Seq<u8>)
    requires
        hex_of(left) == hex_of(right),
    ensures
        left == right,
    decreases left.len(),
{
    hex_length(left);
    hex_length(right);
    if left.len() > 0 {
        let l = hex_of(left);
        let r = hex_of(right);
        let n = l.len() as int;
        assert(l[n - 1] == hex_digit(left.last() as int % 16));
        assert(r[n - 1] == hex_digit(right.last() as int % 16));
        assert(l[n - 2] == hex_digit(left.last() as int / 16));
        assert(r[n - 2] == hex_digit(right.last() as int / 16));
        assert(l.take(n - 2) =~= hex_of(left.drop_last()));
        assert(r.take(n - 2) =~= hex_of(right.drop_last()));
        hex_tells_bytes_apart(left.drop_last(), right.drop_last());
        assert(left.last() == right.last());
        assert(left =~= left.drop_last().push(left.last()));
        assert(right =~= right.drop_last().push(right.last()));
    } else {
        assert(left =~= right);
    }
}

/// Every byte is written with two digits.
pub proof fn hex_length(bytes: Seq<u8>)
    ensures
        hex_of(bytes).len() == 2 * bytes.len(),
    decreases bytes.len(),
{
    if bytes.len() > 0 {
        hex_length(bytes.drop_last());
    }
}

/// Splitting takes off the last piece.
pub proof fn last_pieces_are_split_off(start: Seq<u8>, separator: u8, last: Seq<u8>)
    requires
        forall|i: int| 0 <= i < last.len() ==> last[i] != separator,
    ensures
        split(start.push(separator) + last, separator) == split(start, separator).push(last),
        split(start, separator).len() > 0,
    decreases start.len(),
{
    lemma_position(start, separator);
    let at = position(start, separator) as int;
    let first = start.take(at);
    if at == start.len() {
        lemma_split_last(start, separator);
        lemma_split_first(start, separator, last);
        lemma_split_last(last, separator);
        assert(split(start.push(separator) + last, separator) =~= split(start, separator).push(
            last,
        ));
    } else {
        let rest = start.skip(at + 1);
        last_pieces_are_split_off(rest, separator, last);
        assert(start =~= first.push(separator) + rest);
        assert forall|i: int| 0 <= i < first.len() implies first[i] != separator by {
            assert(first[i] == start[i]);
        }
        lemma_split_first(first, separator, rest);
        lemma_split_first(first, separator, rest.push(separator) + last);
        assert(start.push(separator) + last =~= first.push(separator) + (rest.push(separator)
            + last));
        assert(split(start.push(separator) + last, separator) =~= split(start, separator).push(
            last,
        ));
    }
}

/// The value of a hexadecimal digit.
pub open spec fn hex_value(digit: char) -> int {
    if '0' <= digit <= '9' {
        digit as int - '0' as int
    } else {
        digit as int - 'a' as int + 10
    }
}

/// The two digits of a byte, the high one first, give the byte back.
pub proof fn hex_can_be_read_back(bytes: Seq<u8>, i: int)
    requires
        0 <= i < bytes.len(),
    ensures
        hex_of(bytes).len() == 2 * bytes.len(),
        hex_value(hex_of(bytes)[2 * i]) * 16 + hex_value(hex_of(bytes)[2 * i + 1]) == bytes[i],
    decreases bytes.len(),
{
    hex_length(bytes);
    hex_length(bytes.drop_last());
    if i < bytes.len() - 1 {
        hex_can_be_read_back(bytes.drop_last(), i);
    }
}

/// Bytes are written with the digits from `0` to `9` and the letters from `a` to
/// `f`, and nothing else.
pub proof fn hex_digits_are_digits(bytes: Seq<u8>, i: int)
    requires
        0 <= i < hex_of(bytes).len(),
    ensures
        '0' <= hex_of(bytes)[i] <= '9' || 'a' <= hex_of(bytes)[i] <= 'f',
    decreases bytes.len(),
{
    if bytes.len() > 0 {
        let shorter = hex_of(bytes.drop_last());
        if i < shorter.len() {
            hex_digits_are_digits(bytes.drop_last(), i);
        }
    }
}

} // verus!
