//! Pasted text as a program in a terminal reads it.

use vstd::prelude::*;
use vstd::string::*;
use vstd::utf8::encode_utf8;

use crate::text::{bytes_of, chars_of, text_of};

verus! {

/// Why a paste was not delivered.
#[derive(Debug, PartialEq, Eq)]
pub enum PasteError {
    /// The text has several lines and the program did not ask for framed pastes.
    MultilineUnsupported,
    /// The terminal took the text but it could not be written to the program.
    Write(String),
}

impl PasteError {
    pub open spec fn spec_message(self) -> Seq<char> {
        match self {
            PasteError::MultilineUnsupported =>
                "multi-line paste requires backend bracketed-paste support"@,
            PasteError::Write(error) => "failed to write paste to PTY: "@ + error@,
        }
    }

    pub fn message(&self) -> (message: String)
        ensures
            message@ == self.spec_message(),
    {
        match self {
            PasteError::MultilineUnsupported =>
                "multi-line paste requires backend bracketed-paste support".to_owned(),
            PasteError::Write(error) => {
                let mut message = "failed to write paste to PTY: ".to_owned();
                message.append(error.as_str());
                message
            },
        }
    }
}

/// Every kind of line break as a line feed.
pub open spec fn line_feeds(text: Seq<char>) -> Seq<char>
    decreases text.len(),
{
    if text.len() == 0 {
        Seq::empty()
    } else if text[0] == '\r' && text.len() > 1 && text[1] == '\n' {
        seq!['\n'] + line_feeds(text.skip(2))
    } else if text[0] == '\r' {
        seq!['\n'] + line_feeds(text.skip(1))
    } else {
        seq![text[0]] + line_feeds(text.skip(1))
    }
}

/// Whether a character is a control character.
pub open spec fn is_control(character: char) -> bool {
    character < '\x20' || '\x7f' <= character <= '\u{9f}'
}

/// Whether a character may be pasted.
pub open spec fn pasteable(character: char) -> bool {
    character == '\n' || character == '\t' || !is_control(character)
}

/// What is left of pasted text: line breaks are line feeds, and other control
/// characters but the tab are dropped.
pub open spec fn sanitized(text: Seq<char>) -> Seq<char> {
    line_feeds(text).filter(|c: char| pasteable(c))
}

/// `ESC [ 2 0 0 ~`
pub open spec fn paste_start() -> Seq<u8> {
    seq![0x1bu8, 0x5bu8, 0x32u8, 0x30u8, 0x30u8, 0x7eu8]
}

/// `ESC [ 2 0 1 ~`
pub open spec fn paste_end() -> Seq<u8> {
    seq![0x1bu8, 0x5bu8, 0x32u8, 0x30u8, 0x31u8, 0x7eu8]
}

/// The bytes that deliver pasted text; several lines are refused where there
/// is no frame around them.
pub open spec fn paste_bytes(text: Seq<char>, bracketed: bool) -> Option<Seq<u8>> {
    if bracketed {
        Some(paste_start() + encode_utf8(sanitized(text)) + paste_end())
    } else if sanitized(text).contains('\n') {
        None
    } else {
        Some(encode_utf8(sanitized(text)))
    }
}

pub fn encode(contents: &str, bracketed: bool) -> (result: Result<Vec<u8>, PasteError>)
    ensures
        result is Ok <==> paste_bytes(contents@, bracketed) is Some,
        result matches Ok(bytes) ==> paste_bytes(contents@, bracketed) == Some(bytes@),
        result matches Err(error) ==> error is MultilineUnsupported,
{
    let clean: Vec<char> = sanitize(contents);
    let text = text_of(clean.as_slice());
    if !bracketed {
        let mut i: usize = 0;
        while i < clean.len()
            invariant
                i <= clean@.len(),
                clean@ == sanitized(contents@),
                !bracketed,
                forall|j: int| 0 <= j < i ==> clean@[j] != '\n',
            decreases clean@.len() - i,
        {
            if clean[i] == '\n' {
                assert(sanitized(contents@)[i as int] == '\n');
                return Err(PasteError::MultilineUnsupported);
            }
            i += 1;
        }
        return Ok(bytes_of(text.as_str()));
    }
    let mut bytes: Vec<u8> = vec![0x1b, 0x5b, 0x32, 0x30, 0x30, 0x7e];
    bytes.extend_from_slice(bytes_of(text.as_str()).as_slice());
    bytes.extend_from_slice(&[0x1b, 0x5b, 0x32, 0x30, 0x31, 0x7e]);
    assert(bytes@ =~= paste_start() + encode_utf8(sanitized(contents@)) + paste_end());
    Ok(bytes)
}

fn sanitize(contents: &str) -> (clean: Vec<char>)
    ensures
        clean@ == sanitized(contents@),
{
    let chars: Vec<char> = chars_of(contents);
    let mut lines: Vec<char> = Vec::new();
    let mut i: usize = 0;
    assert(chars@.skip(0) =~= contents@);
    while i < chars.len()
        invariant
            i <= chars@.len(),
            chars@ == contents@,
            lines@ + line_feeds(chars@.skip(i as int)) == line_feeds(contents@),
        decreases chars@.len() - i,
    {
        let ghost rest = chars@.skip(i as int);
        let ghost before = lines@;
        if chars[i] == '\r' {
            lines.push('\n');
            if i + 1 < chars.len() && chars[i + 1] == '\n' {
                assert(rest[1] == '\n');
                assert(rest.skip(2) =~= chars@.skip(i + 2));
                assert(before + (seq!['\n'] + line_feeds(rest.skip(2))) =~= lines@ + line_feeds(
                    rest.skip(2),
                ));
                i += 2;
            } else {
                assert(rest.len() > 1 ==> rest[1] == chars@[i + 1]);
                assert(rest.skip(1) =~= chars@.skip(i + 1));
                assert(before + (seq!['\n'] + line_feeds(rest.skip(1))) =~= lines@ + line_feeds(
                    rest.skip(1),
                ));
                i += 1;
            }
        } else {
            lines.push(chars[i]);
            assert(rest.skip(1) =~= chars@.skip(i + 1));
            assert(before + (seq![rest[0]] + line_feeds(rest.skip(1))) =~= lines@ + line_feeds(
                rest.skip(1),
            ));
            i += 1;
        }
    }
    assert(lines@ + line_feeds(chars@.skip(i as int)) =~= lines@);
    let mut clean: Vec<char> = Vec::new();
    let mut j: usize = 0;
    while j < lines.len()
        invariant
            j <= lines@.len(),
            clean@ == lines@.take(j as int).filter(|c: char| pasteable(c)),
        decreases lines@.len() - j,
    {
        let c: char = lines[j];
        proof {
            let next = lines@.take(j + 1);
            assert(next.drop_last() =~= lines@.take(j as int));
            reveal(Seq::filter);
        }
        if c == '\n' || c == '\t' || !(c < '\x20' || ('\x7f' <= c && c <= '\u{9f}')) {
            clean.push(c);
        }
        j += 1;
    }
    assert(lines@.take(j as int) =~= lines@);
    clean
}

/// Pasted text cannot hold an escape character, so it cannot end its own frame,
/// and no carriage return is left in it.
pub proof fn pasted_text_holds_no_control_sequences(text: Seq<char>, i: int)
    requires
        0 <= i < sanitized(text).len(),
    ensures
        pasteable(sanitized(text)[i]),
        sanitized(text)[i] != '\x1b',
        sanitized(text)[i] != '\r',
{
    line_feeds(text).lemma_filter_pred(|c: char| pasteable(c), i);
}

/// A framed paste is always delivered; one without a frame is refused exactly
/// where it has several lines.
pub proof fn only_unframed_lines_are_refused(text: Seq<char>)
    ensures
        paste_bytes(text, true) is Some,
        paste_bytes(text, false) is None <==> sanitized(text).contains('\n'),
{
}

/// Text without control characters is delivered as it is.
pub proof fn plain_text_is_kept(text: Seq<char>)
    requires
        forall|i: int| 0 <= i < text.len() ==> !is_control(#[trigger] text[i]),
    ensures
        sanitized(text) == text,
        paste_bytes(text, false) == Some(encode_utf8(text)),
{
    line_feeds_keep(text);
    filter_keeps(text);
    assert(!text.contains('\n'));
}

proof fn line_feeds_keep(text: Seq<char>)
    requires
        forall|i: int| 0 <= i < text.len() ==> !is_control(#[trigger] text[i]),
    ensures
        line_feeds(text) == text,
    decreases text.len(),
{
    if text.len() > 0 {
        line_feeds_keep(text.skip(1));
        assert(!is_control(text[0]));
        assert(seq![text[0]] + text.skip(1) =~= text);
    }
}

proof fn filter_keeps(text: Seq<char>)
    requires
        forall|i: int| 0 <= i < text.len() ==> !is_control(#[trigger] text[i]),
    ensures
        text.filter(|c: char| pasteable(c)) == text,
    decreases text.len(),
{
    reveal(Seq::filter);
    if text.len() > 0 {
        filter_keeps(text.drop_last());
        assert(!is_control(text[text.len() - 1]));
        assert(text.drop_last().push(text.last()) =~= text);
    }
}

/// Text that is pasted in two halves is what it is in one, unless a line break
/// of two characters is cut apart.
pub proof fn pastes_can_be_cut(first: Seq<char>, second: Seq<char>)
    requires
        !(first.len() > 0 && first.last() == '\r' && second.len() > 0 && second[0] == '\n'),
    ensures
        sanitized(first + second) == sanitized(first) + sanitized(second),
{
    breaks_can_be_cut(first, second);
    Seq::filter_distributes_over_add(
        line_feeds(first),
        line_feeds(second),
        |c: char| pasteable(c),
    );
}

proof fn breaks_can_be_cut(first: Seq<char>, second: Seq<char>)
    requires
        !(first.len() > 0 && first.last() == '\r' && second.len() > 0 && second[0] == '\n'),
    ensures
        line_feeds(first + second) == line_feeds(first) + line_feeds(second),
    decreases first.len(),
{
    let text = first + second;
    if first.len() == 0 {
        assert(text =~= second);
        assert(line_feeds(first) + line_feeds(second) =~= line_feeds(second));
    } else {
        let taken: int = if first[0] == '\r' && first.len() > 1 && first[1] == '\n' {
            2
        } else {
            1
        };
        assert(text.skip(taken) =~= first.skip(taken) + second);
        breaks_can_be_cut(first.skip(taken), second);
        assert(line_feeds(text) =~= line_feeds(first) + line_feeds(second));
    }
}

/// A character that can be seen is kept, and so are the tab and the line feed. A
/// carriage return becomes a line feed, alone or before one. Every other control
/// character is dropped.
pub proof fn characters_are_kept_or_dropped(character: char)
    ensures
        ({
            let number = character as int;
            let left = sanitized(seq![character]);
            &&& 32 <= number <= 126 || number >= 160 || number == 9 || number == 10 ==> left == seq![
                character,
            ]
            &&& number == 13 ==> left == seq!['\n']
            &&& number < 9 || 11 <= number <= 12 || 14 <= number < 32 || 127 <= number < 160
                ==> left.len() == 0
        }),
        sanitized(seq!['\r', '\n']) == seq!['\n'],
{
    reveal_with_fuel(line_feeds, 2);
    let text = seq![character];
    let keep = |c: char| pasteable(c);
    assert(text.skip(1) =~= Seq::empty());
    let fed = line_feeds(text);
    assert(fed =~= seq![
        if character == '\r' {
            '\n'
        } else {
            character
        },
    ]);
    reveal(Seq::filter);
    assert(fed.drop_last() =~= Seq::empty());
    assert(fed.drop_last().filter(keep) =~= Seq::empty());
    assert(fed.filter(keep) =~= if pasteable(fed[0]) {
        fed
    } else {
        Seq::empty()
    });
    let pair = seq!['\r', '\n'];
    assert(pair.skip(2) =~= Seq::empty());
    let one = line_feeds(pair);
    assert(one =~= seq!['\n']);
    assert(one.drop_last() =~= Seq::empty());
    assert(one.drop_last().filter(keep) =~= Seq::empty());
    assert(one.filter(keep) =~= one);
}

/// A framed paste is the text between two marks. The marks are the same whatever
/// is pasted.
pub proof fn pastes_are_framed(text: Seq<char>)
    ensures
        paste_bytes(text, true) matches Some(bytes) && {
            &&& bytes.len() >= 12
            &&& bytes.take(6) == seq![0x1bu8, 0x5bu8, 0x32u8, 0x30u8, 0x30u8, 0x7eu8]
            &&& bytes.skip(bytes.len() - 6) == seq![
                0x1bu8,
                0x5bu8,
                0x32u8,
                0x30u8,
                0x31u8,
                0x7eu8,
            ]
            &&& bytes.subrange(6, bytes.len() - 6) == encode_utf8(sanitized(text))
        },
        paste_bytes(text, false) matches Some(bytes) ==> bytes == encode_utf8(sanitized(text)),
{
    let bytes = paste_bytes(text, true)->0;
    assert(bytes.take(6) =~= paste_start());
    assert(bytes.skip(bytes.len() - 6) =~= paste_end());
    assert(bytes.subrange(6, bytes.len() - 6) =~= encode_utf8(sanitized(text)));
}

} // verus!
