//! Answers to the questions that programs put to their terminal.

use vstd::prelude::*;
use vstd::string::*;

use crate::geometry::sat_add;
use crate::terminal::emulator::screen_cursor;
use crate::text::{decimal, decimal_text, texts};

verus! {

/// Whether the bytes hold `needle` at the place `at`.
pub open spec fn occurs_at(bytes: Seq<u8>, needle: Seq<u8>, at: int) -> bool {
    &&& 0 <= at
    &&& at + needle.len() <= bytes.len()
    &&& bytes.subrange(at, at + needle.len()) == needle
}

/// Whether the bytes hold `needle` anywhere.
pub open spec fn occurs(bytes: Seq<u8>, needle: Seq<u8>) -> bool {
    exists|at: int| occurs_at(bytes, needle, at)
}

/// `ESC [ 6 n`: where is the cursor?
pub open spec fn asks_cursor(bytes: Seq<u8>) -> bool {
    occurs(bytes, seq![0x1bu8, 0x5bu8, 0x36u8, 0x6eu8])
}

/// `ESC [ 5 n`: is the terminal working?
pub open spec fn asks_status(bytes: Seq<u8>) -> bool {
    occurs(bytes, seq![0x1bu8, 0x5bu8, 0x35u8, 0x6eu8])
}

/// `ESC [ c` or `ESC [ 0 c`: what can the terminal do?
pub open spec fn asks_attributes(bytes: Seq<u8>) -> bool {
    occurs(bytes, seq![0x1bu8, 0x5bu8, 0x63u8]) || occurs(
        bytes,
        seq![0x1bu8, 0x5bu8, 0x30u8, 0x63u8],
    )
}

/// `ESC [ > c` or `ESC [ > 0 c`: which terminal is it?
pub open spec fn asks_identity(bytes: Seq<u8>) -> bool {
    occurs(bytes, seq![0x1bu8, 0x5bu8, 0x3eu8, 0x63u8]) || occurs(
        bytes,
        seq![0x1bu8, 0x5bu8, 0x3eu8, 0x30u8, 0x63u8],
    )
}

/// The report of a cursor, with rows and columns counted from one.
pub open spec fn cursor_report(cursor: (u16, u16)) -> Seq<char> {
    "\x1b["@ + decimal(sat_add(cursor.0, 1) as nat) + ";"@ + decimal(
        sat_add(cursor.1, 1) as nat,
    ) + "R"@
}

/// The answers to what a program wrote: one for each kind of question, in a
/// fixed order.
pub open spec fn answers(bytes: Seq<u8>, cursor: (u16, u16)) -> Seq<Seq<char>> {
    let place = if asks_cursor(bytes) {
        seq![cursor_report(cursor)]
    } else {
        Seq::empty()
    };
    let status = if asks_status(bytes) {
        place.push("\x1b[0n"@)
    } else {
        place
    };
    let attributes = if asks_attributes(bytes) {
        status.push("\x1b[?1;2c"@)
    } else {
        status
    };
    if asks_identity(bytes) {
        attributes.push("\x1b[>0;0;0c"@)
    } else {
        attributes
    }
}

/// Answers what a program wrote; the cursor is that of the screen after it.
pub fn responses(bytes: &[u8], screen: &vt100::Screen) -> (result: Vec<String>)
    ensures
        texts(result@) == answers(bytes@, screen_cursor(*screen)),
{
    let mut result: Vec<String> = Vec::new();
    if contains(bytes, &[0x1b, 0x5b, 0x36, 0x6e]) {
        let cursor: (u16, u16) = screen.cursor_position();
        let mut report = "\x1b[".to_owned();
        report.append(decimal_text(cursor.0.saturating_add(1) as u64).as_str());
        report.append(";");
        report.append(decimal_text(cursor.1.saturating_add(1) as u64).as_str());
        report.append("R");
        result.push(report);
    }
    let ghost place = texts(result@);
    assert(place =~= if asks_cursor(bytes@) {
        seq![cursor_report(screen_cursor(*screen))]
    } else {
        Seq::empty()
    });
    if contains(bytes, &[0x1b, 0x5b, 0x35, 0x6e]) {
        result.push("\x1b[0n".to_owned());
        assert(texts(result@) =~= place.push("\x1b[0n"@));
    }
    let ghost status = texts(result@);
    if contains(bytes, &[0x1b, 0x5b, 0x63]) || contains(bytes, &[0x1b, 0x5b, 0x30, 0x63]) {
        result.push("\x1b[?1;2c".to_owned());
        assert(texts(result@) =~= status.push("\x1b[?1;2c"@));
    }
    let ghost attributes = texts(result@);
    if contains(bytes, &[0x1b, 0x5b, 0x3e, 0x63]) || contains(
        bytes,
        &[0x1b, 0x5b, 0x3e, 0x30, 0x63],
    ) {
        result.push("\x1b[>0;0;0c".to_owned());
        assert(texts(result@) =~= attributes.push("\x1b[>0;0;0c"@));
    }
    result
}

fn contains(bytes: &[u8], needle: &[u8]) -> (found: bool)
    requires
        needle@.len() > 0,
    ensures
        found == occurs(bytes@, needle@),
{
    let total: usize = bytes.len();
    let mut at: usize = 0;
    while at < total && needle.len() <= total - at
        invariant
            at <= total,
            total == bytes@.len(),
            needle@.len() > 0,
            forall|i: int| 0 <= i < at ==> !occurs_at(bytes@, needle@, i),
        decreases bytes@.len() - at,
    {
        let mut matched: usize = 0;
        while matched < needle.len() && bytes[at + matched] == needle[matched]
            invariant
                at + needle@.len() <= total,
                total == bytes@.len(),
                matched <= needle@.len(),
                forall|i: int| 0 <= i < matched ==> bytes@[at + i] == needle@[i],
            decreases needle@.len() - matched,
        {
            matched += 1;
        }
        if matched == needle.len() {
            assert(bytes@.subrange(at as int, at + needle@.len()) =~= needle@);
            assert(occurs_at(bytes@, needle@, at as int));
            return true;
        }
        assert(bytes@.subrange(at as int, at + needle@.len())[matched as int] != needle@[
            matched as int
        ]);
        at += 1;
    }
    false
}

/// Output that holds no escape byte is not answered.
pub proof fn plain_output_is_not_answered(bytes: Seq<u8>, cursor: (u16, u16))
    requires
        forall|i: int| 0 <= i < bytes.len() ==> bytes[i] != 0x1b,
    ensures
        answers(bytes, cursor).len() == 0,
{
    assert forall|needle: Seq<u8>| needle.len() > 0 && needle[0] == 0x1b implies !occurs(
        bytes,
        needle,
    ) by {
        if occurs(bytes, needle) {
            let at = choose|at: int| occurs_at(bytes, needle, at);
            assert(bytes.subrange(at, at + needle.len())[0] == bytes[at]);
        }
    }
}

/// A question is found wherever it stands in the output. Where the cursor is
/// asked for, its row and its column, counted from one, are the first answer.
/// Each kind of question is answered once, however often it is asked.
pub proof fn questions_are_answered(
    before: Seq<u8>,
    after: Seq<u8>,
    bytes: Seq<u8>,
    cursor: (u16, u16),
)
    requires
        cursor.0 < u16::MAX,
        cursor.1 < u16::MAX,
    ensures
        asks_cursor(before + seq![0x1bu8, 0x5bu8, 0x36u8, 0x6eu8] + after),
        asks_status(before + seq![0x1bu8, 0x5bu8, 0x35u8, 0x6eu8] + after),
        asks_attributes(before + seq![0x1bu8, 0x5bu8, 0x63u8] + after),
        asks_attributes(before + seq![0x1bu8, 0x5bu8, 0x30u8, 0x63u8] + after),
        asks_identity(before + seq![0x1bu8, 0x5bu8, 0x3eu8, 0x63u8] + after),
        asks_identity(before + seq![0x1bu8, 0x5bu8, 0x3eu8, 0x30u8, 0x63u8] + after),
        asks_cursor(bytes) ==> answers(bytes, cursor)[0] == seq!['\x1b', '['] + decimal(
            (cursor.0 + 1) as nat,
        ) + seq![';'] + decimal((cursor.1 + 1) as nat) + seq!['R'],
        ({
            let asked = |b: bool|
                if b {
                    1int
                } else {
                    0
                };
            answers(bytes, cursor).len() == asked(asks_cursor(bytes)) + asked(asks_status(bytes))
                + asked(asks_attributes(bytes)) + asked(asks_identity(bytes))
        }),
        asks_status(bytes) && !asks_cursor(bytes) ==> answers(bytes, cursor)[0] == "\x1b[0n"@,
        asks_identity(bytes) ==> answers(bytes, cursor).last() == "\x1b[>0;0;0c"@,
        asks_attributes(bytes) && !asks_identity(bytes) ==> answers(bytes, cursor).last()
            == "\x1b[?1;2c"@,
{
    stands_between(before, seq![0x1bu8, 0x5bu8, 0x36u8, 0x6eu8], after);
    stands_between(before, seq![0x1bu8, 0x5bu8, 0x35u8, 0x6eu8], after);
    stands_between(before, seq![0x1bu8, 0x5bu8, 0x63u8], after);
    stands_between(before, seq![0x1bu8, 0x5bu8, 0x30u8, 0x63u8], after);
    stands_between(before, seq![0x1bu8, 0x5bu8, 0x3eu8, 0x63u8], after);
    stands_between(before, seq![0x1bu8, 0x5bu8, 0x3eu8, 0x30u8, 0x63u8], after);
    reveal_strlit("\x1b[");
    reveal_strlit(";");
    reveal_strlit("R");
    assert("\x1b["@ =~= seq!['\x1b', '[']);
    assert(";"@ =~= seq![';']);
    assert("R"@ =~= seq!['R']);
}

proof fn stands_between(before: Seq<u8>, needle: Seq<u8>, after: Seq<u8>)
    ensures
        occurs(before + needle + after, needle),
{
    let bytes = before + needle + after;
    let at = before.len() as int;
    assert(bytes.subrange(at, at + needle.len()) =~= needle);
    assert(occurs_at(bytes, needle, at));
}

} // verus!
