//! Mouse events as a program in a terminal reads them.

use vstd::prelude::*;
use vstd::string::*;
use vstd::utf8::*;

use crate::event::{KeyModifiers, MouseButton, MouseEvent, MouseEventKind};
use crate::geometry::sat_add;
use crate::terminal::emulator::{MouseProtocolEncoding, MouseProtocolMode};
use crate::text::{bytes_of, decimal, decimal_text};

verus! {

/// Whether a program in the given mode wants to see the event.
pub open spec fn wanted(mode: MouseProtocolMode, kind: MouseEventKind) -> bool {
    match mode {
        MouseProtocolMode::Off => false,
        MouseProtocolMode::Press => kind !is Up && kind !is Drag && kind !is Moved,
        MouseProtocolMode::PressRelease => kind !is Drag && kind !is Moved,
        MouseProtocolMode::ButtonMotion => kind !is Moved,
        MouseProtocolMode::AnyMotion => true,
    }
}

pub open spec fn button_number(button: MouseButton) -> u16 {
    match button {
        MouseButton::Left => 0,
        MouseButton::Middle => 1,
        MouseButton::Right => 2,
    }
}

/// The number of an event, without modifiers.
pub open spec fn event_number(kind: MouseEventKind) -> u16 {
    match kind {
        MouseEventKind::Down(button) => button_number(button),
        MouseEventKind::Up(button) => button_number(button),
        MouseEventKind::Drag(button) => (button_number(button) + 32) as u16,
        MouseEventKind::Moved => 35,
        MouseEventKind::ScrollUp => 64,
        MouseEventKind::ScrollDown => 65,
        MouseEventKind::ScrollLeft => 66,
        MouseEventKind::ScrollRight => 67,
    }
}

pub open spec fn modifier_number(modifiers: KeyModifiers) -> u16 {
    ((if modifiers.shift {
        4int
    } else {
        0
    }) + (if modifiers.alt {
        8int
    } else {
        0
    }) + (if modifiers.control {
        16int
    } else {
        0
    })) as u16
}

/// The SGR report: numbers in decimal, and a final letter that tells a press
/// from a release.
pub open spec fn sgr_report(event: MouseEvent) -> Seq<char> {
    "\x1b[<"@ + decimal(
        (event_number(event.kind) + modifier_number(event.modifiers)) as nat,
    ) + ";"@ + decimal(sat_add(event.column, 1) as nat) + ";"@ + decimal(
        sat_add(event.row, 1) as nat,
    ) + (if event.kind is Up {
        "m"@
    } else {
        "M"@
    })
}

/// The three numbers of an older report, moved past the control characters. A
/// release does not tell its button.
pub open spec fn legacy_numbers(event: MouseEvent) -> Seq<u16> {
    let code = if event.kind is Up {
        3int
    } else {
        event_number(event.kind) as int
    };
    seq![
        (code + modifier_number(event.modifiers) + 32) as u16,
        sat_add(sat_add(event.column, 1), 32),
        sat_add(sat_add(event.row, 1), 32),
    ]
}

/// An older report: each number is a byte, or a character where UTF-8 is in
/// use. There is none where a number does not fit.
pub open spec fn legacy_report(numbers: Seq<u16>, utf8: bool) -> Option<Seq<u8>> {
    let limit: u16 = if utf8 {
        0x07ff
    } else {
        0xff
    };
    if numbers[0] > limit || numbers[1] > limit || numbers[2] > limit {
        None
    } else if utf8 {
        Some(
            encode_utf8(
                seq![
                    '\x1b',
                    '[',
                    'M',
                    numbers[0] as u32 as char,
                    numbers[1] as u32 as char,
                    numbers[2] as u32 as char,
                ],
            ),
        )
    } else {
        Some(
            seq![
                0x1bu8,
                0x5bu8,
                0x4du8,
                numbers[0] as u8,
                numbers[1] as u8,
                numbers[2] as u8,
            ],
        )
    }
}

/// The bytes that report an event, if it is wanted and can be told.
pub open spec fn report(
    mode: MouseProtocolMode,
    encoding: MouseProtocolEncoding,
    event: MouseEvent,
) -> Option<Seq<u8>> {
    if !wanted(mode, event.kind) {
        None
    } else {
        match encoding {
            MouseProtocolEncoding::Sgr => Some(encode_utf8(sgr_report(event))),
            MouseProtocolEncoding::Default => legacy_report(legacy_numbers(event), false),
            MouseProtocolEncoding::Utf8 => legacy_report(legacy_numbers(event), true),
        }
    }
}

pub fn encode(mode: MouseProtocolMode, encoding: MouseProtocolEncoding, event: MouseEvent) -> (
    bytes: Option<Vec<u8>>)
    ensures
        bytes is Some <==> report(mode, encoding, event) is Some,
        bytes matches Some(b) ==> Some(b@) == report(mode, encoding, event),
{
    if !reports(mode, event.kind) {
        return None;
    }
    let (button_code, release): (u16, bool) = event_code(event.kind);
    let modifiers: u16 = modifier_code(event.modifiers);
    let code: u16 = button_code + modifiers;
    let legacy_code: u16 = if release {
        3 + modifiers
    } else {
        code
    };
    let column: u16 = event.column.saturating_add(1);
    let row: u16 = event.row.saturating_add(1);
    match encoding {
        MouseProtocolEncoding::Sgr => {
            let mut text = "\x1b[<".to_owned();
            text.append(decimal_text(code as u64).as_str());
            text.append(";");
            text.append(decimal_text(column as u64).as_str());
            text.append(";");
            text.append(decimal_text(row as u64).as_str());
            text.append(
                if release {
                    "m"
                } else {
                    "M"
                },
            );
            assert(text@ =~= sgr_report(event));
            Some(bytes_of(text.as_str()))
        },
        MouseProtocolEncoding::Default => encode_legacy(legacy_code, column, row, false),
        MouseProtocolEncoding::Utf8 => encode_legacy(legacy_code, column, row, true),
    }
}

fn reports(mode: MouseProtocolMode, kind: MouseEventKind) -> (result: bool)
    ensures
        result == wanted(mode, kind),
{
    match mode {
        MouseProtocolMode::Off => false,
        MouseProtocolMode::Press => match kind {
            MouseEventKind::Down(_)
            | MouseEventKind::ScrollUp
            | MouseEventKind::ScrollDown
            | MouseEventKind::ScrollLeft
            | MouseEventKind::ScrollRight => true,
            _ => false,
        },
        MouseProtocolMode::PressRelease => match kind {
            MouseEventKind::Drag(_) | MouseEventKind::Moved => false,
            _ => true,
        },
        MouseProtocolMode::ButtonMotion => match kind {
            MouseEventKind::Moved => false,
            _ => true,
        },
        MouseProtocolMode::AnyMotion => true,
    }
}

fn event_code(kind: MouseEventKind) -> (result: (u16, bool))
    ensures
        result.0 == event_number(kind) <= 67,
        result.1 == kind is Up,
{
    match kind {
        MouseEventKind::Down(button) => (button_code(button), false),
        MouseEventKind::Up(button) => (button_code(button), true),
        MouseEventKind::Drag(button) => (button_code(button) + 32, false),
        MouseEventKind::Moved => (35, false),
        MouseEventKind::ScrollUp => (64, false),
        MouseEventKind::ScrollDown => (65, false),
        MouseEventKind::ScrollLeft => (66, false),
        MouseEventKind::ScrollRight => (67, false),
    }
}

fn button_code(button: MouseButton) -> (code: u16)
    ensures
        code == button_number(button) <= 2,
{
    match button {
        MouseButton::Left => 0,
        MouseButton::Middle => 1,
        MouseButton::Right => 2,
    }
}

fn modifier_code(modifiers: KeyModifiers) -> (code: u16)
    ensures
        code == modifier_number(modifiers) <= 28,
{
    let mut code: u16 = 0;
    if modifiers.shift {
        code += 4;
    }
    if modifiers.alt {
        code += 8;
    }
    if modifiers.control {
        code += 16;
    }
    code
}

fn encode_legacy(code: u16, column: u16, row: u16, utf8: bool) -> (bytes: Option<Vec<u8>>)
    ensures
        bytes is Some <==> legacy_report(
            seq![sat_add(code, 32), sat_add(column, 32), sat_add(row, 32)],
            utf8,
        ) is Some,
        bytes matches Some(b) ==> Some(b@) == legacy_report(
            seq![sat_add(code, 32), sat_add(column, 32), sat_add(row, 32)],
            utf8,
        ),
{
    let code: u16 = code.saturating_add(32);
    let column: u16 = column.saturating_add(32);
    let row: u16 = row.saturating_add(32);
    let limit: u16 = if utf8 {
        0x07ff
    } else {
        0xff
    };
    if code > limit || column > limit || row > limit {
        return None;
    }
    if utf8 {
        let first = char::from_u32(code as u32);
        let second = char::from_u32(column as u32);
        let third = char::from_u32(row as u32);
        match (first, second, third) {
            (Some(first), Some(second), Some(third)) => {
                let mut text = String::new();
                text.push('\x1b');
                text.push('[');
                text.push('M');
                text.push(first);
                text.push(second);
                text.push(third);
                proof {
                    char_u32_cast(first, code as u32);
                    char_u32_cast(second, column as u32);
                    char_u32_cast(third, row as u32);
                }
                assert(text@ =~= seq![
                    '\x1b',
                    '[',
                    'M',
                    code as u32 as char,
                    column as u32 as char,
                    row as u32 as char,
                ]);
                Some(bytes_of(text.as_str()))
            },
            _ => None,
        }
    } else {
        Some(vec![0x1b, 0x5b, 0x4d, code as u8, column as u8, row as u8])
    }
}

/// A mode reports all that a narrower one does.
pub proof fn modes_widen(kind: MouseEventKind)
    ensures
        !wanted(MouseProtocolMode::Off, kind),
        wanted(MouseProtocolMode::Press, kind) ==> wanted(MouseProtocolMode::PressRelease, kind),
        wanted(MouseProtocolMode::PressRelease, kind) ==> wanted(
            MouseProtocolMode::ButtonMotion,
            kind,
        ),
        wanted(MouseProtocolMode::AnyMotion, kind),
{
}

/// An older report tells a pointer only up to its limit: column and row 222 in
/// bytes, 2014 in UTF-8. The SGR report has no limit.
pub proof fn legacy_reports_end_at_their_limit(mode: MouseProtocolMode, event: MouseEvent)
    requires
        wanted(mode, event.kind),
    ensures
        report(mode, MouseProtocolEncoding::Sgr, event) is Some,
        report(mode, MouseProtocolEncoding::Default, event) is Some <==> event.column <= 222
            && event.row <= 222,
        report(mode, MouseProtocolEncoding::Utf8, event) is Some <==> event.column <= 2014
            && event.row <= 2014,
{
}

/// Presses and the wheel are told in every mode that tells anything, releases in
/// all but the narrowest, motion with a button held in the two widest, and motion
/// without one only in the widest.
pub proof fn modes_tell_their_events(kind: MouseEventKind)
    ensures
        ({
            let press = kind is Down || kind is ScrollUp || kind is ScrollDown || kind is ScrollLeft
                || kind is ScrollRight;
            &&& wanted(MouseProtocolMode::Press, kind) <==> press
            &&& wanted(MouseProtocolMode::PressRelease, kind) <==> press || kind is Up
            &&& wanted(MouseProtocolMode::ButtonMotion, kind) <==> press || kind is Up || kind
                is Drag
            &&& wanted(MouseProtocolMode::AnyMotion, kind)
            &&& !wanted(MouseProtocolMode::Off, kind)
        }),
{
}

/// An older report in bytes can be read back: the column and the row, and a number
/// made of the button, 32 for motion, 64 for the wheel, and 4, 8 and 16 for the
/// modifiers. A release has the button 3.
pub proof fn older_reports_can_be_read_back(mode: MouseProtocolMode, event: MouseEvent)
    requires
        report(mode, MouseProtocolEncoding::Default, event) is Some,
    ensures
        ({
            let bytes = report(mode, MouseProtocolEncoding::Default, event)->0;
            let code = bytes[3] - 32;
            let held = |m: bool, n: int|
                if m {
                    n
                } else {
                    0
                };
            let modifiers = held(event.modifiers.shift, 4) + held(event.modifiers.alt, 8) + held(
                event.modifiers.control,
                16,
            );
            let number = |button: MouseButton|
                match button {
                    MouseButton::Left => 0int,
                    MouseButton::Middle => 1,
                    MouseButton::Right => 2,
                };
            &&& bytes.len() == 6
            &&& bytes.take(3) == seq![0x1bu8, 0x5bu8, 0x4du8]
            &&& bytes[4] == event.column + 33
            &&& bytes[5] == event.row + 33
            &&& code - modifiers == match event.kind {
                MouseEventKind::Down(button) => number(button),
                MouseEventKind::Up(_) => 3,
                MouseEventKind::Drag(button) => (number(button) + 32) as int,
                MouseEventKind::Moved => 35,
                MouseEventKind::ScrollUp => 64,
                MouseEventKind::ScrollDown => 65,
                MouseEventKind::ScrollLeft => 66,
                MouseEventKind::ScrollRight => 67,
            }
        }),
{
    let bytes = report(mode, MouseProtocolEncoding::Default, event)->0;
    assert(bytes.take(3) =~= seq![0x1bu8, 0x5bu8, 0x4du8]);
}

} // verus!
