//! Keys as a program in a terminal reads them.

use vstd::prelude::*;
use vstd::utf8::encode_utf8;

use crate::event::{KeyCode, KeyEvent};
use crate::text::bytes_of;

verus! {

/// The control code of a letter, in either case.
pub open spec fn control_code(character: char) -> Option<u8> {
    if 'a' <= character <= 'z' {
        Some((character as int - 'a' as int + 1) as u8)
    } else if 'A' <= character <= 'Z' {
        Some((character as int - 'A' as int + 1) as u8)
    } else {
        None
    }
}

/// The bytes of a key, if it has any.
pub open spec fn key_bytes(key: KeyEvent) -> Option<Seq<u8>> {
    match key.code {
        KeyCode::Char(character) => if key.modifiers.control {
            match control_code(character) {
                Some(byte) => Some(seq![byte]),
                None => None,
            }
        } else {
            Some(encode_utf8(seq![character]))
        },
        KeyCode::Enter => Some(seq![0x0du8]),
        KeyCode::Backspace => Some(seq![0x7fu8]),
        KeyCode::Tab => Some(seq![0x09u8]),
        KeyCode::Esc => Some(seq![0x1bu8]),
        KeyCode::Left => Some(seq![0x1bu8, 0x5bu8, 0x44u8]),
        KeyCode::Right => Some(seq![0x1bu8, 0x5bu8, 0x43u8]),
        KeyCode::Up => Some(seq![0x1bu8, 0x5bu8, 0x41u8]),
        KeyCode::Down => Some(seq![0x1bu8, 0x5bu8, 0x42u8]),
        KeyCode::Home => Some(seq![0x1bu8, 0x5bu8, 0x48u8]),
        KeyCode::End => Some(seq![0x1bu8, 0x5bu8, 0x46u8]),
        KeyCode::Delete => Some(seq![0x1bu8, 0x5bu8, 0x33u8, 0x7eu8]),
        KeyCode::Null | KeyCode::Other => None,
    }
}

pub fn encode_key(key: KeyEvent) -> (bytes: Option<Vec<u8>>)
    ensures
        bytes is Some <==> key_bytes(key) is Some,
        bytes matches Some(b) ==> Some(b@) == key_bytes(key),
{
    match key.code {
        KeyCode::Char(character) => if key.modifiers.control {
            match ctrl_char(character) {
                Some(byte) => Some(vec![byte]),
                None => None,
            }
        } else {
            let mut text = String::new();
            text.push(character);
            assert(text@ =~= seq![character]);
            Some(bytes_of(text.as_str()))
        },
        KeyCode::Enter => Some(vec![0x0d]),
        KeyCode::Backspace => Some(vec![0x7f]),
        KeyCode::Tab => Some(vec![0x09]),
        KeyCode::Esc => Some(vec![0x1b]),
        KeyCode::Left => Some(vec![0x1b, 0x5b, 0x44]),
        KeyCode::Right => Some(vec![0x1b, 0x5b, 0x43]),
        KeyCode::Up => Some(vec![0x1b, 0x5b, 0x41]),
        KeyCode::Down => Some(vec![0x1b, 0x5b, 0x42]),
        KeyCode::Home => Some(vec![0x1b, 0x5b, 0x48]),
        KeyCode::End => Some(vec![0x1b, 0x5b, 0x46]),
        KeyCode::Delete => Some(vec![0x1b, 0x5b, 0x33, 0x7e]),
        KeyCode::Null | KeyCode::Other => None,
    }
}

fn ctrl_char(character: char) -> (code: Option<u8>)
    ensures
        code == control_code(character),
{
    if 'a' <= character && character <= 'z' {
        let offset: u32 = character as u32 - 'a' as u32 + 1;
        Some(offset as u8)
    } else if 'A' <= character && character <= 'Z' {
        let offset: u32 = character as u32 - 'A' as u32 + 1;
        Some(offset as u8)
    } else {
        None
    }
}

/// A letter with the control key has one of the codes 1 to 26, whatever its
/// case.
pub proof fn control_letters_ignore_case(lower: char, upper: char)
    requires
        'a' <= lower <= 'z',
        upper as int == lower as int - 32,
    ensures
        control_code(lower) == control_code(upper),
        control_code(lower) matches Some(code) && 1 <= code <= 26,
{
}

} // verus!
