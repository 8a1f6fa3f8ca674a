//! Titles of panes: the name of a backend, and as much of its status as fits.

use vstd::prelude::*;
use vstd::string::*;

use crate::geometry::sat_sub;
use crate::text::{chars_of, text_of, text_view};

verus! {

/// The first `max` characters; where some are left out the last one shown is an
/// ellipsis.
pub open spec fn shortened(text: Seq<char>, max: int) -> Seq<char> {
    if text.len() <= max {
        text
    } else {
        text.take(max - 1).push('…')
    }
}

/// How many characters of a status fit in a title: the border takes two
/// columns, the name its length and the dash three.
pub open spec fn room_for_status(name: Seq<char>, width: u16) -> int {
    sat_sub(width, 2) - (name.len() + 3)
}

/// The title of a pane of the given width.
pub open spec fn title(name: Seq<char>, status: Option<Seq<char>>, width: u16) -> Seq<char> {
    match status {
        Some(status) => if status.len() > 0 && room_for_status(name, width) > 0 {
            name + " — "@ + shortened(status, room_for_status(name, width))
        } else {
            name
        },
        None => name,
    }
}

/// The title of a pane that may have a handle at its left.
pub open spec fn title_with_handle(
    name: Seq<char>,
    status: Option<Seq<char>>,
    width: u16,
    handle: bool,
) -> Seq<char> {
    if handle {
        "  "@ + title(name, status, sat_sub(width, 2))
    } else {
        title(name, status, width)
    }
}

pub fn session_title_with_handle(
    display_name: &str,
    status: Option<&str>,
    pane_width: u16,
    title_handle: bool,
) -> (text: String)
    ensures
        text@ == title_with_handle(display_name@, text_view(status), pane_width, title_handle),
{
    if title_handle {
        let mut text = "  ".to_owned();
        text.append(session_title(display_name, status, pane_width.saturating_sub(2)).as_str());
        text
    } else {
        session_title(display_name, status, pane_width)
    }
}

pub fn session_title(display_name: &str, status: Option<&str>, pane_width: u16) -> (text: String)
    ensures
        text@ == title(display_name@, text_view(status), pane_width),
{
    let available: usize = pane_width.saturating_sub(2) as usize;
    let taken: usize = display_name.unicode_len();
    if taken >= available || available - taken <= 3 {
        return display_name.to_owned();
    }
    let remaining: usize = available - taken - 3;
    match status {
        Some(status) => if status.unicode_len() > 0 {
            let mut text = display_name.to_owned();
            text.append(" — ");
            text.append(truncate(status, remaining).as_str());
            text
        } else {
            display_name.to_owned()
        },
        None => display_name.to_owned(),
    }
}

fn truncate(value: &str, max_chars: usize) -> (text: String)
    requires
        max_chars > 0,
    ensures
        text@ == shortened(value@, max_chars as int),
{
    let chars = chars_of(value);
    if chars.len() <= max_chars {
        return value.to_owned();
    }
    let mut shown: Vec<char> = Vec::new();
    let mut i: usize = 0;
    while i < max_chars - 1
        invariant
            i <= max_chars - 1 < chars@.len(),
            shown@ == chars@.take(i as int),
        decreases max_chars - i,
    {
        shown.push(chars[i]);
        i += 1;
    }
    shown.push('…');
    text_of(shown.as_slice())
}

/// A title with a status fits between the corners of its pane.
pub proof fn statuses_fit_in_their_titles(name: Seq<char>, status: Seq<char>, width: u16)
    requires
        room_for_status(name, width) > 0,
    ensures
        title(name, Some(status), width).len() <= width - 2,
{
    reveal_strlit(" — ");
}

/// A title starts with the name. A status that fits follows it whole. One that
/// does not is cut so that the title fills the border, and ends in an ellipsis.
/// Without a status, or without room for one, the name stands alone.
pub proof fn titles_show_name_and_status(name: Seq<char>, status: Seq<char>, width: u16)
    requires
        width >= 2,
    ensures
        title(name, None, width) == name,
        status.len() == 0 ==> title(name, Some(status), width) == name,
        name.len() + 3 + 2 >= width ==> title(name, Some(status), width) == name,
        status.len() > 0 && name.len() + 3 + status.len() + 2 <= width ==> title(
            name,
            Some(status),
            width,
        ) == name + seq![' ', '—', ' '] + status,
        name.len() + 3 + 2 < width < name.len() + 3 + status.len() + 2 ==> {
            let shown = title(name, Some(status), width);
            &&& shown.len() == width - 2
            &&& shown.last() == '…'
            &&& shown.drop_last() == (name + seq![' ', '—', ' '] + status).take(width - 3)
        },
{
    reveal_strlit(" — ");
    assert(" — "@ =~= seq![' ', '—', ' ']);
    let dash = seq![' ', '—', ' '];
    if name.len() + 3 + 2 < width < name.len() + 3 + status.len() + 2 {
        let shown = title(name, Some(status), width);
        let room = room_for_status(name, width);
        assert(shown =~= (name + dash + status.take(room - 1)).push('…'));
        assert(shown.drop_last() =~= (name + dash + status).take(width - 3));
    }
}

/// A handle takes the first two cells, and the title what is left of the width.
pub proof fn handles_take_two_cells(
    name: Seq<char>,
    status: Option<Seq<char>>,
    width: u16,
)
    requires
        width >= 2,
    ensures
        title_with_handle(name, status, width, false) == title(name, status, width),
        title_with_handle(name, status, width, true) == seq![' ', ' '] + title(
            name,
            status,
            (width - 2) as u16,
        ),
{
    reveal_strlit("  ");
    assert("  "@ =~= seq![' ', ' ']);
}

} // verus!
