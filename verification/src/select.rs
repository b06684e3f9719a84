//! Scrolling a list in a terminal prompt: which slice of the list is shown,
//! where the cursor moves, and when more items are loaded.
use vstd::prelude::*;

verus! {

/// How many items are shown: at most `max_visible`.
pub open spec fn spec_visible(len: nat, max_visible: nat) -> nat {
    if len < max_visible {
        len
    } else {
        max_visible
    }
}

/// The first item shown, so that the cursor stays in view: the view moves
/// down just enough when the cursor is below it, and up to the cursor when
/// the cursor is above it.
pub open spec fn spec_scroll_offset(cursor: int, offset: int, visible: int) -> int {
    let o = if cursor >= offset + visible {
        cursor + 1 - visible
    } else {
        offset
    };
    if cursor < o {
        cursor
    } else {
        o
    }
}

/// The number of items shown and the first item shown, for a list of
/// `len` items with the cursor at `cursor` and the view starting at `offset`.
pub fn scroll(cursor: usize, offset: usize, len: usize, max_visible: usize) -> (r: (usize, usize))
    ensures
        r.0 == spec_visible(len as nat, max_visible as nat),
        r.1 == spec_scroll_offset(cursor as int, offset as int, r.0 as int),
{
    let visible = if len < max_visible {
        len
    } else {
        max_visible
    };
    let mut o = offset;
    if cursor >= offset && cursor - offset >= visible {
        o = if visible > 0 {
            cursor - (visible - 1)
        } else {
            cursor
        };
    }
    if cursor < o {
        o = cursor;
    }
    (visible, o)
}

/// The cursor after the up arrow: one up, and not past the top.
pub fn cursor_up(cursor: usize) -> (r: usize)
    ensures
        r == if cursor == 0 {
            0
        } else {
            cursor - 1
        },
{
    if cursor == 0 {
        0
    } else {
        cursor - 1
    }
}

/// The cursor after the down arrow: one down, and not past the last item.
pub fn cursor_down(cursor: usize, len: usize) -> (r: usize)
    ensures
        r == if cursor + 1 < len {
            cursor + 1
        } else {
            cursor as int
        },
{
    if cursor < len && len - cursor > 1 {
        cursor + 1
    } else {
        cursor
    }
}

/// More items are loaded when there are more and the cursor comes within
/// `threshold` items of the end of the list.
pub open spec fn spec_needs_more(has_more: bool, cursor: int, len: int, threshold: int) -> bool {
    has_more && cursor + threshold >= len
}

pub fn needs_more(has_more: bool, cursor: usize, len: usize, threshold: usize) -> (r: bool)
    ensures
        r == spec_needs_more(has_more, cursor as int, len as int, threshold as int),
{
    has_more && (cursor >= len || len - cursor <= threshold)
}

/// The texts of a list of strings.
pub open spec fn texts(v: Seq<String>) -> Seq<Seq<char>> {
    v.map_values(|x: String| x@)
}

/// A key read from the terminal, as the prompts tell keys apart.
#[derive(Debug)]
pub enum PromptKey {
    Up,
    Down,
    Enter,
    Escape,
    Backspace,
    Char(char),
    Other,
}

/// `char::is_control`: the control codes U+0000 to U+001F and U+007F to U+009F.
pub open spec fn is_control(c: char) -> bool {
    (c as u32) < 0x20 || (0x7f <= (c as u32) && (c as u32) <= 0x9f)
}

/// Whether a typed character is a control code, which the prompts ignore.
pub fn char_is_control(c: char) -> (r: bool)
    ensures
        r == is_control(c),
{
    let code = c as u32;
    code < 0x20 || (0x7f <= code && code <= 0x9f)
}

/// The cursor never leaves the list, whatever the keys pressed.
pub proof fn lemma_cursor_stays_in_list(cursor: int, len: int)
    requires
        0 <= cursor < len,
    ensures
        0 <= (if cursor == 0 { 0 } else { cursor - 1 }) < len,
        0 <= (if cursor + 1 < len { cursor + 1 } else { cursor }) < len,
{
}

/// Whatever the cursor and the former view, the new view shows the cursor.
pub proof fn lemma_scroll_keeps_cursor_in_view(cursor: int, offset: int, len: int, max_visible: int)
    requires
        0 <= cursor < len,
        0 <= offset,
        max_visible > 0,
    ensures
        ({
            let v = spec_visible(len as nat, max_visible as nat) as int;
            let o = spec_scroll_offset(cursor, offset, v);
            o <= cursor < o + v
        }),
{
}

} // verus!
