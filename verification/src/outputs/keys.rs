//! Resolution of logical key names to physical keys.
//!
//! A name is put in upper case and looked up in a fixed table. A single
//! ASCII character that the table does not hold names its layout key.

use crate::sink::Key;
use crate::text::{chars_are, chars_of};
use vstd::prelude::*;

verus! {

/// The upper-case form of a text, as `str::to_uppercase` of the standard
/// library computes it from the Unicode case tables.
pub uninterp spec fn uppercase_of(text: Seq<char>) -> Seq<char>;

/// Calls `str::to_uppercase`. The contract gives the result the name
/// `uppercase_of` and claims nothing else of it.
#[verifier::external_body]
fn to_uppercase(name: &str) -> (r: String)
    ensures
        r@ == uppercase_of(name@),
{
    name.to_uppercase()
}

/// The key table: each name, in upper case, with its physical key. The
/// function keys above `F12` and the right-hand modifiers go by platform
/// key code.
pub open spec fn key_rows() -> Seq<(Seq<char>, Key)> {
    seq![
        ("F1"@, Key::F1),
        ("F2"@, Key::F2),
        ("F3"@, Key::F3),
        ("F4"@, Key::F4),
        ("F5"@, Key::F5),
        ("F6"@, Key::F6),
        ("F7"@, Key::F7),
        ("F8"@, Key::F8),
        ("F9"@, Key::F9),
        ("F10"@, Key::F10),
        ("F11"@, Key::F11),
        ("F12"@, Key::F12),
        ("F13"@, Key::Raw(0x7C)),
        ("F14"@, Key::Raw(0x7D)),
        ("F15"@, Key::Raw(0x7E)),
        ("F16"@, Key::Raw(0x7F)),
        ("F17"@, Key::Raw(0x80)),
        ("F18"@, Key::Raw(0x81)),
        ("F19"@, Key::Raw(0x82)),
        ("F20"@, Key::Raw(0x83)),
        ("F21"@, Key::Raw(0x84)),
        ("F22"@, Key::Raw(0x85)),
        ("F23"@, Key::Raw(0x86)),
        ("F24"@, Key::Raw(0x87)),
        ("SHIFT"@, Key::Shift),
        ("LEFTSHIFT"@, Key::Shift),
        ("RIGHTSHIFT"@, Key::Raw(0xA1)),
        ("CONTROL"@, Key::Control),
        ("LEFTCONTROL"@, Key::Control),
        ("CTRL"@, Key::Control),
        ("RIGHTCONTROL"@, Key::Raw(0xA3)),
        ("RIGHTCTRL"@, Key::Raw(0xA3)),
        ("ALT"@, Key::Alt),
        ("LEFTALT"@, Key::Alt),
        ("RIGHTALT"@, Key::Raw(0xA5)),
        ("ESCAPE"@, Key::Escape),
        ("ESC"@, Key::Escape),
        ("RETURN"@, Key::Return),
        ("ENTER"@, Key::Return),
        ("TAB"@, Key::Tab),
        ("SPACE"@, Key::Space),
        ("BACKSPACE"@, Key::Backspace),
        ("DELETE"@, Key::Delete),
        ("HOME"@, Key::Home),
        ("END"@, Key::End),
        ("PAGEUP"@, Key::PageUp),
        ("PAGEDOWN"@, Key::PageDown),
        ("UP"@, Key::UpArrow),
        ("UPARROW"@, Key::UpArrow),
        ("DOWN"@, Key::DownArrow),
        ("DOWNARROW"@, Key::DownArrow),
        ("LEFT"@, Key::LeftArrow),
        ("LEFTARROW"@, Key::LeftArrow),
        ("RIGHT"@, Key::RightArrow),
        ("RIGHTARROW"@, Key::RightArrow),
        ("CAPSLOCK"@, Key::CapsLock),
    ]
}

/// The key of the first row of `rows` that is named `name`.
pub open spec fn row_named(rows: Seq<(Seq<char>, Key)>, name: Seq<char>) -> Option<Key>
    decreases rows.len(),
{
    if rows.len() == 0 {
        None
    } else if rows.first().0 == name {
        Some(rows.first().1)
    } else {
        row_named(rows.drop_first(), name)
    }
}

/// The lower-case form of an ASCII letter; any other character as it is.
pub open spec fn ascii_lower(c: char) -> char {
    if 'A' <= c <= 'Z' {
        ((c as u8 + 32) as u8) as char
    } else {
        c
    }
}

/// The physical key for a key name in upper case: the key of its row in
/// the table, or else the layout key of a single ASCII character, in
/// lower case.
pub open spec fn key_for_upper_spec(upper: Seq<char>) -> Option<Key> {
    if row_named(key_rows(), upper) is Some {
        row_named(key_rows(), upper)
    } else if upper.len() == 1 && (upper[0] as u32) < 128 {
        Some(Key::Layout(ascii_lower(upper[0])))
    } else {
        None
    }
}

/// The physical key for a key name: that of its upper-case form.
pub open spec fn resolve(name: Seq<char>) -> Option<Key> {
    key_for_upper_spec(uppercase_of(name))
}

/// The texts of the rows of a table.
pub open spec fn rows_of(table: Seq<(&'static str, Key)>) -> Seq<(Seq<char>, Key)> {
    table.map_values(|row: (&'static str, Key)| (row.0@, row.1))
}

/// The key table.
pub fn key_table() -> (table: Vec<(&'static str, Key)>)
    ensures
        rows_of(table@) == key_rows(),
{
    let table = vec![
        ("F1", Key::F1),
        ("F2", Key::F2),
        ("F3", Key::F3),
        ("F4", Key::F4),
        ("F5", Key::F5),
        ("F6", Key::F6),
        ("F7", Key::F7),
        ("F8", Key::F8),
        ("F9", Key::F9),
        ("F10", Key::F10),
        ("F11", Key::F11),
        ("F12", Key::F12),
        ("F13", Key::Raw(0x7C)),
        ("F14", Key::Raw(0x7D)),
        ("F15", Key::Raw(0x7E)),
        ("F16", Key::Raw(0x7F)),
        ("F17", Key::Raw(0x80)),
        ("F18", Key::Raw(0x81)),
        ("F19", Key::Raw(0x82)),
        ("F20", Key::Raw(0x83)),
        ("F21", Key::Raw(0x84)),
        ("F22", Key::Raw(0x85)),
        ("F23", Key::Raw(0x86)),
        ("F24", Key::Raw(0x87)),
        ("SHIFT", Key::Shift),
        ("LEFTSHIFT", Key::Shift),
        ("RIGHTSHIFT", Key::Raw(0xA1)),
        ("CONTROL", Key::Control),
        ("LEFTCONTROL", Key::Control),
        ("CTRL", Key::Control),
        ("RIGHTCONTROL", Key::Raw(0xA3)),
        ("RIGHTCTRL", Key::Raw(0xA3)),
        ("ALT", Key::Alt),
        ("LEFTALT", Key::Alt),
        ("RIGHTALT", Key::Raw(0xA5)),
        ("ESCAPE", Key::Escape),
        ("ESC", Key::Escape),
        ("RETURN", Key::Return),
        ("ENTER", Key::Return),
        ("TAB", Key::Tab),
        ("SPACE", Key::Space),
        ("BACKSPACE", Key::Backspace),
        ("DELETE", Key::Delete),
        ("HOME", Key::Home),
        ("END", Key::End),
        ("PAGEUP", Key::PageUp),
        ("PAGEDOWN", Key::PageDown),
        ("UP", Key::UpArrow),
        ("UPARROW", Key::UpArrow),
        ("DOWN", Key::DownArrow),
        ("DOWNARROW", Key::DownArrow),
        ("LEFT", Key::LeftArrow),
        ("LEFTARROW", Key::LeftArrow),
        ("RIGHT", Key::RightArrow),
        ("RIGHTARROW", Key::RightArrow),
        ("CAPSLOCK", Key::CapsLock),
    ];
    assert(rows_of(table@) =~= key_rows());
    table
}

/// The physical key for a key name that is already in upper case.
pub fn key_for_upper(upper: &str) -> (r: Option<Key>)
    ensures
        r == key_for_upper_spec(upper@),
{
    let name = chars_of(upper);
    let table = key_table();
    let ghost rows = rows_of(table@);
    let n = table.len();
    let mut i: usize = 0;
    assert(rows.skip(0) == rows);
    while i < n
        invariant
            i <= n,
            n == table@.len(),
            rows == rows_of(table@),
            rows == key_rows(),
            name@ == upper@,
            row_named(rows, name@) == row_named(rows.skip(i as int), name@),
        decreases n - i,
    {
        assert(rows.skip(i as int).drop_first() == rows.skip(i + 1));
        assert(rows[i as int] == (table@[i as int].0@, table@[i as int].1));
        if chars_are(&name, table[i].0) {
            return Some(table[i].1);
        }
        i += 1;
    }
    if name.len() == 1 && (name[0] as u32) < 128 {
        let c = name[0];
        let lower = if 'A' <= c && c <= 'Z' {
            (c as u8 + 32) as char
        } else {
            c
        };
        Some(Key::Layout(lower))
    } else {
        None
    }
}

/// The physical key for a key name, whatever its case.
pub fn resolve_key(name: &str) -> (r: Option<Key>)
    ensures
        r == resolve(name@),
{
    let upper = to_uppercase(name);
    key_for_upper(upper.as_str())
}

} // verus!
