//! Text and messages of the Windows tray icon: UTF-16 text with a closing
//! NUL, the tooltip buffer, and the event a tray message carries.
use vstd::prelude::*;

verus! {

/// The UTF-16 code units of one character.
pub open spec fn utf16_unit(c: char) -> Seq<u16> {
    let v = c as u32;
    if v < 0x10000 {
        seq![v as u16]
    } else {
        seq![(0xD800 + (v - 0x10000) / 1024) as u16, (0xDC00 + (v - 0x10000) % 1024) as u16]
    }
}

/// The UTF-16 encoding of a text (`str::encode_utf16`).
pub open spec fn utf16(s: Seq<char>) -> Seq<u16>
    decreases s.len(),
{
    if s.len() == 0 {
        seq![]
    } else {
        utf16(s.drop_last()) + utf16_unit(s.last())
    }
}

/// A text as a NUL-terminated wide string.
pub open spec fn wide_of(s: Seq<char>) -> Seq<u16> {
    utf16(s).push(0)
}

/// The text as UTF-16 with a closing NUL, as Windows APIs take it.
pub fn wide(text: &str) -> (r: Vec<u16>)
    ensures
        r@ == wide_of(text@),
{
    let chars = crate::text::chars_of(text);
    let mut out: Vec<u16> = Vec::new();
    let mut i: usize = 0;
    while i < chars.len()
        invariant
            i <= chars@.len(),
            chars@ == text@,
            out@ == utf16(chars@.take(i as int)),
        decreases chars@.len() - i,
    {
        let c = chars[i];
        let v = c as u32;
        proof {
            assert(chars@.take(i + 1).drop_last() =~= chars@.take(i as int));
            assert(chars@.take(i + 1).last() == c);
        }
        if v < 0x10000 {
            out.push(v as u16);
        } else {
            let w = v - 0x10000;
            out.push((0xD800 + w / 1024) as u16);
            out.push((0xDC00 + w % 1024) as u16);
        }
        proof {
            assert(out@ =~= utf16(chars@.take(i + 1)));
        }
        i = i + 1;
    }
    assert(chars@.take(chars@.len() as int) =~= chars@);
    out.push(0);
    out
}

/// How many code units of `wide_of(text)` fit in a buffer of `len` units
/// that must keep its last unit.
pub open spec fn tip_units(text: Seq<char>, len: nat) -> int {
    let room = if len == 0 {
        0
    } else {
        len - 1
    };
    if wide_of(text).len() < room {
        wide_of(text).len() as int
    } else {
        room as int
    }
}

/// Copies the wide form of `text` into the front of `target`, leaving at
/// least its last unit as it was (the tooltip buffer of a tray icon).
pub fn write_tip(target: &mut [u16], text: &str)
    ensures
        final(target)@ == wide_of(text@).take(tip_units(text@, old(target)@.len())) + old(target)@.skip(
            tip_units(text@, old(target)@.len()),
        ),
{
    let encoded = wide(text);
    let room = if target.len() == 0 {
        0
    } else {
        target.len() - 1
    };
    let n = if encoded.len() < room {
        encoded.len()
    } else {
        room
    };
    let ghost before = target@;
    let mut i: usize = 0;
    while i < n
        invariant
            i <= n,
            n <= encoded@.len(),
            n <= before.len(),
            target@.len() == before.len(),
            forall|k: int| 0 <= k < i ==> target@[k] == encoded@[k],
            forall|k: int| i <= k < before.len() ==> target@[k] == before[k],
        decreases n - i,
    {
        target[i] = encoded[i];
        i = i + 1;
    }
    assert(target@ =~= encoded@.take(n as int) + before.skip(n as int));
}

/// The mouse message a tray callback carries: the low word when it is a
/// context-menu or right-button-up message, the whole value otherwise.
pub open spec fn tray_event_of(lparam: isize) -> u32 {
    let raw = lparam as u32;
    let low = raw & 0xffff;
    if low == 0x007B || low == 0x0205 {
        low
    } else {
        raw
    }
}

/// The tray event in a callback's `lparam`.
pub fn tray_event_from_lparam(lparam: isize) -> (r: u32)
    ensures
        r == tray_event_of(lparam),
{
    let raw = lparam as u32;
    let low_word = raw & 0xffff;
    if low_word == 0x007B || low_word == 0x0205 {
        low_word
    } else {
        raw
    }
}

/// Half of an integer rounded toward zero, as Rust's `/ 2` gives it.
pub open spec fn half_toward_zero(d: int) -> int {
    if d >= 0 {
        d / 2
    } else {
        -((-d) / 2)
    }
}

/// The cursor stands above the middle of its monitor, given the monitor's
/// top and bottom edges where the system reports them; otherwise above half
/// the screen height, and never where that height is not positive.
pub open spec fn cursor_upper_half(cursor_y: i32, monitor: Option<(i32, i32)>, screen_height: i32) -> bool {
    match monitor {
        Some((top, bottom)) => cursor_y < top + half_toward_zero(bottom - top),
        None => screen_height > 0 && cursor_y < screen_height / 2,
    }
}

/// Whether the tray menu opens downward from the cursor: the cursor is in
/// the upper half of its monitor (or of the screen).
pub fn is_cursor_in_upper_half(cursor_y: i32, monitor: Option<(i32, i32)>, screen_height: i32) -> (b: bool)
    ensures
        b == cursor_upper_half(cursor_y, monitor, screen_height),
{
    match monitor {
        Some((top, bottom)) => {
            let d: i64 = bottom as i64 - top as i64;
            let half: i64 = if d >= 0 {
                d / 2
            } else {
                -((-d) / 2)
            };
            (cursor_y as i64) < top as i64 + half
        },
        None => screen_height > 0 && cursor_y < screen_height / 2,
    }
}

} // verus!
