//! Key names as the host reports them, and the PC XT ("set 1") scancodes that
//! SPICE's inputs channel expects for them.
//!
//! Extended keys (arrows, the navigation cluster, the right-hand modifiers) are
//! the codes with the prefix 0xE0; SPICE carries such a code as one value with
//! the prefix in its high byte.

use vstd::prelude::*;
use vstd::string::*;

use crate::text::same;

verus! {

/// The prefix of the extended keys, in the high byte.
pub const EXT: u32 = 0xE000;

/// The numpad's own `+`: a key by itself, typed without Shift.
pub const KP_PLUS: u32 = 0x4E;

/// The numpad's own `*`.
pub const KP_ASTERISK: u32 = 0x37;

/// The scancode of the key that types a character.
pub open spec fn char_code(c: char) -> Option<u32> {
    match c {
        // Letters
        'a' => Some(0x1E),
        'b' => Some(0x30),
        'c' => Some(0x2E),
        'd' => Some(0x20),
        'e' => Some(0x12),
        'f' => Some(0x21),
        'g' => Some(0x22),
        'h' => Some(0x23),
        'i' => Some(0x17),
        'j' => Some(0x24),
        'k' => Some(0x25),
        'l' => Some(0x26),
        'm' => Some(0x32),
        'n' => Some(0x31),
        'o' => Some(0x18),
        'p' => Some(0x19),
        'q' => Some(0x10),
        'r' => Some(0x13),
        's' => Some(0x1F),
        't' => Some(0x14),
        'u' => Some(0x16),
        'v' => Some(0x2F),
        'w' => Some(0x11),
        'x' => Some(0x2D),
        'y' => Some(0x15),
        'z' => Some(0x2C),
        // Digits
        '1' => Some(0x02),
        '2' => Some(0x03),
        '3' => Some(0x04),
        '4' => Some(0x05),
        '5' => Some(0x06),
        '6' => Some(0x07),
        '7' => Some(0x08),
        '8' => Some(0x09),
        '9' => Some(0x0A),
        '0' => Some(0x0B),
        // Punctuation
        '-' => Some(0x0C),
        '=' => Some(0x0D),
        '[' => Some(0x1A),
        ']' => Some(0x1B),
        '\\' => Some(0x2B),
        ';' => Some(0x27),
        '\'' => Some(0x28),
        '`' => Some(0x29),
        ',' => Some(0x33),
        '.' => Some(0x34),
        '/' => Some(0x35),
        // Shifted punctuation
        // Only letters arrive with Shift still reported; of every other key the
        // host reports the shifted glyph, so Shift-1 arrives as `!`. Each stands
        // for the key that types it, and Shift itself travels on its own.
        '!' => Some(0x02),
        '@' => Some(0x03),
        '#' => Some(0x04),
        '$' => Some(0x05),
        '%' => Some(0x06),
        '^' => Some(0x07),
        '&' => Some(0x08),
        '*' => Some(0x09),
        '(' => Some(0x0A),
        ')' => Some(0x0B),
        '_' => Some(0x0C),
        '+' => Some(0x0D),
        '{' => Some(0x1A),
        '}' => Some(0x1B),
        '|' => Some(0x2B),
        ':' => Some(0x27),
        '"' => Some(0x28),
        '~' => Some(0x29),
        '<' => Some(0x33),
        '>' => Some(0x34),
        '?' => Some(0x35),
        _ => None,
    }
}

/// The scancode of a key with a name of its own.
pub open spec fn named_code(key: Seq<char>) -> Option<u32> {
    if key == "space"@ {
        Some(0x39u32)
    } else if key == "enter"@ {
        Some(0x1Cu32)
    } else if key == "tab"@ {
        Some(0x0Fu32)
    } else if key == "backspace"@ {
        Some(0x0Eu32)
    } else if key == "escape"@ {
        Some(0x01u32)
    } else if key == "capslock"@ {
        Some(0x3Au32)
    } else if key == "scrolllock"@ {
        Some(0x46u32)
    } else if key == "f1"@ {
        Some(0x3Bu32)
    } else if key == "f2"@ {
        Some(0x3Cu32)
    } else if key == "f3"@ {
        Some(0x3Du32)
    } else if key == "f4"@ {
        Some(0x3Eu32)
    } else if key == "f5"@ {
        Some(0x3Fu32)
    } else if key == "f6"@ {
        Some(0x40u32)
    } else if key == "f7"@ {
        Some(0x41u32)
    } else if key == "f8"@ {
        Some(0x42u32)
    } else if key == "f9"@ {
        Some(0x43u32)
    } else if key == "f10"@ {
        Some(0x44u32)
    } else if key == "f11"@ {
        Some(0x57u32)
    } else if key == "f12"@ {
        Some(0x58u32)
    } else if key == "f13"@ {
        Some(0x64u32)
    } else if key == "f14"@ {
        Some(0x65u32)
    } else if key == "f15"@ {
        Some(0x66u32)
    } else if key == "f16"@ {
        Some(0x67u32)
    } else if key == "f17"@ {
        Some(0x68u32)
    } else if key == "f18"@ {
        Some(0x69u32)
    } else if key == "f19"@ {
        Some(0x6Au32)
    } else if key == "f20"@ {
        Some(0x6Bu32)
    } else if key == "f21"@ {
        Some(0x6Cu32)
    } else if key == "f22"@ {
        Some(0x6Du32)
    } else if key == "f23"@ {
        Some(0x6Eu32)
    } else if key == "f24"@ {
        Some(0x76u32)
    } else if key == "shift"@ {
        Some(0x2Au32)
    } else if key == "ctrl"@ {
        Some(0x1Du32)
    } else if key == "control"@ {
        Some(0x1Du32)
    } else if key == "alt"@ {
        Some(0x38u32)
    } else if key == "cmd"@ {
        Some((EXT + 0x5B) as u32)
    } else if key == "super"@ {
        Some((EXT + 0x5B) as u32)
    } else if key == "win"@ {
        Some((EXT + 0x5B) as u32)
    } else if key == "platform"@ {
        Some((EXT + 0x5B) as u32)
    } else if key == "menu"@ {
        Some((EXT + 0x5D) as u32)
    } else if key == "up"@ {
        Some((EXT + 0x48) as u32)
    } else if key == "down"@ {
        Some((EXT + 0x50) as u32)
    } else if key == "left"@ {
        Some((EXT + 0x4B) as u32)
    } else if key == "right"@ {
        Some((EXT + 0x4D) as u32)
    } else if key == "home"@ {
        Some((EXT + 0x47) as u32)
    } else if key == "end"@ {
        Some((EXT + 0x4F) as u32)
    } else if key == "pageup"@ {
        Some((EXT + 0x49) as u32)
    } else if key == "pagedown"@ {
        Some((EXT + 0x51) as u32)
    } else if key == "insert"@ {
        Some((EXT + 0x52) as u32)
    } else if key == "delete"@ {
        Some((EXT + 0x53) as u32)
    } else {
        None
    }
}

/// The scancode of a key: one character stands for the key that types it,
/// anything longer is the name of a key.
pub open spec fn scancode(key: Seq<char>) -> Option<u32> {
    if key.len() == 1 {
        char_code(key[0])
    } else {
        named_code(key)
    }
}

fn code_of_char(c: char) -> (r: Option<u32>)
    ensures
        r == char_code(c),
{
    match c {
        // Letters
        'a' => Some(0x1E),
        'b' => Some(0x30),
        'c' => Some(0x2E),
        'd' => Some(0x20),
        'e' => Some(0x12),
        'f' => Some(0x21),
        'g' => Some(0x22),
        'h' => Some(0x23),
        'i' => Some(0x17),
        'j' => Some(0x24),
        'k' => Some(0x25),
        'l' => Some(0x26),
        'm' => Some(0x32),
        'n' => Some(0x31),
        'o' => Some(0x18),
        'p' => Some(0x19),
        'q' => Some(0x10),
        'r' => Some(0x13),
        's' => Some(0x1F),
        't' => Some(0x14),
        'u' => Some(0x16),
        'v' => Some(0x2F),
        'w' => Some(0x11),
        'x' => Some(0x2D),
        'y' => Some(0x15),
        'z' => Some(0x2C),
        // Digits
        '1' => Some(0x02),
        '2' => Some(0x03),
        '3' => Some(0x04),
        '4' => Some(0x05),
        '5' => Some(0x06),
        '6' => Some(0x07),
        '7' => Some(0x08),
        '8' => Some(0x09),
        '9' => Some(0x0A),
        '0' => Some(0x0B),
        // Punctuation
        '-' => Some(0x0C),
        '=' => Some(0x0D),
        '[' => Some(0x1A),
        ']' => Some(0x1B),
        '\\' => Some(0x2B),
        ';' => Some(0x27),
        '\'' => Some(0x28),
        '`' => Some(0x29),
        ',' => Some(0x33),
        '.' => Some(0x34),
        '/' => Some(0x35),
        // Shifted punctuation
        // Only letters arrive with Shift still reported; of every other key the
        // host reports the shifted glyph, so Shift-1 arrives as `!`. Each stands
        // for the key that types it, and Shift itself travels on its own.
        '!' => Some(0x02),
        '@' => Some(0x03),
        '#' => Some(0x04),
        '$' => Some(0x05),
        '%' => Some(0x06),
        '^' => Some(0x07),
        '&' => Some(0x08),
        '*' => Some(0x09),
        '(' => Some(0x0A),
        ')' => Some(0x0B),
        '_' => Some(0x0C),
        '+' => Some(0x0D),
        '{' => Some(0x1A),
        '}' => Some(0x1B),
        '|' => Some(0x2B),
        ':' => Some(0x27),
        '"' => Some(0x28),
        '~' => Some(0x29),
        '<' => Some(0x33),
        '>' => Some(0x34),
        '?' => Some(0x35),
        _ => None,
    }
}

fn code_of_name(key: &str) -> (r: Option<u32>)
    ensures
        r == named_code(key@),
{
    if same(key, "space") {
        Some(0x39)
    } else if same(key, "enter") {
        Some(0x1C)
    } else if same(key, "tab") {
        Some(0x0F)
    } else if same(key, "backspace") {
        Some(0x0E)
    } else if same(key, "escape") {
        Some(0x01)
    } else if same(key, "capslock") {
        Some(0x3A)
    } else if same(key, "scrolllock") {
        Some(0x46)
    } else if same(key, "f1") {
        Some(0x3B)
    } else if same(key, "f2") {
        Some(0x3C)
    } else if same(key, "f3") {
        Some(0x3D)
    } else if same(key, "f4") {
        Some(0x3E)
    } else if same(key, "f5") {
        Some(0x3F)
    } else if same(key, "f6") {
        Some(0x40)
    } else if same(key, "f7") {
        Some(0x41)
    } else if same(key, "f8") {
        Some(0x42)
    } else if same(key, "f9") {
        Some(0x43)
    } else if same(key, "f10") {
        Some(0x44)
    } else if same(key, "f11") {
        Some(0x57)
    } else if same(key, "f12") {
        Some(0x58)
    } else if same(key, "f13") {
        Some(0x64)
    } else if same(key, "f14") {
        Some(0x65)
    } else if same(key, "f15") {
        Some(0x66)
    } else if same(key, "f16") {
        Some(0x67)
    } else if same(key, "f17") {
        Some(0x68)
    } else if same(key, "f18") {
        Some(0x69)
    } else if same(key, "f19") {
        Some(0x6A)
    } else if same(key, "f20") {
        Some(0x6B)
    } else if same(key, "f21") {
        Some(0x6C)
    } else if same(key, "f22") {
        Some(0x6D)
    } else if same(key, "f23") {
        Some(0x6E)
    } else if same(key, "f24") {
        Some(0x76)
    } else if same(key, "shift") {
        Some(0x2A)
    } else if same(key, "ctrl") {
        Some(0x1D)
    } else if same(key, "control") {
        Some(0x1D)
    } else if same(key, "alt") {
        Some(0x38)
    } else if same(key, "cmd") {
        Some(EXT + 0x5B)
    } else if same(key, "super") {
        Some(EXT + 0x5B)
    } else if same(key, "win") {
        Some(EXT + 0x5B)
    } else if same(key, "platform") {
        Some(EXT + 0x5B)
    } else if same(key, "menu") {
        Some(EXT + 0x5D)
    } else if same(key, "up") {
        Some(EXT + 0x48)
    } else if same(key, "down") {
        Some(EXT + 0x50)
    } else if same(key, "left") {
        Some(EXT + 0x4B)
    } else if same(key, "right") {
        Some(EXT + 0x4D)
    } else if same(key, "home") {
        Some(EXT + 0x47)
    } else if same(key, "end") {
        Some(EXT + 0x4F)
    } else if same(key, "pageup") {
        Some(EXT + 0x49)
    } else if same(key, "pagedown") {
        Some(EXT + 0x51)
    } else if same(key, "insert") {
        Some(EXT + 0x52)
    } else if same(key, "delete") {
        Some(EXT + 0x53)
    } else {
        None
    }
}

/// The scancode of a key, `None` for a key that has none.
pub fn scancode_for(key: &str) -> (r: Option<u32>)
    ensures
        r == scancode(key@),
{
    if key.unicode_len() == 1 {
        code_of_char(key.get_char(0))
    } else {
        code_of_name(key)
    }
}

/// What the US layout types with Shift held, for the keys that are no letters.
pub open spec fn shifted(c: char) -> Option<char> {
    match c {
        '`' => Some('~'),
        '1' => Some('!'),
        '2' => Some('@'),
        '3' => Some('#'),
        '4' => Some('$'),
        '5' => Some('%'),
        '6' => Some('^'),
        '7' => Some('&'),
        '8' => Some('*'),
        '9' => Some('('),
        '0' => Some(')'),
        '-' => Some('_'),
        '=' => Some('+'),
        '[' => Some('{'),
        ']' => Some('}'),
        '\\' => Some('|'),
        ';' => Some(':'),
        '\'' => Some('"'),
        ',' => Some('<'),
        '.' => Some('>'),
        '/' => Some('?'),
        _ => None,
    }
}

/// The characters that the US layout types without Shift.
pub open spec fn unshifted(c: char) -> bool {
    'a' <= c <= 'z' || shifted(c) is Some
}

/// A shifted symbol is sent as the key that types it: `!` as the key `1`.
pub proof fn shifted_shares_the_key(c: char)
    requires
        shifted(c) is Some,
    ensures
        char_code(c) is Some,
        char_code(shifted(c).unwrap()) == char_code(c),
{
}

/// Every key that types a character has a scancode of its own.
pub proof fn character_keys_are_distinct(c: char, d: char)
    requires
        unshifted(c),
        unshifted(d),
        char_code(c) == char_code(d),
    ensures
        char_code(c) is Some,
        c == d,
{
}

/// Every scancode is a plain code below 0x80 or such a code behind the prefix
/// of the extended keys.
pub proof fn codes_are_plain_or_extended(key: Seq<char>)
    requires
        scancode(key) is Some,
    ensures
        0 < scancode(key).unwrap() < 0x80 || EXT < scancode(key).unwrap() < EXT + 0x80,
{
}

/// A key with a name never has the scancode of a key that types a character.
pub proof fn named_keys_are_apart(c: char, key: Seq<char>)
    requires
        char_code(c) is Some,
    ensures
        named_code(key) != char_code(c),
{
}

/// No key of the main block has one of the numpad's codes.
pub proof fn numpad_codes_are_apart(key: Seq<char>)
    ensures
        scancode(key) != Some(KP_PLUS),
        scancode(key) != Some(KP_ASTERISK),
{
}

/// The codes of the keys that are sent without being typed: the modifiers, Caps
/// Lock and Delete.
pub proof fn codes_of_control_keys()
    ensures
        scancode("control"@) == Some(0x1Du32),
        scancode("alt"@) == Some(0x38u32),
        scancode("shift"@) == Some(0x2Au32),
        scancode("capslock"@) == Some(0x3Au32),
        scancode("delete"@) == Some(0xE053u32),
{
    reveal_strlit("space");
    reveal_strlit("enter");
    reveal_strlit("tab");
    reveal_strlit("backspace");
    reveal_strlit("escape");
    reveal_strlit("capslock");
    reveal_strlit("scrolllock");
    reveal_strlit("f1");
    reveal_strlit("f2");
    reveal_strlit("f3");
    reveal_strlit("f4");
    reveal_strlit("f5");
    reveal_strlit("f6");
    reveal_strlit("f7");
    reveal_strlit("f8");
    reveal_strlit("f9");
    reveal_strlit("f10");
    reveal_strlit("f11");
    reveal_strlit("f12");
    reveal_strlit("f13");
    reveal_strlit("f14");
    reveal_strlit("f15");
    reveal_strlit("f16");
    reveal_strlit("f17");
    reveal_strlit("f18");
    reveal_strlit("f19");
    reveal_strlit("f20");
    reveal_strlit("f21");
    reveal_strlit("f22");
    reveal_strlit("f23");
    reveal_strlit("f24");
    reveal_strlit("shift");
    reveal_strlit("ctrl");
    reveal_strlit("control");
    reveal_strlit("alt");
    reveal_strlit("cmd");
    reveal_strlit("super");
    reveal_strlit("win");
    reveal_strlit("platform");
    reveal_strlit("menu");
    reveal_strlit("up");
    reveal_strlit("down");
    reveal_strlit("left");
    reveal_strlit("right");
    reveal_strlit("home");
    reveal_strlit("end");
    reveal_strlit("pageup");
    reveal_strlit("pagedown");
    reveal_strlit("insert");
    reveal_strlit("delete");
    assert("shift"@[1] == 'h' && "space"@[1] == 'p');
}

// ---------------------------------------------------------------------------
// The keyboard
// ---------------------------------------------------------------------------

proof fn digits_row(i: int)
    requires
        0 <= i < 12,
    ensures
        "1234567890-="@.len() == 12,
        char_code("1234567890-="@[i]) == Some((0x02 + i) as u32),
{
    reveal_strlit("1234567890-=");
    assert(i == 0 || i == 1 || i == 2 || i == 3 || i == 4 || i == 5 || i == 6 || i == 7 || i == 8 || i == 9 || i == 10 || i == 11);
}

proof fn top_row(i: int)
    requires
        0 <= i < 12,
    ensures
        "qwertyuiop[]"@.len() == 12,
        char_code("qwertyuiop[]"@[i]) == Some((0x10 + i) as u32),
{
    reveal_strlit("qwertyuiop[]");
    assert(i == 0 || i == 1 || i == 2 || i == 3 || i == 4 || i == 5 || i == 6 || i == 7 || i == 8 || i == 9 || i == 10 || i == 11);
}

proof fn home_row(i: int)
    requires
        0 <= i < 12,
    ensures
        "asdfghjkl;'`"@.len() == 12,
        char_code("asdfghjkl;'`"@[i]) == Some((0x1E + i) as u32),
{
    reveal_strlit("asdfghjkl;'`");
    assert(i == 0 || i == 1 || i == 2 || i == 3 || i == 4 || i == 5 || i == 6 || i == 7 || i == 8 || i == 9 || i == 10 || i == 11);
}

proof fn bottom_row(i: int)
    requires
        0 <= i < 11,
    ensures
        "\\zxcvbnm,./"@.len() == 11,
        char_code("\\zxcvbnm,./"@[i]) == Some((0x2B + i) as u32),
{
    reveal_strlit("\\zxcvbnm,./");
    assert(i == 0 || i == 1 || i == 2 || i == 3 || i == 4 || i == 5 || i == 6 || i == 7 || i == 8 || i == 9 || i == 10);
}

/// Keys are sent by their place on the keyboard: the codes run along each row,
/// from one key to the next.
pub proof fn codes_run_along_the_rows(i: int)
    ensures
        0 <= i < 12 ==> scancode(seq!["1234567890-="@[i]]) == Some((0x02 + i) as u32),
        0 <= i < 12 ==> scancode(seq!["qwertyuiop[]"@[i]]) == Some((0x10 + i) as u32),
        0 <= i < 12 ==> scancode(seq!["asdfghjkl;'`"@[i]]) == Some((0x1E + i) as u32),
        0 <= i < 11 ==> scancode(seq!["\\zxcvbnm,./"@[i]]) == Some((0x2B + i) as u32),
{
    if 0 <= i < 12 {
        digits_row(i);
    }
    if 0 <= i < 12 {
        top_row(i);
    }
    if 0 <= i < 12 {
        home_row(i);
    }
    if 0 <= i < 11 {
        bottom_row(i);
    }
}

proof fn shifted_keys_a(i: int)
    requires
        0 <= i < 12,
    ensures
        "!@#$%^&*()_+"@.len() == 12,
        char_code("!@#$%^&*()_+"@[i]) == Some((0x02 + i) as u32),
{
    reveal_strlit("!@#$%^&*()_+");
    assert(i == 0 || i == 1 || i == 2 || i == 3 || i == 4 || i == 5 || i == 6 || i == 7 || i == 8 || i == 9 || i == 10 || i == 11);
}

proof fn shifted_keys_b(i: int)
    requires
        0 <= i < 2,
    ensures
        "{}"@.len() == 2,
        char_code("{}"@[i]) == Some((0x1A + i) as u32),
{
    reveal_strlit("{}");
    assert(i == 0 || i == 1);
}

proof fn shifted_keys_c(i: int)
    requires
        0 <= i < 3,
    ensures
        ":\"~"@.len() == 3,
        char_code(":\"~"@[i]) == Some((0x27 + i) as u32),
{
    reveal_strlit(":\"~");
    assert(i == 0 || i == 1 || i == 2);
}

proof fn shifted_keys_d(i: int)
    requires
        0 <= i < 1,
    ensures
        "|"@.len() == 1,
        char_code("|"@[i]) == Some((0x2B + i) as u32),
{
    reveal_strlit("|");
    assert(i == 0);
}

proof fn shifted_keys_e(i: int)
    requires
        0 <= i < 3,
    ensures
        "<>?"@.len() == 3,
        char_code("<>?"@[i]) == Some((0x33 + i) as u32),
{
    reveal_strlit("<>?");
    assert(i == 0 || i == 1 || i == 2);
}

/// What the keys type with Shift is sent by the same places.
pub proof fn shifted_codes_run_along_the_rows(i: int)
    ensures
        0 <= i < 12 ==> scancode(seq!["!@#$%^&*()_+"@[i]]) == Some((0x02 + i) as u32),
        0 <= i < 2 ==> scancode(seq!["{}"@[i]]) == Some((0x1A + i) as u32),
        0 <= i < 3 ==> scancode(seq![":\"~"@[i]]) == Some((0x27 + i) as u32),
        0 <= i < 1 ==> scancode(seq!["|"@[i]]) == Some((0x2B + i) as u32),
        0 <= i < 3 ==> scancode(seq!["<>?"@[i]]) == Some((0x33 + i) as u32),
{
    if 0 <= i < 12 {
        shifted_keys_a(i);
    }
    if 0 <= i < 2 {
        shifted_keys_b(i);
    }
    if 0 <= i < 3 {
        shifted_keys_c(i);
    }
    if 0 <= i < 1 {
        shifted_keys_d(i);
    }
    if 0 <= i < 3 {
        shifted_keys_e(i);
    }
}

/// No other character is a key: what is sent stands on the keyboard, with Shift
/// or without.
pub proof fn only_keys_have_codes(c: char)
    requires
        scancode(seq![c]) is Some,
    ensures
        "1234567890-="@.contains(c)
            || "qwertyuiop[]"@.contains(c)
            || "asdfghjkl;'`"@.contains(c)
            || "\\zxcvbnm,./"@.contains(c)
            || "!@#$%^&*()_+"@.contains(c)
            || "{}"@.contains(c)
            || ":\"~"@.contains(c)
            || "|"@.contains(c)
            || "<>?"@.contains(c),
{
    reveal_strlit("1234567890-=");
    reveal_strlit("qwertyuiop[]");
    reveal_strlit("asdfghjkl;'`");
    reveal_strlit("\\zxcvbnm,./");
    reveal_strlit("!@#$%^&*()_+");
    reveal_strlit("{}");
    reveal_strlit(":\"~");
    reveal_strlit("|");
    reveal_strlit("<>?");
    if c == '1' {
        assert("1234567890-="@[0] == c);
    }
    if c == '2' {
        assert("1234567890-="@[1] == c);
    }
    if c == '3' {
        assert("1234567890-="@[2] == c);
    }
    if c == '4' {
        assert("1234567890-="@[3] == c);
    }
    if c == '5' {
        assert("1234567890-="@[4] == c);
    }
    if c == '6' {
        assert("1234567890-="@[5] == c);
    }
    if c == '7' {
        assert("1234567890-="@[6] == c);
    }
    if c == '8' {
        assert("1234567890-="@[7] == c);
    }
    if c == '9' {
        assert("1234567890-="@[8] == c);
    }
    if c == '0' {
        assert("1234567890-="@[9] == c);
    }
    if c == '-' {
        assert("1234567890-="@[10] == c);
    }
    if c == '=' {
        assert("1234567890-="@[11] == c);
    }
    if c == 'q' {
        assert("qwertyuiop[]"@[0] == c);
    }
    if c == 'w' {
        assert("qwertyuiop[]"@[1] == c);
    }
    if c == 'e' {
        assert("qwertyuiop[]"@[2] == c);
    }
    if c == 'r' {
        assert("qwertyuiop[]"@[3] == c);
    }
    if c == 't' {
        assert("qwertyuiop[]"@[4] == c);
    }
    if c == 'y' {
        assert("qwertyuiop[]"@[5] == c);
    }
    if c == 'u' {
        assert("qwertyuiop[]"@[6] == c);
    }
    if c == 'i' {
        assert("qwertyuiop[]"@[7] == c);
    }
    if c == 'o' {
        assert("qwertyuiop[]"@[8] == c);
    }
    if c == 'p' {
        assert("qwertyuiop[]"@[9] == c);
    }
    if c == '[' {
        assert("qwertyuiop[]"@[10] == c);
    }
    if c == ']' {
        assert("qwertyuiop[]"@[11] == c);
    }
    if c == 'a' {
        assert("asdfghjkl;'`"@[0] == c);
    }
    if c == 's' {
        assert("asdfghjkl;'`"@[1] == c);
    }
    if c == 'd' {
        assert("asdfghjkl;'`"@[2] == c);
    }
    if c == 'f' {
        assert("asdfghjkl;'`"@[3] == c);
    }
    if c == 'g' {
        assert("asdfghjkl;'`"@[4] == c);
    }
    if c == 'h' {
        assert("asdfghjkl;'`"@[5] == c);
    }
    if c == 'j' {
        assert("asdfghjkl;'`"@[6] == c);
    }
    if c == 'k' {
        assert("asdfghjkl;'`"@[7] == c);
    }
    if c == 'l' {
        assert("asdfghjkl;'`"@[8] == c);
    }
    if c == ';' {
        assert("asdfghjkl;'`"@[9] == c);
    }
    if c == '\'' {
        assert("asdfghjkl;'`"@[10] == c);
    }
    if c == '`' {
        assert("asdfghjkl;'`"@[11] == c);
    }
    if c == '\\' {
        assert("\\zxcvbnm,./"@[0] == c);
    }
    if c == 'z' {
        assert("\\zxcvbnm,./"@[1] == c);
    }
    if c == 'x' {
        assert("\\zxcvbnm,./"@[2] == c);
    }
    if c == 'c' {
        assert("\\zxcvbnm,./"@[3] == c);
    }
    if c == 'v' {
        assert("\\zxcvbnm,./"@[4] == c);
    }
    if c == 'b' {
        assert("\\zxcvbnm,./"@[5] == c);
    }
    if c == 'n' {
        assert("\\zxcvbnm,./"@[6] == c);
    }
    if c == 'm' {
        assert("\\zxcvbnm,./"@[7] == c);
    }
    if c == ',' {
        assert("\\zxcvbnm,./"@[8] == c);
    }
    if c == '.' {
        assert("\\zxcvbnm,./"@[9] == c);
    }
    if c == '/' {
        assert("\\zxcvbnm,./"@[10] == c);
    }
    if c == '!' {
        assert("!@#$%^&*()_+"@[0] == c);
    }
    if c == '@' {
        assert("!@#$%^&*()_+"@[1] == c);
    }
    if c == '#' {
        assert("!@#$%^&*()_+"@[2] == c);
    }
    if c == '$' {
        assert("!@#$%^&*()_+"@[3] == c);
    }
    if c == '%' {
        assert("!@#$%^&*()_+"@[4] == c);
    }
    if c == '^' {
        assert("!@#$%^&*()_+"@[5] == c);
    }
    if c == '&' {
        assert("!@#$%^&*()_+"@[6] == c);
    }
    if c == '*' {
        assert("!@#$%^&*()_+"@[7] == c);
    }
    if c == '(' {
        assert("!@#$%^&*()_+"@[8] == c);
    }
    if c == ')' {
        assert("!@#$%^&*()_+"@[9] == c);
    }
    if c == '_' {
        assert("!@#$%^&*()_+"@[10] == c);
    }
    if c == '+' {
        assert("!@#$%^&*()_+"@[11] == c);
    }
    if c == '{' {
        assert("{}"@[0] == c);
    }
    if c == '}' {
        assert("{}"@[1] == c);
    }
    if c == ':' {
        assert(":\"~"@[0] == c);
    }
    if c == '"' {
        assert(":\"~"@[1] == c);
    }
    if c == '~' {
        assert(":\"~"@[2] == c);
    }
    if c == '|' {
        assert("|"@[0] == c);
    }
    if c == '<' {
        assert("<>?"@[0] == c);
    }
    if c == '>' {
        assert("<>?"@[1] == c);
    }
    if c == '?' {
        assert("<>?"@[2] == c);
    }
}

/// The function keys: the first ten run on from one to the next, and so do the two
/// behind them and those up to the last but one.
pub proof fn function_keys_are_numbered()
    ensures
        scancode("f1"@) == Some(0x3Bu32),
        scancode("f2"@) == Some(0x3Cu32),
        scancode("f3"@) == Some(0x3Du32),
        scancode("f4"@) == Some(0x3Eu32),
        scancode("f5"@) == Some(0x3Fu32),
        scancode("f6"@) == Some(0x40u32),
        scancode("f7"@) == Some(0x41u32),
        scancode("f8"@) == Some(0x42u32),
        scancode("f9"@) == Some(0x43u32),
        scancode("f10"@) == Some(0x44u32),
        scancode("f11"@) == Some(0x57u32),
        scancode("f12"@) == Some(0x58u32),
        scancode("f13"@) == Some(0x64u32),
        scancode("f14"@) == Some(0x65u32),
        scancode("f15"@) == Some(0x66u32),
        scancode("f16"@) == Some(0x67u32),
        scancode("f17"@) == Some(0x68u32),
        scancode("f18"@) == Some(0x69u32),
        scancode("f19"@) == Some(0x6Au32),
        scancode("f20"@) == Some(0x6Bu32),
        scancode("f21"@) == Some(0x6Cu32),
        scancode("f22"@) == Some(0x6Du32),
        scancode("f23"@) == Some(0x6Eu32),
        scancode("f24"@) == Some(0x76u32),
{
    reveal_strlit("space");
    reveal_strlit("enter");
    reveal_strlit("tab");
    reveal_strlit("backspace");
    reveal_strlit("escape");
    reveal_strlit("capslock");
    reveal_strlit("scrolllock");
    reveal_strlit("f1");
    reveal_strlit("f2");
    reveal_strlit("f3");
    reveal_strlit("f4");
    reveal_strlit("f5");
    reveal_strlit("f6");
    reveal_strlit("f7");
    reveal_strlit("f8");
    reveal_strlit("f9");
    reveal_strlit("f10");
    reveal_strlit("f11");
    reveal_strlit("f12");
    reveal_strlit("f13");
    reveal_strlit("f14");
    reveal_strlit("f15");
    reveal_strlit("f16");
    reveal_strlit("f17");
    reveal_strlit("f18");
    reveal_strlit("f19");
    reveal_strlit("f20");
    reveal_strlit("f21");
    reveal_strlit("f22");
    reveal_strlit("f23");
    reveal_strlit("f24");
    reveal_strlit("shift");
    reveal_strlit("ctrl");
    reveal_strlit("control");
    reveal_strlit("alt");
    reveal_strlit("cmd");
    reveal_strlit("super");
    reveal_strlit("win");
    reveal_strlit("platform");
    reveal_strlit("menu");
    reveal_strlit("up");
    reveal_strlit("down");
    reveal_strlit("left");
    reveal_strlit("right");
    reveal_strlit("home");
    reveal_strlit("end");
    reveal_strlit("pageup");
    reveal_strlit("pagedown");
    reveal_strlit("insert");
    reveal_strlit("delete");
    assert("f2"@[1] != "f1"@[1]);
    assert("f3"@[1] != "f1"@[1]);
    assert("f3"@[1] != "f2"@[1]);
    assert("f4"@[1] != "f1"@[1]);
    assert("f4"@[1] != "f2"@[1]);
    assert("f4"@[1] != "f3"@[1]);
    assert("f5"@[1] != "f1"@[1]);
    assert("f5"@[1] != "f2"@[1]);
    assert("f5"@[1] != "f3"@[1]);
    assert("f5"@[1] != "f4"@[1]);
    assert("f6"@[1] != "f1"@[1]);
    assert("f6"@[1] != "f2"@[1]);
    assert("f6"@[1] != "f3"@[1]);
    assert("f6"@[1] != "f4"@[1]);
    assert("f6"@[1] != "f5"@[1]);
    assert("f7"@[1] != "f1"@[1]);
    assert("f7"@[1] != "f2"@[1]);
    assert("f7"@[1] != "f3"@[1]);
    assert("f7"@[1] != "f4"@[1]);
    assert("f7"@[1] != "f5"@[1]);
    assert("f7"@[1] != "f6"@[1]);
    assert("f8"@[1] != "f1"@[1]);
    assert("f8"@[1] != "f2"@[1]);
    assert("f8"@[1] != "f3"@[1]);
    assert("f8"@[1] != "f4"@[1]);
    assert("f8"@[1] != "f5"@[1]);
    assert("f8"@[1] != "f6"@[1]);
    assert("f8"@[1] != "f7"@[1]);
    assert("f9"@[1] != "f1"@[1]);
    assert("f9"@[1] != "f2"@[1]);
    assert("f9"@[1] != "f3"@[1]);
    assert("f9"@[1] != "f4"@[1]);
    assert("f9"@[1] != "f5"@[1]);
    assert("f9"@[1] != "f6"@[1]);
    assert("f9"@[1] != "f7"@[1]);
    assert("f9"@[1] != "f8"@[1]);
    assert("f10"@[0] != "tab"@[0]);
    assert("f11"@[0] != "tab"@[0]);
    assert("f11"@[2] != "f10"@[2]);
    assert("f12"@[0] != "tab"@[0]);
    assert("f12"@[2] != "f10"@[2]);
    assert("f12"@[2] != "f11"@[2]);
    assert("f13"@[0] != "tab"@[0]);
    assert("f13"@[2] != "f10"@[2]);
    assert("f13"@[2] != "f11"@[2]);
    assert("f13"@[2] != "f12"@[2]);
    assert("f14"@[0] != "tab"@[0]);
    assert("f14"@[2] != "f10"@[2]);
    assert("f14"@[2] != "f11"@[2]);
    assert("f14"@[2] != "f12"@[2]);
    assert("f14"@[2] != "f13"@[2]);
    assert("f15"@[0] != "tab"@[0]);
    assert("f15"@[2] != "f10"@[2]);
    assert("f15"@[2] != "f11"@[2]);
    assert("f15"@[2] != "f12"@[2]);
    assert("f15"@[2] != "f13"@[2]);
    assert("f15"@[2] != "f14"@[2]);
    assert("f16"@[0] != "tab"@[0]);
    assert("f16"@[2] != "f10"@[2]);
    assert("f16"@[2] != "f11"@[2]);
    assert("f16"@[2] != "f12"@[2]);
    assert("f16"@[2] != "f13"@[2]);
    assert("f16"@[2] != "f14"@[2]);
    assert("f16"@[2] != "f15"@[2]);
    assert("f17"@[0] != "tab"@[0]);
    assert("f17"@[2] != "f10"@[2]);
    assert("f17"@[2] != "f11"@[2]);
    assert("f17"@[2] != "f12"@[2]);
    assert("f17"@[2] != "f13"@[2]);
    assert("f17"@[2] != "f14"@[2]);
    assert("f17"@[2] != "f15"@[2]);
    assert("f17"@[2] != "f16"@[2]);
    assert("f18"@[0] != "tab"@[0]);
    assert("f18"@[2] != "f10"@[2]);
    assert("f18"@[2] != "f11"@[2]);
    assert("f18"@[2] != "f12"@[2]);
    assert("f18"@[2] != "f13"@[2]);
    assert("f18"@[2] != "f14"@[2]);
    assert("f18"@[2] != "f15"@[2]);
    assert("f18"@[2] != "f16"@[2]);
    assert("f18"@[2] != "f17"@[2]);
    assert("f19"@[0] != "tab"@[0]);
    assert("f19"@[2] != "f10"@[2]);
    assert("f19"@[2] != "f11"@[2]);
    assert("f19"@[2] != "f12"@[2]);
    assert("f19"@[2] != "f13"@[2]);
    assert("f19"@[2] != "f14"@[2]);
    assert("f19"@[2] != "f15"@[2]);
    assert("f19"@[2] != "f16"@[2]);
    assert("f19"@[2] != "f17"@[2]);
    assert("f19"@[2] != "f18"@[2]);
    assert("f20"@[0] != "tab"@[0]);
    assert("f20"@[1] != "f10"@[1]);
    assert("f20"@[1] != "f11"@[1]);
    assert("f20"@[1] != "f12"@[1]);
    assert("f20"@[1] != "f13"@[1]);
    assert("f20"@[1] != "f14"@[1]);
    assert("f20"@[1] != "f15"@[1]);
    assert("f20"@[1] != "f16"@[1]);
    assert("f20"@[1] != "f17"@[1]);
    assert("f20"@[1] != "f18"@[1]);
    assert("f20"@[1] != "f19"@[1]);
    assert("f21"@[0] != "tab"@[0]);
    assert("f21"@[1] != "f10"@[1]);
    assert("f21"@[1] != "f11"@[1]);
    assert("f21"@[1] != "f12"@[1]);
    assert("f21"@[1] != "f13"@[1]);
    assert("f21"@[1] != "f14"@[1]);
    assert("f21"@[1] != "f15"@[1]);
    assert("f21"@[1] != "f16"@[1]);
    assert("f21"@[1] != "f17"@[1]);
    assert("f21"@[1] != "f18"@[1]);
    assert("f21"@[1] != "f19"@[1]);
    assert("f21"@[2] != "f20"@[2]);
    assert("f22"@[0] != "tab"@[0]);
    assert("f22"@[1] != "f10"@[1]);
    assert("f22"@[1] != "f11"@[1]);
    assert("f22"@[1] != "f12"@[1]);
    assert("f22"@[1] != "f13"@[1]);
    assert("f22"@[1] != "f14"@[1]);
    assert("f22"@[1] != "f15"@[1]);
    assert("f22"@[1] != "f16"@[1]);
    assert("f22"@[1] != "f17"@[1]);
    assert("f22"@[1] != "f18"@[1]);
    assert("f22"@[1] != "f19"@[1]);
    assert("f22"@[2] != "f20"@[2]);
    assert("f22"@[2] != "f21"@[2]);
    assert("f23"@[0] != "tab"@[0]);
    assert("f23"@[1] != "f10"@[1]);
    assert("f23"@[1] != "f11"@[1]);
    assert("f23"@[1] != "f12"@[1]);
    assert("f23"@[1] != "f13"@[1]);
    assert("f23"@[1] != "f14"@[1]);
    assert("f23"@[1] != "f15"@[1]);
    assert("f23"@[1] != "f16"@[1]);
    assert("f23"@[1] != "f17"@[1]);
    assert("f23"@[1] != "f18"@[1]);
    assert("f23"@[1] != "f19"@[1]);
    assert("f23"@[2] != "f20"@[2]);
    assert("f23"@[2] != "f21"@[2]);
    assert("f23"@[2] != "f22"@[2]);
    assert("f24"@[0] != "tab"@[0]);
    assert("f24"@[1] != "f10"@[1]);
    assert("f24"@[1] != "f11"@[1]);
    assert("f24"@[1] != "f12"@[1]);
    assert("f24"@[1] != "f13"@[1]);
    assert("f24"@[1] != "f14"@[1]);
    assert("f24"@[1] != "f15"@[1]);
    assert("f24"@[1] != "f16"@[1]);
    assert("f24"@[1] != "f17"@[1]);
    assert("f24"@[1] != "f18"@[1]);
    assert("f24"@[1] != "f19"@[1]);
    assert("f24"@[2] != "f20"@[2]);
    assert("f24"@[2] != "f21"@[2]);
    assert("f24"@[2] != "f22"@[2]);
    assert("f24"@[2] != "f23"@[2]);
}

/// The arrows and the navigation keys: the extended codes of the numpad keys that
/// they double, row by row.
pub proof fn navigation_keys_are_those_of_the_numpad()
    ensures
        scancode("home"@) == Some(0xE047u32),
        scancode("up"@) == Some(0xE048u32),
        scancode("pageup"@) == Some(0xE049u32),
        scancode("left"@) == Some(0xE04Bu32),
        scancode("right"@) == Some(0xE04Du32),
        scancode("end"@) == Some(0xE04Fu32),
        scancode("down"@) == Some(0xE050u32),
        scancode("pagedown"@) == Some(0xE051u32),
        scancode("insert"@) == Some(0xE052u32),
        scancode("delete"@) == Some(0xE053u32),
{
    reveal_strlit("space");
    reveal_strlit("enter");
    reveal_strlit("tab");
    reveal_strlit("backspace");
    reveal_strlit("escape");
    reveal_strlit("capslock");
    reveal_strlit("scrolllock");
    reveal_strlit("f1");
    reveal_strlit("f2");
    reveal_strlit("f3");
    reveal_strlit("f4");
    reveal_strlit("f5");
    reveal_strlit("f6");
    reveal_strlit("f7");
    reveal_strlit("f8");
    reveal_strlit("f9");
    reveal_strlit("f10");
    reveal_strlit("f11");
    reveal_strlit("f12");
    reveal_strlit("f13");
    reveal_strlit("f14");
    reveal_strlit("f15");
    reveal_strlit("f16");
    reveal_strlit("f17");
    reveal_strlit("f18");
    reveal_strlit("f19");
    reveal_strlit("f20");
    reveal_strlit("f21");
    reveal_strlit("f22");
    reveal_strlit("f23");
    reveal_strlit("f24");
    reveal_strlit("shift");
    reveal_strlit("ctrl");
    reveal_strlit("control");
    reveal_strlit("alt");
    reveal_strlit("cmd");
    reveal_strlit("super");
    reveal_strlit("win");
    reveal_strlit("platform");
    reveal_strlit("menu");
    reveal_strlit("up");
    reveal_strlit("down");
    reveal_strlit("left");
    reveal_strlit("right");
    reveal_strlit("home");
    reveal_strlit("end");
    reveal_strlit("pageup");
    reveal_strlit("pagedown");
    reveal_strlit("insert");
    reveal_strlit("delete");
    assert("home"@[0] != "ctrl"@[0]);
    assert("home"@[0] != "menu"@[0]);
    assert("home"@[0] != "down"@[0]);
    assert("home"@[0] != "left"@[0]);
    assert("up"@[0] != "f1"@[0]);
    assert("up"@[0] != "f2"@[0]);
    assert("up"@[0] != "f3"@[0]);
    assert("up"@[0] != "f4"@[0]);
    assert("up"@[0] != "f5"@[0]);
    assert("up"@[0] != "f6"@[0]);
    assert("up"@[0] != "f7"@[0]);
    assert("up"@[0] != "f8"@[0]);
    assert("up"@[0] != "f9"@[0]);
    assert("pageup"@[0] != "escape"@[0]);
    assert("left"@[0] != "ctrl"@[0]);
    assert("left"@[0] != "menu"@[0]);
    assert("left"@[0] != "down"@[0]);
    assert("right"@[0] != "space"@[0]);
    assert("right"@[0] != "enter"@[0]);
    assert("right"@[0] != "shift"@[0]);
    assert("right"@[0] != "super"@[0]);
    assert("end"@[0] != "tab"@[0]);
    assert("end"@[0] != "f10"@[0]);
    assert("end"@[0] != "f11"@[0]);
    assert("end"@[0] != "f12"@[0]);
    assert("end"@[0] != "f13"@[0]);
    assert("end"@[0] != "f14"@[0]);
    assert("end"@[0] != "f15"@[0]);
    assert("end"@[0] != "f16"@[0]);
    assert("end"@[0] != "f17"@[0]);
    assert("end"@[0] != "f18"@[0]);
    assert("end"@[0] != "f19"@[0]);
    assert("end"@[0] != "f20"@[0]);
    assert("end"@[0] != "f21"@[0]);
    assert("end"@[0] != "f22"@[0]);
    assert("end"@[0] != "f23"@[0]);
    assert("end"@[0] != "f24"@[0]);
    assert("end"@[0] != "alt"@[0]);
    assert("end"@[0] != "cmd"@[0]);
    assert("end"@[0] != "win"@[0]);
    assert("down"@[0] != "ctrl"@[0]);
    assert("down"@[0] != "menu"@[0]);
    assert("pagedown"@[0] != "capslock"@[0]);
    assert("pagedown"@[1] != "platform"@[1]);
    assert("insert"@[0] != "escape"@[0]);
    assert("insert"@[0] != "pageup"@[0]);
    assert("delete"@[0] != "escape"@[0]);
    assert("delete"@[0] != "pageup"@[0]);
    assert("delete"@[0] != "insert"@[0]);
}

/// The keys around the letters.
pub proof fn editing_and_lock_keys()
    ensures
        scancode("escape"@) == Some(0x01u32),
        scancode("backspace"@) == Some(0x0Eu32),
        scancode("tab"@) == Some(0x0Fu32),
        scancode("enter"@) == Some(0x1Cu32),
        scancode("space"@) == Some(0x39u32),
        scancode("capslock"@) == Some(0x3Au32),
        scancode("scrolllock"@) == Some(0x46u32),
{
    reveal_strlit("space");
    reveal_strlit("enter");
    reveal_strlit("tab");
    reveal_strlit("backspace");
    reveal_strlit("escape");
    reveal_strlit("capslock");
    reveal_strlit("scrolllock");
    reveal_strlit("f1");
    reveal_strlit("f2");
    reveal_strlit("f3");
    reveal_strlit("f4");
    reveal_strlit("f5");
    reveal_strlit("f6");
    reveal_strlit("f7");
    reveal_strlit("f8");
    reveal_strlit("f9");
    reveal_strlit("f10");
    reveal_strlit("f11");
    reveal_strlit("f12");
    reveal_strlit("f13");
    reveal_strlit("f14");
    reveal_strlit("f15");
    reveal_strlit("f16");
    reveal_strlit("f17");
    reveal_strlit("f18");
    reveal_strlit("f19");
    reveal_strlit("f20");
    reveal_strlit("f21");
    reveal_strlit("f22");
    reveal_strlit("f23");
    reveal_strlit("f24");
    reveal_strlit("shift");
    reveal_strlit("ctrl");
    reveal_strlit("control");
    reveal_strlit("alt");
    reveal_strlit("cmd");
    reveal_strlit("super");
    reveal_strlit("win");
    reveal_strlit("platform");
    reveal_strlit("menu");
    reveal_strlit("up");
    reveal_strlit("down");
    reveal_strlit("left");
    reveal_strlit("right");
    reveal_strlit("home");
    reveal_strlit("end");
    reveal_strlit("pageup");
    reveal_strlit("pagedown");
    reveal_strlit("insert");
    reveal_strlit("delete");
    assert("enter"@[0] != "space"@[0]);
}

/// The modifiers, under every name that a host has for them.
pub proof fn modifier_keys()
    ensures
        scancode("shift"@) == Some(0x2Au32),
        scancode("ctrl"@) == Some(0x1Du32),
        scancode("control"@) == Some(0x1Du32),
        scancode("alt"@) == Some(0x38u32),
        scancode("cmd"@) == Some(0xE05Bu32),
        scancode("super"@) == Some(0xE05Bu32),
        scancode("win"@) == Some(0xE05Bu32),
        scancode("platform"@) == Some(0xE05Bu32),
        scancode("menu"@) == Some(0xE05Du32),
{
    reveal_strlit("space");
    reveal_strlit("enter");
    reveal_strlit("tab");
    reveal_strlit("backspace");
    reveal_strlit("escape");
    reveal_strlit("capslock");
    reveal_strlit("scrolllock");
    reveal_strlit("f1");
    reveal_strlit("f2");
    reveal_strlit("f3");
    reveal_strlit("f4");
    reveal_strlit("f5");
    reveal_strlit("f6");
    reveal_strlit("f7");
    reveal_strlit("f8");
    reveal_strlit("f9");
    reveal_strlit("f10");
    reveal_strlit("f11");
    reveal_strlit("f12");
    reveal_strlit("f13");
    reveal_strlit("f14");
    reveal_strlit("f15");
    reveal_strlit("f16");
    reveal_strlit("f17");
    reveal_strlit("f18");
    reveal_strlit("f19");
    reveal_strlit("f20");
    reveal_strlit("f21");
    reveal_strlit("f22");
    reveal_strlit("f23");
    reveal_strlit("f24");
    reveal_strlit("shift");
    reveal_strlit("ctrl");
    reveal_strlit("control");
    reveal_strlit("alt");
    reveal_strlit("cmd");
    reveal_strlit("super");
    reveal_strlit("win");
    reveal_strlit("platform");
    reveal_strlit("menu");
    reveal_strlit("up");
    reveal_strlit("down");
    reveal_strlit("left");
    reveal_strlit("right");
    reveal_strlit("home");
    reveal_strlit("end");
    reveal_strlit("pageup");
    reveal_strlit("pagedown");
    reveal_strlit("insert");
    reveal_strlit("delete");
    assert("shift"@[1] != "space"@[1]);
    assert("shift"@[0] != "enter"@[0]);
    assert("alt"@[0] != "tab"@[0]);
    assert("alt"@[0] != "f10"@[0]);
    assert("alt"@[0] != "f11"@[0]);
    assert("alt"@[0] != "f12"@[0]);
    assert("alt"@[0] != "f13"@[0]);
    assert("alt"@[0] != "f14"@[0]);
    assert("alt"@[0] != "f15"@[0]);
    assert("alt"@[0] != "f16"@[0]);
    assert("alt"@[0] != "f17"@[0]);
    assert("alt"@[0] != "f18"@[0]);
    assert("alt"@[0] != "f19"@[0]);
    assert("alt"@[0] != "f20"@[0]);
    assert("alt"@[0] != "f21"@[0]);
    assert("alt"@[0] != "f22"@[0]);
    assert("alt"@[0] != "f23"@[0]);
    assert("alt"@[0] != "f24"@[0]);
    assert("cmd"@[0] != "tab"@[0]);
    assert("cmd"@[0] != "f10"@[0]);
    assert("cmd"@[0] != "f11"@[0]);
    assert("cmd"@[0] != "f12"@[0]);
    assert("cmd"@[0] != "f13"@[0]);
    assert("cmd"@[0] != "f14"@[0]);
    assert("cmd"@[0] != "f15"@[0]);
    assert("cmd"@[0] != "f16"@[0]);
    assert("cmd"@[0] != "f17"@[0]);
    assert("cmd"@[0] != "f18"@[0]);
    assert("cmd"@[0] != "f19"@[0]);
    assert("cmd"@[0] != "f20"@[0]);
    assert("cmd"@[0] != "f21"@[0]);
    assert("cmd"@[0] != "f22"@[0]);
    assert("cmd"@[0] != "f23"@[0]);
    assert("cmd"@[0] != "f24"@[0]);
    assert("cmd"@[0] != "alt"@[0]);
    assert("super"@[1] != "space"@[1]);
    assert("super"@[0] != "enter"@[0]);
    assert("super"@[1] != "shift"@[1]);
    assert("win"@[0] != "tab"@[0]);
    assert("win"@[0] != "f10"@[0]);
    assert("win"@[0] != "f11"@[0]);
    assert("win"@[0] != "f12"@[0]);
    assert("win"@[0] != "f13"@[0]);
    assert("win"@[0] != "f14"@[0]);
    assert("win"@[0] != "f15"@[0]);
    assert("win"@[0] != "f16"@[0]);
    assert("win"@[0] != "f17"@[0]);
    assert("win"@[0] != "f18"@[0]);
    assert("win"@[0] != "f19"@[0]);
    assert("win"@[0] != "f20"@[0]);
    assert("win"@[0] != "f21"@[0]);
    assert("win"@[0] != "f22"@[0]);
    assert("win"@[0] != "f23"@[0]);
    assert("win"@[0] != "f24"@[0]);
    assert("win"@[0] != "alt"@[0]);
    assert("win"@[0] != "cmd"@[0]);
    assert("platform"@[0] != "capslock"@[0]);
    assert("menu"@[0] != "ctrl"@[0]);
}

/// No other name is a key: whatever is longer than one character and has a code
/// is one of these.
pub proof fn only_named_keys_have_codes(key: Seq<char>)
    requires
        key.len() != 1,
        scancode(key) is Some,
    ensures
        key == "space"@
            || key == "enter"@
            || key == "tab"@
            || key == "backspace"@
            || key == "escape"@
            || key == "capslock"@
            || key == "scrolllock"@
            || key == "f1"@
            || key == "f2"@
            || key == "f3"@
            || key == "f4"@
            || key == "f5"@
            || key == "f6"@
            || key == "f7"@
            || key == "f8"@
            || key == "f9"@
            || key == "f10"@
            || key == "f11"@
            || key == "f12"@
            || key == "f13"@
            || key == "f14"@
            || key == "f15"@
            || key == "f16"@
            || key == "f17"@
            || key == "f18"@
            || key == "f19"@
            || key == "f20"@
            || key == "f21"@
            || key == "f22"@
            || key == "f23"@
            || key == "f24"@
            || key == "shift"@
            || key == "ctrl"@
            || key == "control"@
            || key == "alt"@
            || key == "cmd"@
            || key == "super"@
            || key == "win"@
            || key == "platform"@
            || key == "menu"@
            || key == "up"@
            || key == "down"@
            || key == "left"@
            || key == "right"@
            || key == "home"@
            || key == "end"@
            || key == "pageup"@
            || key == "pagedown"@
            || key == "insert"@
            || key == "delete"@,
{
}

} // verus!
