//! Telling a Dvorak host, and mapping the characters it reports back to the
//! QWERTY key positions that produced them.

use vstd::prelude::*;
use vstd::string::*;
use vstd::utf8::*;

use crate::scancode::keyboard::{scancode, shifted, unshifted};
use crate::text::{
    ascii_lowercase, before_first, contains, cutting_at_the_first, ends_with, finishes_with,
    first_index, first_index_spec, is_space, lines, lines_follow_each_other, lines_of, lowercase,
    nothing_to_cut, occurs, split_first, split_once, texts, trim, trim_back, trim_front, trimmed,
    trimming_takes_off_the_space, until, without_carriage_return,
};

verus! {

/// What probing the host for its keyboard layout gave.
pub enum LayoutProbe {
    /// macOS: the identifier of the current layout, such as
    /// `com.apple.keylayout.Dvorak`; `None` where it could not be read.
    Mac(Option<String>),
    /// Linux: the output of `setxkbmap -query` and, where that failed, of
    /// `localectl status`.
    X11 { setxkbmap: Option<String>, localectl: Option<String> },
    /// A host that is not probed.
    Unprobed,
}

/// The value of the first line whose key ends in `name`: the first entry of
/// the comma-separated list behind the colon. `lower` is how keys and values
/// are lowercased.
pub open spec fn field_value(
    lines: Seq<Seq<char>>,
    name: Seq<char>,
    lower: spec_fn(Seq<char>) -> Seq<char>,
) -> Option<Seq<char>>
    decreases lines.len(),
{
    if lines.len() == 0 {
        None
    } else {
        match split_first(lines[0], ':') {
            Some((key, value)) => if finishes_with(lower(trimmed(key)), name) {
                Some(lower(until(trimmed(value), ',')))
            } else {
                field_value(lines.drop_first(), name, lower)
            },
            None => field_value(lines.drop_first(), name, lower),
        }
    }
}

/// Whether the first group of a layout report is Dvorak: its layout or its
/// variant says so.
pub open spec fn first_group_is_dvorak(
    query: Seq<char>,
    lower: spec_fn(Seq<char>) -> Seq<char>,
) -> bool {
    ||| field_value(lines_of(query), "layout"@, lower) matches Some(v) && occurs(v, "dvorak"@)
    ||| field_value(lines_of(query), "variant"@, lower) matches Some(v) && occurs(v, "dvorak"@)
}

/// Lowercasing as Unicode defines it.
pub open spec fn unicode_lower() -> spec_fn(Seq<char>) -> Seq<char> {
    |s: Seq<char>| lowercase(s)
}

/// Lowercasing of `A` to `Z` alone, which is all there is in an ASCII text.
pub open spec fn ascii_only_lower() -> spec_fn(Seq<char>) -> Seq<char> {
    |s: Seq<char>| ascii_lowercase(s)
}

proof fn trim_front_ascii(s: Seq<char>)
    requires
        is_ascii_chars(s),
    ensures
        is_ascii_chars(trim_front(s)),
    decreases s.len(),
{
    if s.len() > 0 {
        trim_front_ascii(s.drop_first());
    }
}

proof fn trim_back_ascii(s: Seq<char>)
    requires
        is_ascii_chars(s),
    ensures
        is_ascii_chars(trim_back(s)),
    decreases s.len(),
{
    if s.len() > 0 {
        trim_back_ascii(s.drop_last());
    }
}

proof fn trimmed_ascii(s: Seq<char>)
    requires
        is_ascii_chars(s),
    ensures
        is_ascii_chars(trimmed(s)),
{
    trim_front_ascii(s);
    trim_back_ascii(trim_front(s));
}

proof fn lines_ascii(s: Seq<char>)
    requires
        is_ascii_chars(s),
    ensures
        forall|i: int| 0 <= i < lines_of(s).len() ==> is_ascii_chars(#[trigger] lines_of(s)[i]),
    decreases s.len(),
{
    if s.len() > 0 {
        let k = first_index(s, '\n');
        first_index_spec(s, '\n');
        if k < s.len() {
            let rest = s.skip(k + 1);
            assert(is_ascii_chars(rest));
            lines_ascii(rest);
            let head = without_carriage_return(s.take(k));
            assert(is_ascii_chars(head));
            assert forall|i: int| 0 <= i < lines_of(s).len() implies is_ascii_chars(
                #[trigger] lines_of(s)[i],
            ) by {
                if i > 0 {
                    assert(lines_of(s)[i] == lines_of(rest)[i - 1]);
                }
            }
        }
    }
}

fn field(query: &Vec<String>, name: &str) -> (r: Option<String>)
    ensures
        crate::text::text_of(r) == field_value(texts(query@), name@, unicode_lower()),
        (forall|i: int| 0 <= i < query@.len() ==> is_ascii_chars(#[trigger] texts(query@)[i]))
            ==> crate::text::text_of(r) == field_value(texts(query@), name@, ascii_only_lower()),
{
    let ghost all = texts(query@);
    let ghost plain = forall|i: int|
        0 <= i < query@.len() ==> is_ascii_chars(#[trigger] texts(query@)[i]);
    let mut i: usize = 0;
    assert(all.skip(0) =~= all);
    while i < query.len()
        invariant
            i <= query@.len(),
            all == texts(query@),
            plain == (forall|i: int|
                0 <= i < query@.len() ==> is_ascii_chars(#[trigger] texts(query@)[i])),
            field_value(all, name@, unicode_lower()) == field_value(
                all.skip(i as int),
                name@,
                unicode_lower(),
            ),
            plain ==> field_value(all, name@, ascii_only_lower()) == field_value(
                all.skip(i as int),
                name@,
                ascii_only_lower(),
            ),
        decreases query@.len() - i,
    {
        let ghost line = all[i as int];
        assert(all.skip(i as int)[0] == line);
        assert(all.skip(i as int).drop_first() =~= all.skip(i + 1));
        if let Some((key, value)) = split_once(query[i].as_str(), ':') {
            proof {
                if plain {
                    first_index_spec(line, ':');
                    assert(is_ascii_chars(line));
                    assert(is_ascii_chars(key@));
                    assert(is_ascii_chars(value@));
                    trimmed_ascii(key@);
                    trimmed_ascii(value@);
                    first_index_spec(trimmed(value@), ',');
                    assert(is_ascii_chars(until(trimmed(value@), ',')));
                }
            }
            let key: String = trim(key.as_str());
            if ends_with(key.as_str().to_lowercase().as_str(), name) {
                let value: String = trim(value.as_str());
                let first: String = before_first(value.as_str(), ',');
                return Some(first.as_str().to_lowercase());
            }
        }
        i += 1;
    }
    None
}

/// Whether the *first* configured X11 group uses Dvorak.
///
/// `setxkbmap -query` and `localectl status` both list every configured group
/// on one line (`layout: us,us`, `variant: ,dvorak`), and only the first is
/// active at login. Looking for "dvorak" anywhere would take the very common
/// "US plus a Dvorak alternative" for a Dvorak host.
pub fn active_group_is_dvorak(query: &str) -> (r: bool)
    ensures
        r == first_group_is_dvorak(query@, unicode_lower()),
        is_ascii(query) ==> r == first_group_is_dvorak(query@, ascii_only_lower()),
{
    let report: Vec<String> = lines(query);
    proof {
        if is_ascii(query) {
            lines_ascii(query@);
        }
    }
    if let Some(layout) = field(&report, "layout") {
        if contains(layout.as_str(), "dvorak") {
            return true;
        }
    }
    if let Some(variant) = field(&report, "variant") {
        return contains(variant.as_str(), "dvorak");
    }
    false
}

/// Whether a probe speaks of a Dvorak host.
pub open spec fn probe_says_dvorak(probe: LayoutProbe) -> bool {
    match probe {
        LayoutProbe::Mac(Some(id)) => occurs(lowercase(id@), "dvorak"@),
        LayoutProbe::X11 { setxkbmap: Some(query), .. } => first_group_is_dvorak(
            query@,
            unicode_lower(),
        ),
        LayoutProbe::X11 { setxkbmap: None, localectl: Some(status) } => first_group_is_dvorak(
            status@,
            unicode_lower(),
        ),
        _ => false,
    }
}

/// Whether the host uses Dvorak, by what probing it gave. A host that could not
/// be probed counts as QWERTY.
pub fn host_is_dvorak(probe: &LayoutProbe) -> (r: bool)
    ensures
        r == probe_says_dvorak(*probe),
{
    match probe {
        LayoutProbe::Mac(Some(id)) => contains(id.as_str().to_lowercase().as_str(), "dvorak"),
        LayoutProbe::Mac(None) => false,
        LayoutProbe::X11 { setxkbmap, localectl } => match setxkbmap {
            Some(query) => active_group_is_dvorak(query.as_str()),
            None => match localectl {
                Some(status) => active_group_is_dvorak(status.as_str()),
                None => false,
            },
        },
        LayoutProbe::Unprobed => false,
    }
}

/// The QWERTY key position of a character typed on a US Dvorak layout, where
/// Dvorak moves it.
pub open spec fn moved(c: char) -> Option<char> {
    match c {
        // Top letter row
        '\'' => Some('q'),
        ',' => Some('w'),
        '.' => Some('e'),
        'p' => Some('r'),
        'y' => Some('t'),
        'f' => Some('y'),
        'g' => Some('u'),
        'c' => Some('i'),
        'r' => Some('o'),
        'l' => Some('p'),
        '/' => Some('['),
        '=' => Some(']'),
        // Home row
        'a' => Some('a'),
        'o' => Some('s'),
        'e' => Some('d'),
        'u' => Some('f'),
        'i' => Some('g'),
        'd' => Some('h'),
        'h' => Some('j'),
        't' => Some('k'),
        'n' => Some('l'),
        's' => Some(';'),
        '-' => Some('\''),
        // Bottom row
        ';' => Some('z'),
        'q' => Some('x'),
        'j' => Some('c'),
        'k' => Some('v'),
        'x' => Some('b'),
        'b' => Some('n'),
        'm' => Some('m'),
        'w' => Some(','),
        'v' => Some('.'),
        'z' => Some('/'),
        // Punctuation of the number row
        '[' => Some('-'),
        ']' => Some('='),
        // Shifted punctuation, at the key of its unshifted sibling
        '"' => Some('q'),
        '<' => Some('w'),
        '>' => Some('e'),
        '?' => Some('['),
        '+' => Some(']'),
        ':' => Some('z'),
        '_' => Some('\''),
        '{' => Some('-'),
        '}' => Some('='),
        _ => None,
    }
}

/// The QWERTY key position of a key as a Dvorak host reports it. Digits, keys
/// with names and whatever else is not moved share their QWERTY position.
pub open spec fn physical(key: Seq<char>) -> Seq<char> {
    if key.len() == 1 && moved(key[0]) is Some {
        seq![moved(key[0]).unwrap()]
    } else {
        key
    }
}

fn moved_key(c: char) -> (r: Option<&'static str>)
    ensures
        match r {
            Some(key) => moved(c) is Some && key@ == seq![moved(c).unwrap()],
            None => moved(c) is None,
        },
{
    proof {
        reveal_strlit("'");
        reveal_strlit(",");
        reveal_strlit("-");
        reveal_strlit(".");
        reveal_strlit("/");
        reveal_strlit(";");
        reveal_strlit("=");
        reveal_strlit("[");
        reveal_strlit("]");
        reveal_strlit("a");
        reveal_strlit("b");
        reveal_strlit("c");
        reveal_strlit("d");
        reveal_strlit("e");
        reveal_strlit("f");
        reveal_strlit("g");
        reveal_strlit("h");
        reveal_strlit("i");
        reveal_strlit("j");
        reveal_strlit("k");
        reveal_strlit("l");
        reveal_strlit("m");
        reveal_strlit("n");
        reveal_strlit("o");
        reveal_strlit("p");
        reveal_strlit("q");
        reveal_strlit("r");
        reveal_strlit("s");
        reveal_strlit("t");
        reveal_strlit("u");
        reveal_strlit("v");
        reveal_strlit("w");
        reveal_strlit("x");
        reveal_strlit("y");
        reveal_strlit("z");
    }
    let key: &'static str = match c {
        // Top letter row
        '\'' => "q",
        ',' => "w",
        '.' => "e",
        'p' => "r",
        'y' => "t",
        'f' => "y",
        'g' => "u",
        'c' => "i",
        'r' => "o",
        'l' => "p",
        '/' => "[",
        '=' => "]",
        // Home row
        'a' => "a",
        'o' => "s",
        'e' => "d",
        'u' => "f",
        'i' => "g",
        'd' => "h",
        'h' => "j",
        't' => "k",
        'n' => "l",
        's' => ";",
        '-' => "'",
        // Bottom row
        ';' => "z",
        'q' => "x",
        'j' => "c",
        'k' => "v",
        'x' => "b",
        'b' => "n",
        'm' => "m",
        'w' => ",",
        'v' => ".",
        'z' => "/",
        // Punctuation of the number row
        '[' => "-",
        ']' => "=",
        // Shifted punctuation, at the key of its unshifted sibling
        '"' => "q",
        '<' => "w",
        '>' => "e",
        '?' => "[",
        '+' => "]",
        ':' => "z",
        '_' => "'",
        '{' => "-",
        '}' => "=",
        _ => return None,
    };
    assert(key@ =~= seq![moved(c).unwrap()]);
    Some(key)
}

/// The QWERTY key position of a key as a Dvorak host reports it.
pub fn dvorak_to_physical<'a>(key: &'a str) -> (r: &'a str)
    ensures
        r@ == physical(key@),
{
    if key.unicode_len() == 1 {
        match moved_key(key.get_char(0)) {
            Some(position) => position,
            None => key,
        }
    } else {
        key
    }
}

/// The key position of one character.
pub open spec fn position_of(c: char) -> char {
    match moved(c) {
        Some(d) => d,
        None => c,
    }
}

/// Dvorak rearranges the keys: every character that is typed without Shift sits
/// on such a key of the QWERTY layout, and no two share one.
pub proof fn dvorak_is_a_rearrangement(c: char, d: char)
    requires
        unshifted(c),
        unshifted(d),
        position_of(c) == position_of(d),
    ensures
        unshifted(position_of(c)),
        c == d,
{
}

/// What the US Dvorak layout types with Shift held, where it moves the key.
pub open spec fn dvorak_shifted(c: char) -> Option<char> {
    if moved(c) is Some {
        shifted(c)
    } else {
        None
    }
}

/// A shifted symbol sits where its unshifted sibling does: the Dvorak `<` is
/// sent as the key of the Dvorak `,`.
pub proof fn dvorak_shift_keeps_the_key(c: char)
    requires
        dvorak_shifted(c) is Some,
    ensures
        position_of(dvorak_shifted(c).unwrap()) == position_of(c),
{
}

/// No key is lost on a Dvorak host: what has a scancode on a QWERTY host has one
/// there too.
pub proof fn dvorak_loses_no_key(key: Seq<char>)
    requires
        scancode(key) is Some,
    ensures
        scancode(physical(key)) is Some,
{
}

// ---------------------------------------------------------------------------
// The layout
// ---------------------------------------------------------------------------

proof fn top_row(i: int)
    requires
        0 <= i < 12,
    ensures
        "',.pyfgcrl/="@.len() == 12,
        "qwertyuiop[]"@.len() == 12,
        moved("',.pyfgcrl/="@[i]) == Some("qwertyuiop[]"@[i]),
{
    reveal_strlit("',.pyfgcrl/=");
    reveal_strlit("qwertyuiop[]");
    assert(i == 0 || i == 1 || i == 2 || i == 3 || i == 4 || i == 5 || i == 6 || i == 7 || i == 8 || i == 9 || i == 10 || i == 11);
}

proof fn home_row(i: int)
    requires
        0 <= i < 11,
    ensures
        "aoeuidhtns-"@.len() == 11,
        "asdfghjkl;'"@.len() == 11,
        moved("aoeuidhtns-"@[i]) == Some("asdfghjkl;'"@[i]),
{
    reveal_strlit("aoeuidhtns-");
    reveal_strlit("asdfghjkl;'");
    assert(i == 0 || i == 1 || i == 2 || i == 3 || i == 4 || i == 5 || i == 6 || i == 7 || i == 8 || i == 9 || i == 10);
}

proof fn bottom_row(i: int)
    requires
        0 <= i < 10,
    ensures
        ";qjkxbmwvz"@.len() == 10,
        "zxcvbnm,./"@.len() == 10,
        moved(";qjkxbmwvz"@[i]) == Some("zxcvbnm,./"@[i]),
{
    reveal_strlit(";qjkxbmwvz");
    reveal_strlit("zxcvbnm,./");
    assert(i == 0 || i == 1 || i == 2 || i == 3 || i == 4 || i == 5 || i == 6 || i == 7 || i == 8 || i == 9);
}

proof fn number_row(i: int)
    requires
        0 <= i < 2,
    ensures
        "[]"@.len() == 2,
        "-="@.len() == 2,
        moved("[]"@[i]) == Some("-="@[i]),
{
    reveal_strlit("[]");
    reveal_strlit("-=");
    assert(i == 0 || i == 1);
}

proof fn shifted_top_row(i: int)
    requires
        0 <= i < 3,
    ensures
        "\"<>"@.len() == 3,
        "qwe"@.len() == 3,
        moved("\"<>"@[i]) == Some("qwe"@[i]),
{
    reveal_strlit("\"<>");
    reveal_strlit("qwe");
    assert(i == 0 || i == 1 || i == 2);
}

proof fn shifted_end_row(i: int)
    requires
        0 <= i < 2,
    ensures
        "?+"@.len() == 2,
        "[]"@.len() == 2,
        moved("?+"@[i]) == Some("[]"@[i]),
{
    reveal_strlit("?+");
    reveal_strlit("[]");
    assert(i == 0 || i == 1);
}

proof fn shifted_rest_row(i: int)
    requires
        0 <= i < 4,
    ensures
        ":_{}"@.len() == 4,
        "z'-="@.len() == 4,
        moved(":_{}"@[i]) == Some("z'-="@[i]),
{
    reveal_strlit(":_{}");
    reveal_strlit("z'-=");
    assert(i == 0 || i == 1 || i == 2 || i == 3);
}

/// The rows of the US Dvorak layout lie on those of QWERTY, key by key: what a
/// Dvorak host types with the `i`th key of a row is sent as the `i`th key of the
/// same row.
pub proof fn dvorak_rows_lie_on_qwerty_rows(i: int)
    ensures
        0 <= i < 12 ==> physical(seq!["',.pyfgcrl/="@[i]]) == seq!["qwertyuiop[]"@[i]],
        0 <= i < 11 ==> physical(seq!["aoeuidhtns-"@[i]]) == seq!["asdfghjkl;'"@[i]],
        0 <= i < 10 ==> physical(seq![";qjkxbmwvz"@[i]]) == seq!["zxcvbnm,./"@[i]],
        0 <= i < 2 ==> physical(seq!["[]"@[i]]) == seq!["-="@[i]],
        0 <= i < 3 ==> physical(seq!["\"<>"@[i]]) == seq!["qwe"@[i]],
        0 <= i < 2 ==> physical(seq!["?+"@[i]]) == seq!["[]"@[i]],
        0 <= i < 4 ==> physical(seq![":_{}"@[i]]) == seq!["z'-="@[i]],
{
    if 0 <= i < 12 {
        top_row(i);
    }
    if 0 <= i < 11 {
        home_row(i);
    }
    if 0 <= i < 10 {
        bottom_row(i);
    }
    if 0 <= i < 2 {
        number_row(i);
    }
    if 0 <= i < 3 {
        shifted_top_row(i);
    }
    if 0 <= i < 2 {
        shifted_end_row(i);
    }
    if 0 <= i < 4 {
        shifted_rest_row(i);
    }
}

/// Nothing else is moved: digits, the signs above them, and keys with names.
pub proof fn everything_else_stays(key: Seq<char>)
    requires
        key.len() != 1 || (!"',.pyfgcrl/="@.contains(key[0])
            && !"aoeuidhtns-"@.contains(key[0])
            && !";qjkxbmwvz"@.contains(key[0])
            && !"[]"@.contains(key[0])
            && !"\"<>"@.contains(key[0])
            && !"?+"@.contains(key[0])
            && !":_{}"@.contains(key[0])),
    ensures
        physical(key) == key,
{
    if key.len() == 1 {
        reveal_strlit("',.pyfgcrl/=");
        reveal_strlit("aoeuidhtns-");
        reveal_strlit(";qjkxbmwvz");
        reveal_strlit("[]");
        reveal_strlit("\"<>");
        reveal_strlit("?+");
        reveal_strlit(":_{}");
        assert("',.pyfgcrl/="@.contains("',.pyfgcrl/="@[0]));
        assert("',.pyfgcrl/="@.contains("',.pyfgcrl/="@[1]));
        assert("',.pyfgcrl/="@.contains("',.pyfgcrl/="@[2]));
        assert("',.pyfgcrl/="@.contains("',.pyfgcrl/="@[3]));
        assert("',.pyfgcrl/="@.contains("',.pyfgcrl/="@[4]));
        assert("',.pyfgcrl/="@.contains("',.pyfgcrl/="@[5]));
        assert("',.pyfgcrl/="@.contains("',.pyfgcrl/="@[6]));
        assert("',.pyfgcrl/="@.contains("',.pyfgcrl/="@[7]));
        assert("',.pyfgcrl/="@.contains("',.pyfgcrl/="@[8]));
        assert("',.pyfgcrl/="@.contains("',.pyfgcrl/="@[9]));
        assert("',.pyfgcrl/="@.contains("',.pyfgcrl/="@[10]));
        assert("',.pyfgcrl/="@.contains("',.pyfgcrl/="@[11]));
        assert("aoeuidhtns-"@.contains("aoeuidhtns-"@[0]));
        assert("aoeuidhtns-"@.contains("aoeuidhtns-"@[1]));
        assert("aoeuidhtns-"@.contains("aoeuidhtns-"@[2]));
        assert("aoeuidhtns-"@.contains("aoeuidhtns-"@[3]));
        assert("aoeuidhtns-"@.contains("aoeuidhtns-"@[4]));
        assert("aoeuidhtns-"@.contains("aoeuidhtns-"@[5]));
        assert("aoeuidhtns-"@.contains("aoeuidhtns-"@[6]));
        assert("aoeuidhtns-"@.contains("aoeuidhtns-"@[7]));
        assert("aoeuidhtns-"@.contains("aoeuidhtns-"@[8]));
        assert("aoeuidhtns-"@.contains("aoeuidhtns-"@[9]));
        assert("aoeuidhtns-"@.contains("aoeuidhtns-"@[10]));
        assert(";qjkxbmwvz"@.contains(";qjkxbmwvz"@[0]));
        assert(";qjkxbmwvz"@.contains(";qjkxbmwvz"@[1]));
        assert(";qjkxbmwvz"@.contains(";qjkxbmwvz"@[2]));
        assert(";qjkxbmwvz"@.contains(";qjkxbmwvz"@[3]));
        assert(";qjkxbmwvz"@.contains(";qjkxbmwvz"@[4]));
        assert(";qjkxbmwvz"@.contains(";qjkxbmwvz"@[5]));
        assert(";qjkxbmwvz"@.contains(";qjkxbmwvz"@[6]));
        assert(";qjkxbmwvz"@.contains(";qjkxbmwvz"@[7]));
        assert(";qjkxbmwvz"@.contains(";qjkxbmwvz"@[8]));
        assert(";qjkxbmwvz"@.contains(";qjkxbmwvz"@[9]));
        assert("[]"@.contains("[]"@[0]));
        assert("[]"@.contains("[]"@[1]));
        assert("\"<>"@.contains("\"<>"@[0]));
        assert("\"<>"@.contains("\"<>"@[1]));
        assert("\"<>"@.contains("\"<>"@[2]));
        assert("?+"@.contains("?+"@[0]));
        assert("?+"@.contains("?+"@[1]));
        assert(":_{}"@.contains(":_{}"@[0]));
        assert(":_{}"@.contains(":_{}"@[1]));
        assert(":_{}"@.contains(":_{}"@[2]));
        assert(":_{}"@.contains(":_{}"@[3]));
    }
}

/// A report of one line: the layout, or the variant, is Dvorak exactly if its
/// first entry says so, whatever entries follow and whatever stands around it.
pub proof fn the_first_entry_decides(
    name: Seq<char>,
    first: Seq<char>,
    others: Seq<char>,
    lower: spec_fn(Seq<char>) -> Seq<char>,
)
    requires
        forall|i: int| 0 <= i < name.len() ==> name[i] != ':' && name[i] != '\n',
        forall|i: int|
            0 <= i < first.len() ==> first[i] != ',' && first[i] != '\n' && !is_space(first[i]),
        forall|i: int|
            0 <= i < others.len() ==> others[i] != '\n' && !is_space(others[i]),
        first.len() > 0,
        finishes_with(lower(trimmed(name)), "layout"@) || finishes_with(
            lower(trimmed(name)),
            "variant"@,
        ),
    ensures
        first_group_is_dvorak(name + seq![':'] + first, lower) == occurs(lower(first), "dvorak"@),
        first_group_is_dvorak(name + seq![':'] + first + seq![','] + others, lower) == occurs(
            lower(first),
            "dvorak"@,
        ),
{
    let short = name + seq![':'] + first;
    let entries = first + seq![','] + others;
    let long = name + seq![':'] + first + seq![','] + others;
    assert(long =~= name + seq![':'] + entries);
    assert(short.last() == first.last());
    assert(is_space('\r'));
    lines_follow_each_other(short, Seq::empty());
    lines_follow_each_other(long, Seq::empty());
    cutting_at_the_first(name, ':', first);
    cutting_at_the_first(name, ':', entries);
    let none = Seq::<char>::empty();
    assert(none + first + none =~= first);
    assert(none + entries + none =~= entries);
    assert(entries[0] == first[0]);
    assert(!is_space(','));
    assert(others.len() > 0 ==> entries.last() == others.last());
    trimming_takes_off_the_space(none, first, none);
    trimming_takes_off_the_space(none, entries, none);
    nothing_to_cut(first, ',');
    cutting_at_the_first(first, ',', others);
    assert(seq![short].drop_first() =~= Seq::empty());
    assert(seq![long].drop_first() =~= Seq::empty());
    reveal_with_fuel(field_value, 2);
}

/// A report in which nothing says Dvorak is not that of a Dvorak host.
pub proof fn silence_is_not_dvorak(query: Seq<char>, lower: spec_fn(Seq<char>) -> Seq<char>)
    requires
        forall|part: Seq<char>| !occurs(#[trigger] lower(part), "dvorak"@),
    ensures
        !first_group_is_dvorak(query, lower),
{
    field_is_lowered(lines_of(query), "layout"@, lower);
    field_is_lowered(lines_of(query), "variant"@, lower);
}

proof fn field_is_lowered(
    lines: Seq<Seq<char>>,
    name: Seq<char>,
    lower: spec_fn(Seq<char>) -> Seq<char>,
)
    ensures
        field_value(lines, name, lower) matches Some(v) ==> exists|part: Seq<char>|
            v == #[trigger] lower(part),
    decreases lines.len(),
{
    if lines.len() > 0 {
        field_is_lowered(lines.drop_first(), name, lower);
    }
}

/// A line that is not about a field does not count for it, and behind the first
/// line that is, none does.
pub proof fn the_first_line_about_a_field_counts(
    line: Seq<char>,
    rest: Seq<Seq<char>>,
    name: Seq<char>,
    key: Seq<char>,
    value: Seq<char>,
    lower: spec_fn(Seq<char>) -> Seq<char>,
)
    requires
        forall|i: int| 0 <= i < key.len() ==> key[i] != ':',
    ensures
        (forall|i: int| 0 <= i < line.len() ==> line[i] != ':') ==> field_value(
            seq![line] + rest,
            name,
            lower,
        ) == field_value(rest, name, lower),
        line == key + seq![':'] + value && !finishes_with(lower(trimmed(key)), name)
            ==> field_value(seq![line] + rest, name, lower) == field_value(rest, name, lower),
        line == key + seq![':'] + value && finishes_with(lower(trimmed(key)), name) ==> field_value(
            seq![line] + rest,
            name,
            lower,
        ) == Some(lower(until(trimmed(value), ','))),
        field_value(Seq::empty(), name, lower) is None,
{
    assert((seq![line] + rest).drop_first() =~= rest);
    cutting_at_the_first(key, ':', value);
    if forall|i: int| 0 <= i < line.len() ==> line[i] != ':' {
        nothing_to_cut(line, ':');
    }
}

/// A host is Dvorak if its layout says so or its variant does, and not otherwise;
/// one that could not be probed is not.
pub proof fn layout_or_variant_make_dvorak(
    query: Seq<char>,
    lower: spec_fn(Seq<char>) -> Seq<char>,
)
    ensures
        first_group_is_dvorak(query, lower) <==> (field_value(
            lines_of(query),
            "layout"@,
            lower,
        ) matches Some(v) && occurs(v, "dvorak"@)) || (field_value(
            lines_of(query),
            "variant"@,
            lower,
        ) matches Some(v) && occurs(v, "dvorak"@)),
        !probe_says_dvorak(LayoutProbe::Unprobed),
        !probe_says_dvorak(LayoutProbe::Mac(None)),
        !probe_says_dvorak(LayoutProbe::X11 { setxkbmap: None, localectl: None }),
{
}

/// What `setxkbmap` says counts wherever it says anything; `localectl` counts only
/// in its place.
pub proof fn setxkbmap_comes_before_localectl(query: String, localectl: Option<String>)
    ensures
        probe_says_dvorak(LayoutProbe::X11 { setxkbmap: Some(query), localectl })
            == first_group_is_dvorak(query@, unicode_lower()),
        probe_says_dvorak(LayoutProbe::X11 { setxkbmap: None, localectl: Some(query) })
            == first_group_is_dvorak(query@, unicode_lower()),
        probe_says_dvorak(LayoutProbe::Mac(Some(query))) == occurs(lowercase(query@), "dvorak"@),
{
}

} // verus!
