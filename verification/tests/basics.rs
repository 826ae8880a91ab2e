use inm::input_source::{switch_to_ascii_capable, InputSource};
use inm::text::{
    all_printable, before_first, contains, ends_with, is_control, is_whitespace, lines,
    not_after, number, parse_u16, rsplit_once, same, split_once, starts_with, trim,
};
use inm::theme;

const PLAIN: InputSource = InputSource { ascii_capable: true, selectable: true };
const METHOD: InputSource = InputSource { ascii_capable: false, selectable: true };
const HIDDEN: InputSource = InputSource { ascii_capable: true, selectable: false };

#[test]
fn the_first_usable_source_is_selected() {
    let sources = vec![METHOD, HIDDEN, PLAIN, PLAIN];
    assert_eq!(switch_to_ascii_capable(Some(METHOD), &sources), Some(2));
    assert_eq!(switch_to_ascii_capable(Some(PLAIN), &sources), None);
    assert_eq!(switch_to_ascii_capable(None, &sources), None);
    assert_eq!(switch_to_ascii_capable(Some(METHOD), &vec![METHOD, HIDDEN]), None);
}

#[test]
fn a_projects_colour_is_stable() {
    // 'p' is 112, and 112 is a multiple of the number of colours.
    assert_eq!(theme::group("p"), 0x5b9bd5);
    assert_eq!(theme::group("q"), 0x57a773);
    assert_eq!(theme::group(""), 0x5b9bd5);
    let fold = |s: &str| {
        s.bytes().fold(0usize, |acc, b| acc.wrapping_mul(31).wrapping_add(b as usize)) % 8
    };
    let palette = [
        0x5b9bd5, 0x57a773, 0xd08770, 0xb48ead, 0xd6a44c, 0xc9737e, 0x4fb0c6, 0x9aa0a6,
    ];
    for project in ["default", "a-rather-long-project-name-that-wraps", "项目"] {
        assert_eq!(theme::group(project), palette[fold(project)]);
    }
}

#[test]
fn the_colours() {
    let all = [
        (theme::bg(), 0x1e1e1e),
        (theme::panel(), 0x252526),
        (theme::border(), 0x3c3c3c),
        (theme::text(), 0xd4d4d4),
        (theme::dim(), 0x8a8a8a),
        (theme::faint(), 0x6e7681),
        (theme::accent(), 0x0e93d8),
        (theme::running(), 0x3fb950),
        (theme::danger(), 0xf14c4c),
        (theme::selected(), 0x37373d),
        (theme::hover(), 0x2d2d2e),
        (theme::status_dot(true), 0x3fb950),
        (theme::status_dot(false), 0x6e7681),
    ];
    for (colour, expected) in all {
        assert_eq!(colour, expected);
    }
}

#[test]
fn texts_agree_with_the_standard_library() {
    let samples = ["", "a", "ab", "a:b:c", " x ", "ab:ab", "x\ny", "x\r\ny\n", "\n", "虚拟:机\u{3000}"];
    for s in samples {
        assert_eq!(trim(s), s.trim());
        assert_eq!(lines(s), s.lines().collect::<Vec<_>>());
        assert_eq!(
            split_once(s, ':'),
            s.split_once(':').map(|(a, b)| (a.to_string(), b.to_string()))
        );
        assert_eq!(
            rsplit_once(s, ':'),
            s.rsplit_once(':').map(|(a, b)| (a.to_string(), b.to_string()))
        );
        assert_eq!(before_first(s, ':'), s.split(':').next().unwrap());
        assert_eq!(all_printable(s), s.chars().all(|c| !c.is_control()));
        for t in samples {
            assert_eq!(contains(s, t), s.contains(t));
            assert_eq!(starts_with(s, t), s.starts_with(t));
            assert_eq!(ends_with(s, t), s.ends_with(t));
            assert_eq!(same(s, t), s == t);
            assert_eq!(not_after(s, t), s <= t);
        }
    }
}

#[test]
fn characters_agree_with_the_standard_library() {
    for code in 0..0x11_0000u32 {
        if let Some(c) = char::from_u32(code) {
            assert_eq!(is_whitespace(c), c.is_whitespace(), "{code:x}");
            assert_eq!(is_control(c), c.is_control(), "{code:x}");
        }
    }
}

#[test]
fn numbers_agree_with_the_standard_library() {
    for n in [0, 1, 9, 10, 99, 100, 65535, u64::MAX] {
        assert_eq!(number(n), n.to_string());
    }
    for s in ["0", "00", "8443", "65535", "65536", "+1", "-1", "", "+", "1x", " 1", "99999999999999999999"] {
        assert_eq!(parse_u16(s), s.parse::<u16>().ok(), "{s}");
    }
}
