use nomen::decimal::{i64_text, parse_u32, u32_zero_padded, u64_text};
use nomen::meta_map::MetadataMap;
use nomen::text::{contains, split_at_char, split_lines, trim};

#[test]
fn lines_like_std() {
    for s in ["", "a", "a\n", "a\r\nb", "\n\n", "x\r", "a\rb\n", "a\n\r\n"] {
        let expected: Vec<String> = s.lines().map(|l| l.to_string()).collect();
        assert_eq!(split_lines(s), expected, "{s:?}");
    }
}

#[test]
fn split_like_std() {
    for s in ["", ";", "a;b", ";a;;b;"] {
        let expected: Vec<String> = s.split(';').map(|l| l.to_string()).collect();
        assert_eq!(split_at_char(s, ';'), expected, "{s:?}");
    }
}

#[test]
fn trim_like_std() {
    for s in ["", "  ", " a b ", "\u{3000}x\u{2029}", "\t\n y"] {
        assert_eq!(trim(s), s.trim(), "{s:?}");
    }
}

#[test]
fn search() {
    assert!(contains("1 image files updated", "files updated"));
    assert!(contains("abc", ""));
    assert!(!contains("ab", "abc"));
    assert!(!contains("file updated", "files updated"));
}

#[test]
fn decimal_text() {
    for n in [0i64, 7, -7, 10, 1234567, i64::MIN, i64::MAX] {
        assert_eq!(i64_text(n), n.to_string());
    }
    assert_eq!(u64_text(u64::MAX), u64::MAX.to_string());
    for (n, w) in [(0u32, 4usize), (7, 4), (12345, 4), (42, 0), (u32::MAX, 12)] {
        assert_eq!(u32_zero_padded(n, w), format!("{:0w$}", n, w = w));
    }
}

#[test]
fn parse_like_std() {
    for s in ["0", "0042", "+7", "+", "-1", "", "4294967295", "4294967296", "12a", " 1", "000000000000000000001"] {
        assert_eq!(parse_u32(s), s.parse::<u32>().ok(), "{s:?}");
    }
}

#[test]
fn later_insertions_win() {
    let mut m = MetadataMap::new();
    m.insert("A:x".to_string(), Some("1".to_string()));
    m.insert("A:y".to_string(), None);
    m.insert("A:x".to_string(), Some("2".to_string()));
    assert_eq!(m.get("A:x").unwrap().as_deref(), Some("2"));
    assert_eq!(m.get("A:y"), Some(&None));
    assert!(m.get("A:z").is_none());
    assert!(m.contains_key("A:y"));
}

#[test]
fn trim_knows_unicode_white_space() {
    assert_eq!(trim("\u{3000}\u{85}abc\u{a0}\u{2029}\t"), "abc");
    assert_eq!(trim("\u{200b}x\u{200b}"), "\u{200b}x\u{200b}");
    for c in ['\u{9}', '\u{d}', ' ', '\u{1680}', '\u{2000}', '\u{200a}', '\u{202f}', '\u{205f}'] {
        assert!(c.is_whitespace());
        assert_eq!(trim(&format!("{c}z{c}")), "z");
    }
}

#[test]
fn map_read_after_write() {
    let mut m = MetadataMap::new();
    m.insert("EXIF:Make".to_string(), Some("Canon".to_string()));
    m.insert("XMP:Title".to_string(), None);
    m.insert("EXIF:Make".to_string(), Some("Nikon".to_string()));
    assert_eq!(m.get("EXIF:Make"), Some(&Some("Nikon".to_string())));
    assert_eq!(m.get("XMP:Title"), Some(&None));
    assert_eq!(m.get("EXIF:Model"), None);
    assert_eq!(m.entries().len(), 3);
}
