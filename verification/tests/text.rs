use diaryx_sync_extism::codec;
use diaryx_sync_extism::text;

#[test]
fn white_space_is_that_of_unicode() {
    for n in 0..=0x10FFFFu32 {
        if let Some(c) = char::from_u32(n) {
            assert_eq!(text::is_whitespace(c), c.is_whitespace(), "{n:x}");
        }
    }
}

#[test]
fn trimming() {
    for s in ["", " ", "a", " a b\t\n", "\u{3000}x\u{a0}", "\u{200b}x"] {
        assert_eq!(text::trim(s), s.trim());
        assert_eq!(text::blank(s), s.trim().is_empty());
    }
    for s in ["", "/", "a//", "/a", "a/b/"] {
        assert_eq!(text::trim_end_of(s, '/'), s.trim_end_matches('/'));
    }
}

#[test]
fn parts_of_strings() {
    for s in ["", "a", "ab", "aab", "abab", "éa"] {
        for p in ["", "a", "ab", "b", "é", "abc"] {
            assert_eq!(text::starts_with(s, p), s.starts_with(p));
            assert_eq!(text::ends_with(s, p), s.ends_with(p));
            assert_eq!(text::contains(s, p), s.contains(p));
            assert_eq!(text::strip_prefix(s, p), s.strip_prefix(p));
            assert_eq!(text::strip_suffix(s, p), s.strip_suffix(p));
            assert_eq!(text::same(s, p), s == p);
        }
        assert_eq!(text::to_slashes(s), s.replace('\\', "/"));
        assert_eq!(text::before_last(s, 'a'), s.rfind('a').map(|i| &s[..i]));
    }
    assert_eq!(text::to_slashes("a\\b\\\\c/d"), "a/b//c/d");
    assert_eq!(text::join4("a", "b", "c", "d"), "abcd");
}

#[test]
fn numbers() {
    for n in [0u64, 7, 10, 404, 1000, 65536, u64::MAX] {
        assert_eq!(text::number(n), format!("{n}"));
    }
}

#[test]
fn utf8() {
    assert_eq!(codec::from_utf8("héllo".as_bytes().to_vec()).unwrap(), "héllo");
    assert_eq!(
        codec::from_utf8(vec![b'a', 0xC3]).unwrap_err(),
        String::from_utf8(vec![b'a', 0xC3]).unwrap_err().to_string()
    );
    assert_eq!(codec::to_utf8("é"), vec![0xC3, 0xA9]);
}
