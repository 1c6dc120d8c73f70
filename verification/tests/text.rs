use package_manager::text::{ends_with, is_white_space_char, rfind_char, split_trimmed, str_equal, trim};

#[test]
fn white_space_agrees_with_std_on_every_char() {
    for u in 0u32..=0x10ffff {
        if let Some(c) = char::from_u32(u) {
            assert_eq!(is_white_space_char(c), c.is_whitespace(), "{u:#x}");
        }
    }
}

#[test]
fn trim_agrees_with_std() {
    for s in ["", "  ", " a ", "\ta b\n", "\u{2003}x\u{3000}", "x", " \u{e9} "] {
        assert_eq!(trim(s), s.trim());
    }
}

#[test]
fn ends_with_and_equal() {
    assert!(ends_with("v1.0.0.sig", ".sig"));
    assert!(ends_with("abc", ""));
    assert!(!ends_with("ig", ".sig"));
    assert!(str_equal("reindex", "reindex"));
    assert!(!str_equal("reindex", "reindexx"));
}

#[test]
fn rfind_char_finds_the_last() {
    assert_eq!(rfind_char("a:b:c", ':'), Some(3));
    assert_eq!(rfind_char("abc", ':'), None);
    assert_eq!(rfind_char("\u{e9}:x", ':'), Some(1));
}

#[test]
fn split_trimmed_on_other_separators() {
    assert_eq!(split_trimmed(" a , ,b ", ','), vec!["a", "b"]);
}
