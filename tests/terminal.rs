use lst::terminal::{supports_unicode, CharacterSet};

#[test]
fn test_character_sets() {
    let unicode = CharacterSet::Unicode;
    assert_eq!(unicode.branch_middle(), "├── ");
    assert_eq!(unicode.branch_last(), "└── ");
    assert_eq!(unicode.continuation(), "│   ");

    let ascii = CharacterSet::Ascii;
    assert_eq!(ascii.branch_middle(), "+-- ");
    assert_eq!(ascii.branch_last(), "`-- ");
    assert_eq!(ascii.continuation(), "|   ");
}

#[test]
fn test_detect_returns_valid_charset() {
    let charset = CharacterSet::detect(false, Some("dumb"), None, None);
    assert!(charset == CharacterSet::Unicode || charset == CharacterSet::Ascii);
}

#[test]
fn empty_glyph_is_four_spaces() {
    assert_eq!(CharacterSet::Unicode.empty(), "    ");
    assert_eq!(CharacterSet::Ascii.empty(), "    ");
}

#[test]
fn unicode_needs_a_terminal() {
    assert!(!supports_unicode(false, Some("xterm"), Some("en_US.UTF-8"), None));
}

#[test]
fn term_is_matched_in_lower_case() {
    assert!(supports_unicode(true, Some("XTERM-256COLOR"), None, None));
    assert!(supports_unicode(true, Some("linux"), None, None));
    assert!(!supports_unicode(true, Some("linux2"), None, None));
    assert!(!supports_unicode(true, Some("dumb"), None, None));
}

#[test]
fn locale_is_matched_in_upper_case() {
    assert!(supports_unicode(true, None, Some("en_us.utf-8"), None));
    assert!(supports_unicode(true, None, None, Some("C.utf8")));
    assert!(!supports_unicode(true, None, Some("C"), Some("POSIX")));
}

#[test]
fn detect_picks_the_set() {
    assert_eq!(CharacterSet::detect(true, Some("tmux"), None, None), CharacterSet::Unicode);
    assert_eq!(CharacterSet::detect(true, None, None, None), CharacterSet::Ascii);
}
