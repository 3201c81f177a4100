use ssg::highlight::{expand_leading_tabs, is_default_theme_name, split_lines, HighlightError, SyntaxHighlighter};

const THEME_NAMES: [&str; 7] = [
    "base16-ocean.dark",
    "base16-eighties.dark",
    "base16-mocha.dark",
    "base16-ocean.light",
    "InspiredGitHub",
    "Solarized (dark)",
    "Solarized (light)",
];

#[test]
fn plaintext() {
    for theme in &THEME_NAMES {
        let highlighter = SyntaxHighlighter::new(theme);
        highlighter.highlight_segment("abc123").expect("highlighting should succeed");
        highlighter.highlight_block("abc123", None).expect("highlighting should succeed");
    }
}

#[test]
fn extension_based_syntax_detection() {
    for theme in &THEME_NAMES {
        SyntaxHighlighter::new(theme)
            .highlight_block("const FOO: usize = 42;", Some("rs"))
            .expect("highlighting should succeed");
    }
}

#[test]
fn name_based_syntax_detection() {
    for theme in &THEME_NAMES {
        SyntaxHighlighter::new(theme)
            .highlight_block("const FOO: usize = 42;", Some("rust"))
            .expect("highlighting should succeed");
    }
}

#[test]
fn invalid_syntax() {
    for theme in &THEME_NAMES {
        SyntaxHighlighter::new(theme)
            .highlight_block("constant foo u0 = \"abc", Some("rust"))
            .expect("highlighting should succeed");
    }
}

#[test]
fn nonexistent_language() {
    for theme in &THEME_NAMES {
        assert!(
            SyntaxHighlighter::new(theme).highlight_block("abc", Some("klingon")).is_err(),
            "syntax detection for non-existent language should fail"
        );
    }
}

#[test]
fn tabs_to_spaces() {
    const TEXT_SPACES: &str = "\nabc\n    abc\n        abc\n     abc\n     abc\n          abc\n";
    const TEXT_TABS: &str = "\nabc\n\tabc\n\t\tabc\n\t abc\n \tabc\n \t \tabc\n";
    for theme in &THEME_NAMES {
        let highlighter = SyntaxHighlighter::new(theme);
        assert_eq!(
            highlighter.highlight_block(TEXT_SPACES, None).expect("highlighting should succeed"),
            highlighter.highlight_block(TEXT_TABS, None).expect("highlighting should succeed"),
        );
    }
}

#[test]
fn syntax_highlighting() {
    let highlighter = SyntaxHighlighter::new("base16-ocean.light");
    assert!(highlighter.highlight("abc123", None).is_ok(), "plaintext highlighting should succeed");
    assert!(
        highlighter.highlight("const FOO: usize = 42;", Some("rs")).is_ok(),
        "extension-based syntax detection and highlighting should succeed"
    );
    assert!(
        highlighter.highlight("const FOO: usize = 42;", Some("rust")).is_ok(),
        "name-based syntax detection and highlighting should succeed"
    );
    assert!(
        highlighter.highlight("constant foo u0 = \"abc", Some("rust")).is_ok(),
        "highlighting should succeed for invalid syntax"
    );
    assert!(
        highlighter.highlight("", Some("klingon")).is_err(),
        "syntax detection for non-existent language should fail"
    );
}

#[test]
fn unknown_language_is_named() {
    let h = SyntaxHighlighter::new("InspiredGitHub");
    assert_eq!(
        h.highlight_block("abc", Some("klingon")),
        Err(HighlightError::UnknownLanguage("klingon".into()))
    );
    assert!(h.highlight_block("abc", Some("")).is_ok());
}

#[test]
fn leading_tabs_only() {
    assert_eq!(expand_leading_tabs("\t a\tb"), "     a\tb");
    assert_eq!(expand_leading_tabs("x\t"), "x\t");
    assert_eq!(split_lines("a\nb\n\nc"), vec!["a\n", "b\n", "\n", "c"]);
    assert!(split_lines("").is_empty());
    assert!(is_default_theme_name("Solarized (dark)"));
    assert!(!is_default_theme_name("klingon"));
}

#[test]
fn segment_is_wrapped_in_code() {
    let h = SyntaxHighlighter::new("InspiredGitHub");
    let s = h.highlight_segment("x < y").expect("highlighting should succeed");
    assert!(s.starts_with("<code>") && s.ends_with("</code>"));
    assert!(s.contains("x &lt; y"));
}
