use edit_core::document::Document;
use edit_core::highlight::{SyntaxHighlighter, MAX_CACHE_SIZE};
use edit_core::spans::{heuristic_highlight, Rgba, StyledSpan};
use edit_core::FileType;

fn joined(spans: &[StyledSpan]) -> String {
    spans.iter().map(|s| s.text.as_str()).collect()
}

#[test]
fn delegated_spans_rebuild_the_line() {
    let mut h = SyntaxHighlighter::new();
    for (line, ft) in [
        ("fn main() { let x = 1; }", FileType::Rust),
        ("def f(x): return x  # done", FileType::Python),
        ("key: [1, 2]", FileType::YAML),
        ("", FileType::Plain),
        ("<div class=\"a\">h\u{e9}</div>", FileType::HTML),
    ] {
        let spans = h.highlight_line(line, ft, 0);
        assert_eq!(joined(&spans), line);
    }
}

#[test]
fn rust_line_is_split_by_the_grammar() {
    let mut h = SyntaxHighlighter::new();
    let spans = h.highlight_line("fn main() {}", FileType::Rust, 3);
    assert!(spans.len() > 1);
}

#[test]
fn heuristic_comment_line() {
    let spans = heuristic_highlight("  # note");
    assert_eq!(spans.len(), 1);
    assert_eq!(spans[0].text, "  # note");
    assert_eq!(spans[0].style.foreground, Rgba { r: 128, g: 128, b: 128, a: 255 });
}

#[test]
fn heuristic_key_value_line() {
    let spans = heuristic_highlight("name: edit");
    assert_eq!(spans.len(), 2);
    assert_eq!(spans[0].text, "name:");
    assert_eq!(spans[0].style.foreground, Rgba { r: 100, g: 149, b: 237, a: 255 });
    assert_eq!(spans[1].text, " edit");
    assert_eq!(spans[1].style.foreground, Rgba { r: 0, g: 0, b: 0, a: 255 });
    let only_key = heuristic_highlight("name:");
    assert_eq!(only_key.len(), 1);
}

#[test]
fn heuristic_list_item_line() {
    let spans = heuristic_highlight("  - a: b");
    assert_eq!(spans.len(), 3);
    assert_eq!(spans[0].text, "  ");
    assert_eq!(spans[1].text, "-");
    assert_eq!(spans[1].style.foreground, Rgba { r: 198, g: 120, b: 221, a: 255 });
    assert_eq!(spans[2].text, " a: b");
    assert_eq!(heuristic_highlight("-").len(), 2);
}

#[test]
fn heuristic_plain_line() {
    let spans = heuristic_highlight("just text");
    assert_eq!(spans.len(), 1);
    assert_eq!(spans[0].text, "just text");
    assert_eq!(spans[0].style.background, Rgba { r: 255, g: 255, b: 255, a: 255 });
}

#[test]
fn cache_never_exceeds_its_maximum() {
    let mut h = SyntaxHighlighter::new();
    for i in 0..(MAX_CACHE_SIZE + 25) {
        h.highlight_line("x", FileType::Plain, i);
        assert!(h.cache_len() <= MAX_CACHE_SIZE);
    }
    assert_eq!(h.cache_len(), MAX_CACHE_SIZE);
}

#[test]
fn cache_hit_does_not_grow_the_cache() {
    let mut h = SyntaxHighlighter::new();
    let a = h.highlight_line("let a = 1;", FileType::Rust, 0);
    let b = h.highlight_line("let a = 1;", FileType::Rust, 0);
    assert_eq!(h.cache_len(), 1);
    assert_eq!(joined(&a), joined(&b));
    h.highlight_line("let a = 1;", FileType::Rust, 1);
    assert_eq!(h.cache_len(), 2);
}

#[test]
fn set_theme_with_valid_name_clears_the_cache() {
    let mut h = SyntaxHighlighter::new();
    h.highlight_line("let a = 1;", FileType::Rust, 0);
    assert_eq!(h.cache_len(), 1);
    assert!(h.set_theme("InspiredGitHub"));
    assert_eq!(h.cache_len(), 0);
    let spans = h.highlight_line("let a = 1;", FileType::Rust, 0);
    assert_eq!(joined(&spans), "let a = 1;");
    assert_eq!(h.cache_len(), 1);
}

#[test]
fn set_theme_with_unknown_name_changes_nothing() {
    let mut h = SyntaxHighlighter::new();
    h.highlight_line("a", FileType::Plain, 0);
    assert!(!h.set_theme("no such theme"));
    assert_eq!(h.cache_len(), 1);
}

#[test]
fn themes_and_grammars_are_listed() {
    let h = SyntaxHighlighter::new();
    let themes = h.available_themes();
    assert!(themes.iter().any(|t| t == "base16-ocean.dark"));
    assert!(themes.iter().any(|t| t == "InspiredGitHub"));
    assert!(h.has_syntax_for_extension("rs"));
    assert!(!h.has_syntax_for_extension("no-such-extension"));
    assert!(h.list_available_syntaxes().iter().any(|s| s.starts_with("Rust (")));
    assert_eq!(
        h.debug_syntax_for_filetype(FileType::Rust),
        Some("FileType: Rust -> Syntax: Rust".to_string())
    );
}

#[test]
fn custom_theme_is_registered_and_made_active() {
    let mut h = SyntaxHighlighter::new();
    h.highlight_line("a", FileType::Plain, 0);
    h.load_custom_theme(Some("mine"), syntect::highlighting::Theme::default());
    assert_eq!(h.cache_len(), 0);
    assert!(h.available_themes().iter().any(|t| t == "mine"));
    h.load_custom_theme(None, syntect::highlighting::Theme::default());
    assert!(h.available_themes().iter().any(|t| t == "custom"));
    assert!(h.set_theme("mine"));
}

#[test]
fn document_highlights_by_its_file_type() {
    let mut d = Document::from_string("fn x() {}\n".to_string(), "lib.rs");
    let spans = d.highlight_line("fn x() {}", 0);
    assert_eq!(joined(&spans), "fn x() {}");
    assert!(spans.len() > 1);
    assert!(d.set_theme("base16-ocean.dark"));
    assert!(!d.set_theme("nope"));
    assert!(!d.available_themes().is_empty());
}

#[test]
fn heuristic_skips_every_unicode_whitespace() {
    let comment = heuristic_highlight("\r#");
    assert_eq!(comment.len(), 1);
    assert_eq!(comment[0].style.foreground, Rgba { r: 128, g: 128, b: 128, a: 255 });
    let item = heuristic_highlight("\r-");
    assert_eq!(item.len(), 2);
    assert_eq!(item[0].text, "\r");
    assert_eq!(item[1].text, "-");
    let wide = heuristic_highlight("\u{3000}\u{a0}- x");
    assert_eq!(wide.len(), 3);
    assert_eq!(wide[2].text, " x");
}

#[test]
fn syntax_lines_name_grammar_and_extensions() {
    let h = SyntaxHighlighter::new();
    let lines = h.list_available_syntaxes();
    assert!(lines.iter().any(|l| l == "Plain Text (txt)"));
    assert!(lines.iter().all(|l| l.ends_with(')')));
    assert_eq!(
        h.debug_syntax_for_filetype(FileType::Python),
        Some("FileType: Python -> Syntax: Python".to_string())
    );
}
