use edit_core::highlight::SyntaxHighlighter;
use edit_core::indent::{IndentRule, SmartIndenter};
use edit_core::FileType;

fn lines(v: &[&str]) -> Vec<String> {
    v.iter().map(|s| s.to_string()).collect()
}

#[test]
fn python_block_opener_raises_the_indent() {
    let ind = SmartIndenter::new();
    assert_eq!(ind.calculate_indent(&lines(&["def f():"]), 1, "", FileType::Python, 4), 4);
}

#[test]
fn python_else_lowers_the_indent() {
    let ind = SmartIndenter::new();
    assert_eq!(ind.calculate_indent(&lines(&["if x:", "    pass"]), 2, "else:", FileType::Python, 4), 0);
}

#[test]
fn first_line_and_empty_history_get_no_indent() {
    let ind = SmartIndenter::new();
    assert_eq!(ind.calculate_indent(&lines(&["    x"]), 0, "", FileType::Rust, 4), 0);
    assert_eq!(ind.calculate_indent(&[], 3, "", FileType::Rust, 4), 0);
}

#[test]
fn rust_braces() {
    let ind = SyntaxHighlighter::create_smart_indenter();
    let l = lines(&["fn main() {", "    let x = 1;"]);
    assert_eq!(ind.calculate_indent(&l, 1, "", FileType::Rust, 4), 4);
    assert_eq!(ind.calculate_indent(&l, 2, "}", FileType::Rust, 4), 0);
    assert_eq!(ind.calculate_indent(&l, 2, "let y = 2;", FileType::Rust, 4), 4);
    assert_eq!(ind.calculate_indent(&lines(&["    if a {", "        b", "    }"]), 2, "} else {", FileType::Rust, 4), 4);
}

#[test]
fn javascript_catch_keeps_the_indent() {
    let ind = SmartIndenter::new();
    let l = lines(&["    try {", "        f();"]);
    assert_eq!(ind.calculate_indent(&l, 2, "    } catch (e) {", FileType::TypeScript, 4), 4);
}

#[test]
fn python_main_guard_stays_at_top_level() {
    let ind = SmartIndenter::new();
    let l = lines(&["if __name__ == '__main__':"]);
    assert_eq!(ind.calculate_indent(&l, 1, "", FileType::Python, 4), 0);
}

#[test]
fn index_past_the_end_uses_the_last_line() {
    let ind = SmartIndenter::new();
    let l = lines(&["x:", "  y:"]);
    assert_eq!(ind.calculate_indent(&l, 10, "", FileType::YAML, 2), 4);
}

#[test]
fn unknown_type_keeps_the_previous_indent() {
    let ind = SmartIndenter::new();
    let l = lines(&["\tfoo {"]);
    assert_eq!(ind.calculate_indent(&l, 1, "}", FileType::Plain, 8), 8);
    assert_eq!(ind.calculate_indent(&l, 5, "}", FileType::Dockerfile, 8), 8);
}

#[test]
fn lower_indent_never_goes_below_zero() {
    let ind = SmartIndenter::new();
    let l = lines(&["  x"]);
    assert_eq!(ind.calculate_indent(&l, 1, "}", FileType::CSS, 4), 0);
}

#[test]
fn html_tags() {
    let ind = SmartIndenter::new();
    let l = lines(&["<div>"]);
    assert_eq!(ind.calculate_indent(&l, 1, "", FileType::HTML, 2), 2);
    assert_eq!(ind.calculate_indent(&lines(&["<div>", "  <p>"]), 2, "</p>", FileType::HTML, 2), 0);
}

#[test]
fn line_indent_counts_spaces_and_tabs() {
    let ind = SmartIndenter::new();
    assert_eq!(ind.get_line_indent(" \t x", 4), 6);
    assert_eq!(ind.get_line_indent("x  ", 4), 0);
    assert_eq!(ind.get_line_indent("", 4), 0);
}

#[test]
fn every_standard_pattern_compiles() {
    assert_eq!(IndentRule::python().increase_patterns.len(), 2);
    assert_eq!(IndentRule::rust().decrease_increase_patterns.len(), 1);
    assert_eq!(IndentRule::javascript().decrease_increase_patterns.len(), 3);
    assert_eq!(IndentRule::html().increase_patterns.len(), 2);
    assert_eq!(IndentRule::css().increase_patterns.len(), 1);
    assert_eq!(IndentRule::yaml().increase_patterns.len(), 5);
}
