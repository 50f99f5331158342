use edit_core::highlight::SyntaxHighlighter;
use edit_core::FileType;

#[test]
fn well_known_names() {
    assert_eq!(SyntaxHighlighter::detect_file_type("Dockerfile"), FileType::Dockerfile);
    assert_eq!(SyntaxHighlighter::detect_file_type("docker-compose.yml"), FileType::YAML);
    assert_eq!(SyntaxHighlighter::detect_file_type("main.rs"), FileType::Rust);
    assert_eq!(SyntaxHighlighter::detect_file_type("notes.txt"), FileType::Plain);
}

#[test]
fn yaml_names_are_matched_without_case() {
    assert_eq!(SyntaxHighlighter::detect_file_type("AppVeyor.yml"), FileType::YAML);
    assert_eq!(SyntaxHighlighter::detect_file_type(".travis.yml"), FileType::YAML);
}

#[test]
fn workflow_directory_yaml() {
    assert_eq!(SyntaxHighlighter::detect_file_type(".github/workflows/ci.yaml"), FileType::YAML);
    assert_eq!(SyntaxHighlighter::detect_file_type(".github/dependabot.yml"), FileType::YAML);
}

#[test]
fn extensions() {
    assert_eq!(SyntaxHighlighter::detect_file_type("a/b/script.py"), FileType::Python);
    assert_eq!(SyntaxHighlighter::detect_file_type("app.js"), FileType::JavaScript);
    assert_eq!(SyntaxHighlighter::detect_file_type("app.ts"), FileType::TypeScript);
    assert_eq!(SyntaxHighlighter::detect_file_type("view.tsx"), FileType::TypeScript);
    assert_eq!(SyntaxHighlighter::detect_file_type("index.htm"), FileType::HTML);
    assert_eq!(SyntaxHighlighter::detect_file_type("index.html"), FileType::HTML);
    assert_eq!(SyntaxHighlighter::detect_file_type("site.css"), FileType::CSS);
    assert_eq!(SyntaxHighlighter::detect_file_type("config.yaml"), FileType::YAML);
}

#[test]
fn extensions_are_matched_without_case() {
    assert_eq!(SyntaxHighlighter::detect_file_type("MAIN.RS"), FileType::Rust);
    assert_eq!(SyntaxHighlighter::detect_file_type("Page.HTML"), FileType::HTML);
}

#[test]
fn names_without_extension_are_plain() {
    assert_eq!(SyntaxHighlighter::detect_file_type(".bashrc"), FileType::Plain);
    assert_eq!(SyntaxHighlighter::detect_file_type("Makefile"), FileType::Plain);
    assert_eq!(SyntaxHighlighter::detect_file_type("dir.rs/README"), FileType::Plain);
    assert_eq!(SyntaxHighlighter::detect_file_type(""), FileType::Plain);
}
