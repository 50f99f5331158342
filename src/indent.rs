//! Rule-based auto-indentation: per-language pattern tables and the
//! calculation of the indent of a new line.

use vstd::prelude::*;
use regex::Regex;
use crate::chars::{contains, contains_seq};
use crate::filetype::FileType;
use crate::highlight::SyntaxHighlighter;

verus! {

#[verifier::external_type_specification]
#[verifier::external_body]
pub struct ExRegex(Regex);

/// Whether `Regex::new` accepts the pattern.
pub uninterp spec fn regex_compiles(pattern: Seq<char>) -> bool;

/// Whether `Regex::is_match` finds a match of the pattern in the text.
pub uninterp spec fn regex_is_match(pattern: Seq<char>, text: Seq<char>) -> bool;

/// A compiled regular expression together with its source.
#[derive(Debug)]
pub struct IndentPattern {
    source: String,
    regex: Regex,
}

impl View for IndentPattern {
    type V = Seq<char>;

    closed spec fn view(&self) -> Seq<char> {
        self.source@
    }
}

/// Relies on `Regex::new`: whether a pattern compiles depends on the pattern
/// alone. The compiled form is kept beside its source.
#[verifier::external_body]
fn compile(source: &str) -> (r: Option<IndentPattern>)
    ensures
        r is Some <==> regex_compiles(source@),
        r matches Some(p) ==> p@ == source@,
{
    Regex::new(source).ok().map(|regex| IndentPattern { source: source.to_string(), regex })
}

/// Relies on `Regex::is_match`: whether the text holds a match of the
/// pattern that the regex was compiled from.
#[verifier::external_body]
fn pattern_matches(p: &IndentPattern, text: &str) -> (r: bool)
    ensures
        r == regex_is_match(p@, text@),
{
    p.regex.is_match(text)
}

/// The sources of the patterns.
pub open spec fn sources_of(v: Seq<IndentPattern>) -> Seq<Seq<char>> {
    v.map_values(|p: IndentPattern| p@)
}

/// The sources among `s` that compile, in order.
pub open spec fn compiled_sources(s: Seq<&'static str>) -> Seq<Seq<char>>
    decreases s.len(),
{
    if s.len() == 0 {
        Seq::empty()
    } else if regex_compiles(s.last()@) {
        compiled_sources(s.drop_last()).push(s.last()@)
    } else {
        compiled_sources(s.drop_last())
    }
}

/// Some pattern matches the text.
pub open spec fn any_match(patterns: Seq<Seq<char>>, text: Seq<char>) -> bool {
    exists|i: int| 0 <= i < patterns.len() && regex_is_match(#[trigger] patterns[i], text)
}

/// The three pattern lists of a rule, by their sources: those that raise
/// the indent after a line, those that lower it for a line, and those that
/// keep it for a line (they lower it for the line and raise it after).
pub type RuleView = (Seq<Seq<char>>, Seq<Seq<char>>, Seq<Seq<char>>);

/// How a language's lines move the indent.
#[derive(Debug)]
pub struct IndentRule {
    /// Patterns of a line after which the indent grows.
    pub increase_patterns: Vec<IndentPattern>,
    /// Patterns of a line whose own indent shrinks.
    pub decrease_patterns: Vec<IndentPattern>,
    /// Patterns of a line whose indent shrinks and grows again after it.
    pub decrease_increase_patterns: Vec<IndentPattern>,
}

impl View for IndentRule {
    type V = RuleView;

    open spec fn view(&self) -> RuleView {
        (
            sources_of(self.increase_patterns@),
            sources_of(self.decrease_patterns@),
            sources_of(self.decrease_increase_patterns@),
        )
    }
}

/// A rule made of the patterns among the three lists that compile.
pub open spec fn rule_of(increase: Seq<&'static str>, decrease: Seq<&'static str>, both: Seq<&'static str>) -> RuleView {
    (compiled_sources(increase), compiled_sources(decrease), compiled_sources(both))
}

/// Blocks open after a `:` line or a decorator; `elif`, `else`, `except`,
/// `finally` and the jump statements close one.
pub open spec fn python_rule() -> RuleView {
    rule_of(
        seq![r":\s*(?:#.*)?$", r"^\s*@\w+"],
        seq![r"^\s*(elif|else|except|finally|break|continue|pass|return)\b"],
        seq![r"^\s*(elif|else|except|finally).*:\s*(?:#.*)?$"],
    )
}

/// Blocks open after `{` or a bare `=>`; `}` closes one; `} else {` does both.
pub open spec fn rust_rule() -> RuleView {
    rule_of(
        seq![r"\{\s*(?://.*)?$", r"=>\s*(?://.*)?$"],
        seq![r"^\s*\}"],
        seq![r"^\s*\}\s*else\s*\{"],
    )
}

/// As for Rust, with `} catch (` and `} finally {` beside `} else {`.
pub open spec fn javascript_rule() -> RuleView {
    rule_of(
        seq![r"\{\s*(?://.*)?$", r"=>\s*(?://.*)?$"],
        seq![r"^\s*\}"],
        seq![r"^\s*\}\s*else\s*\{", r"^\s*\}\s*catch\s*\(", r"^\s*\}\s*finally\s*\{"],
    )
}

/// Blocks open after an opening tag; a closing tag closes one.
pub open spec fn html_rule() -> RuleView {
    rule_of(
        seq![
            r"<[a-zA-Z][^/>]*>$",
            r"<(div|p|ul|ol|li|table|tr|td|th|head|body|html|section|article|nav|aside|header|footer|main)[^>]*>",
        ],
        seq![r"^\s*</"],
        seq![],
    )
}

/// Blocks open after `{`; `}` closes one.
pub open spec fn css_rule() -> RuleView {
    rule_of(seq![r"\{\s*(?:/\*.*\*/\s*)?$"], seq![r"^\s*\}"], seq![])
}

/// Blocks open after a key with no value, a block scalar, or a list item
/// that opens a mapping.
pub open spec fn yaml_rule() -> RuleView {
    rule_of(
        seq![r":\s*$", r":\s*\|", r":\s*>", r"^\s*-\s*$", r"^\s*-\s+\w+:\s*$"],
        seq![],
        seq![],
    )
}

/// The rule of each file type that has one.
pub open spec fn standard_rule(file_type: FileType) -> Option<RuleView> {
    match file_type {
        FileType::Python => Some(python_rule()),
        FileType::Rust => Some(rust_rule()),
        FileType::JavaScript | FileType::TypeScript => Some(javascript_rule()),
        FileType::HTML => Some(html_rule()),
        FileType::CSS => Some(css_rule()),
        FileType::YAML => Some(yaml_rule()),
        _ => None,
    }
}

/// Compiles the sources, leaving out those that do not compile.
fn compile_all(sources: Vec<&'static str>) -> (r: Vec<IndentPattern>)
    ensures
        sources_of(r@) == compiled_sources(sources@),
{
    let mut r: Vec<IndentPattern> = Vec::new();
    let mut i: usize = 0;
    while i < sources.len()
        invariant
            i <= sources@.len(),
            sources_of(r@) == compiled_sources(sources@.subrange(0, i as int)),
        decreases sources@.len() - i,
    {
        let ghost before = r@;
        let next = compile(sources[i]);
        assert(sources@.subrange(0, i + 1).drop_last() == sources@.subrange(0, i as int));
        match next {
            Some(p) => {
                r.push(p);
                assert(sources_of(r@) =~= sources_of(before).push(p@));
            },
            None => {},
        }
        i = i + 1;
    }
    assert(sources@.subrange(0, sources@.len() as int) == sources@);
    r
}

fn make_rule(increase: Vec<&'static str>, decrease: Vec<&'static str>, both: Vec<&'static str>) -> (r: IndentRule)
    ensures
        r@ == rule_of(increase@, decrease@, both@),
{
    IndentRule {
        increase_patterns: compile_all(increase),
        decrease_patterns: compile_all(decrease),
        decrease_increase_patterns: compile_all(both),
    }
}

impl IndentRule {
    /// The rule for Python.
    pub fn python() -> (r: IndentRule)
        ensures
            r@ == python_rule(),
    {
        let increase = vec![r":\s*(?:#.*)?$", r"^\s*@\w+"];
        let decrease = vec![r"^\s*(elif|else|except|finally|break|continue|pass|return)\b"];
        let both = vec![r"^\s*(elif|else|except|finally).*:\s*(?:#.*)?$"];
        assert(increase@ =~= seq![r":\s*(?:#.*)?$", r"^\s*@\w+"]);
        assert(decrease@ =~= seq![r"^\s*(elif|else|except|finally|break|continue|pass|return)\b"]);
        assert(both@ =~= seq![r"^\s*(elif|else|except|finally).*:\s*(?:#.*)?$"]);
        make_rule(increase, decrease, both)
    }

    /// The rule for Rust.
    pub fn rust() -> (r: IndentRule)
        ensures
            r@ == rust_rule(),
    {
        let increase = vec![r"\{\s*(?://.*)?$", r"=>\s*(?://.*)?$"];
        let decrease = vec![r"^\s*\}"];
        let both = vec![r"^\s*\}\s*else\s*\{"];
        assert(increase@ =~= seq![r"\{\s*(?://.*)?$", r"=>\s*(?://.*)?$"]);
        assert(decrease@ =~= seq![r"^\s*\}"]);
        assert(both@ =~= seq![r"^\s*\}\s*else\s*\{"]);
        make_rule(increase, decrease, both)
    }

    /// The rule for JavaScript and TypeScript.
    pub fn javascript() -> (r: IndentRule)
        ensures
            r@ == javascript_rule(),
    {
        let increase = vec![r"\{\s*(?://.*)?$", r"=>\s*(?://.*)?$"];
        let decrease = vec![r"^\s*\}"];
        let both = vec![r"^\s*\}\s*else\s*\{", r"^\s*\}\s*catch\s*\(", r"^\s*\}\s*finally\s*\{"];
        assert(increase@ =~= seq![r"\{\s*(?://.*)?$", r"=>\s*(?://.*)?$"]);
        assert(decrease@ =~= seq![r"^\s*\}"]);
        assert(both@ =~= seq![r"^\s*\}\s*else\s*\{", r"^\s*\}\s*catch\s*\(", r"^\s*\}\s*finally\s*\{"]);
        make_rule(increase, decrease, both)
    }

    /// The rule for HTML.
    pub fn html() -> (r: IndentRule)
        ensures
            r@ == html_rule(),
    {
        let increase = vec![
            r"<[a-zA-Z][^/>]*>$",
            r"<(div|p|ul|ol|li|table|tr|td|th|head|body|html|section|article|nav|aside|header|footer|main)[^>]*>",
        ];
        let decrease = vec![r"^\s*</"];
        let both: Vec<&'static str> = Vec::new();
        assert(increase@ =~= seq![
            r"<[a-zA-Z][^/>]*>$",
            r"<(div|p|ul|ol|li|table|tr|td|th|head|body|html|section|article|nav|aside|header|footer|main)[^>]*>",
        ]);
        assert(decrease@ =~= seq![r"^\s*</"]);
        assert(both@ =~= seq![]);
        make_rule(increase, decrease, both)
    }

    /// The rule for CSS.
    pub fn css() -> (r: IndentRule)
        ensures
            r@ == css_rule(),
    {
        let increase = vec![r"\{\s*(?:/\*.*\*/\s*)?$"];
        let decrease = vec![r"^\s*\}"];
        let both: Vec<&'static str> = Vec::new();
        assert(increase@ =~= seq![r"\{\s*(?:/\*.*\*/\s*)?$"]);
        assert(decrease@ =~= seq![r"^\s*\}"]);
        assert(both@ =~= seq![]);
        make_rule(increase, decrease, both)
    }

    /// The rule for YAML.
    pub fn yaml() -> (r: IndentRule)
        ensures
            r@ == yaml_rule(),
    {
        let increase = vec![r":\s*$", r":\s*\|", r":\s*>", r"^\s*-\s*$", r"^\s*-\s+\w+:\s*$"];
        let decrease: Vec<&'static str> = Vec::new();
        let both: Vec<&'static str> = Vec::new();
        assert(increase@ =~= seq![r":\s*$", r":\s*\|", r":\s*>", r"^\s*-\s*$", r"^\s*-\s+\w+:\s*$"]);
        assert(decrease@ =~= seq![]);
        assert(both@ =~= seq![]);
        make_rule(increase, decrease, both)
    }
}

/// The column width of the leading whitespace of a line: a space is one
/// column, a tab `tab_size` columns; the first other character ends it.
pub open spec fn line_indent(line: Seq<char>, tab_size: int) -> int
    decreases line.len(),
{
    if line.len() == 0 {
        0
    } else if line[0] == ' ' {
        1 + line_indent(line.subrange(1, line.len() as int), tab_size)
    } else if line[0] == '\t' {
        tab_size + line_indent(line.subrange(1, line.len() as int), tab_size)
    } else {
        0
    }
}

/// The line before the one at `index`, or the last line where `index` is
/// past the end.
pub open spec fn previous_line(lines: Seq<Seq<char>>, index: int) -> Seq<char> {
    if index >= lines.len() {
        lines.last()
    } else {
        lines[index - 1]
    }
}

/// The indent for a line at `index` whose text is `current`, after `lines`:
/// nothing for the first line; else, from the indent of the previous line,
/// a step less where `current` matches a lowering pattern, the same where it
/// matches a lowering-and-raising one, nothing after a top-level main guard
/// in Python, a step more after a line that matches a raising pattern, and
/// the same otherwise. Without a rule, the same as the previous line.
pub open spec fn indent_for(
    rule: Option<RuleView>,
    lines: Seq<Seq<char>>,
    index: int,
    current: Seq<char>,
    file_type: FileType,
    tab_size: int,
) -> int {
    if index == 0 || lines.len() == 0 {
        0
    } else {
        let prev = previous_line(lines, index);
        let prev_indent = line_indent(prev, tab_size);
        match rule {
            None => prev_indent,
            Some(r) => if any_match(r.1, current) {
                if prev_indent >= tab_size { prev_indent - tab_size } else { 0 }
            } else if any_match(r.2, current) {
                prev_indent
            } else if file_type == FileType::Python && prev_indent == 0 && contains_seq(prev, "__name__"@)
                && contains_seq(prev, "__main__"@) {
                0
            } else if any_match(r.0, prev) {
                prev_indent + tab_size
            } else {
                prev_indent
            },
        }
    }
}

/// The texts of the lines.
pub open spec fn texts_of(lines: Seq<String>) -> Seq<Seq<char>> {
    lines.map_values(|l: String| l@)
}

fn any_matches(patterns: &Vec<IndentPattern>, text: &str) -> (r: bool)
    ensures
        r == any_match(sources_of(patterns@), text@),
{
    let mut i: usize = 0;
    while i < patterns.len()
        invariant
            i <= patterns@.len(),
            forall|k: int| 0 <= k < i ==> !regex_is_match(#[trigger] sources_of(patterns@)[k], text@),
        decreases patterns@.len() - i,
    {
        if pattern_matches(&patterns[i], text) {
            assert(sources_of(patterns@)[i as int] == patterns@[i as int]@);
            return true;
        }
        i = i + 1;
    }
    false
}

/// The indentation engine: one rule per language that has one.
pub struct SmartIndenter {
    python: IndentRule,
    rust: IndentRule,
    javascript: IndentRule,
    typescript: IndentRule,
    html: IndentRule,
    css: IndentRule,
    yaml: IndentRule,
}

impl SmartIndenter {
    /// The rule of a file type, by the sources of its patterns.
    pub closed spec fn rule_view(&self, file_type: FileType) -> Option<RuleView> {
        match file_type {
            FileType::Python => Some(self.python@),
            FileType::Rust => Some(self.rust@),
            FileType::JavaScript => Some(self.javascript@),
            FileType::TypeScript => Some(self.typescript@),
            FileType::HTML => Some(self.html@),
            FileType::CSS => Some(self.css@),
            FileType::YAML => Some(self.yaml@),
            _ => None,
        }
    }

    /// An engine with the standard rule of each language; TypeScript
    /// shares JavaScript's.
    pub fn new() -> (r: SmartIndenter)
        ensures
            forall|t: FileType| #[trigger] r.rule_view(t) == standard_rule(t),
    {
        SmartIndenter {
            python: IndentRule::python(),
            rust: IndentRule::rust(),
            javascript: IndentRule::javascript(),
            typescript: IndentRule::javascript(),
            html: IndentRule::html(),
            css: IndentRule::css(),
            yaml: IndentRule::yaml(),
        }
    }

    fn rule_for(&self, file_type: FileType) -> (r: Option<&IndentRule>)
        ensures
            r matches Some(rule) ==> self.rule_view(file_type) == Some(rule@),
            r is None ==> self.rule_view(file_type) is None,
    {
        match file_type {
            FileType::Python => Some(&self.python),
            FileType::Rust => Some(&self.rust),
            FileType::JavaScript => Some(&self.javascript),
            FileType::TypeScript => Some(&self.typescript),
            FileType::HTML => Some(&self.html),
            FileType::CSS => Some(&self.css),
            FileType::YAML => Some(&self.yaml),
            _ => None,
        }
    }

    /// The indent for the line at `current_line_idx`, whose text is
    /// `current_line_content`, after `lines`.
    pub fn calculate_indent(
        &self,
        lines: &[String],
        current_line_idx: usize,
        current_line_content: &str,
        file_type: FileType,
        tab_size: usize,
    ) -> (r: usize)
        requires
            current_line_idx > 0 && lines@.len() > 0 ==> line_indent(
                previous_line(texts_of(lines@), current_line_idx as int),
                tab_size as int,
            ) + tab_size <= usize::MAX,
        ensures
            r == indent_for(
                self.rule_view(file_type),
                texts_of(lines@),
                current_line_idx as int,
                current_line_content@,
                file_type,
                tab_size as int,
            ),
    {
        if current_line_idx == 0 || lines.len() == 0 {
            return 0;
        }
        let prev_idx: usize = if current_line_idx >= lines.len() { lines.len() - 1 } else { current_line_idx - 1 };
        let prev_line = &lines[prev_idx];
        assert(prev_line@ == previous_line(texts_of(lines@), current_line_idx as int));
        proof {
            lemma_line_indent_nonnegative(prev_line@, tab_size as int);
        }
        let prev_indent = self.get_line_indent(prev_line.as_str(), tab_size);
        let rule = match self.rule_for(file_type) {
            Some(rule) => rule,
            None => {
                return prev_indent;
            },
        };
        if any_matches(&rule.decrease_patterns, current_line_content) {
            return if prev_indent >= tab_size { prev_indent - tab_size } else { 0 };
        }
        if any_matches(&rule.decrease_increase_patterns, current_line_content) {
            return prev_indent;
        }
        if file_type == FileType::Python && prev_indent == 0 && contains(prev_line.as_str(), "__name__")
            && contains(prev_line.as_str(), "__main__") {
            return 0;
        }
        if any_matches(&rule.increase_patterns, prev_line.as_str()) {
            return prev_indent + tab_size;
        }
        prev_indent
    }

    /// The column width of the leading whitespace of `line`.
    pub fn get_line_indent(&self, line: &str, tab_size: usize) -> (r: usize)
        requires
            line_indent(line@, tab_size as int) <= usize::MAX,
        ensures
            r == line_indent(line@, tab_size as int),
    {
        let n = line.unicode_len();
        let mut count: usize = 0;
        let mut i: usize = 0;
        assert(line@.subrange(0, n as int) == line@);
        while i < n
            invariant
                n == line@.len(),
                i <= n,
                count + line_indent(line@.subrange(i as int, n as int), tab_size as int) == line_indent(line@, tab_size as int),
                line_indent(line@, tab_size as int) <= usize::MAX,
            ensures
                count == line_indent(line@, tab_size as int),
            decreases n - i,
        {
            let c = line.get_char(i);
            proof {
                assert(line@.subrange(i as int, n as int).subrange(1, (n - i) as int) == line@.subrange(i + 1, n as int));
                lemma_line_indent_nonnegative(line@.subrange(i + 1, n as int), tab_size as int);
            }
            if c == ' ' {
                count = count + 1;
            } else if c == '\t' {
                count = count + tab_size;
            } else {
                break;
            }
            i = i + 1;
        }
        count
    }
}

proof fn lemma_line_indent_nonnegative(line: Seq<char>, tab_size: int)
    requires
        tab_size >= 0,
    ensures
        line_indent(line, tab_size) >= 0,
    decreases line.len(),
{
    if line.len() > 0 {
        lemma_line_indent_nonnegative(line.subrange(1, line.len() as int), tab_size);
    }
}

impl SyntaxHighlighter {
    /// A new indentation engine with the standard rules.
    pub fn create_smart_indenter() -> (r: SmartIndenter)
        ensures
            forall|t: FileType| #[trigger] r.rule_view(t) == standard_rule(t),
    {
        SmartIndenter::new()
    }
}

} // verus!
