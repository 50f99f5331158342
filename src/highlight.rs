//! The highlighting engine: grammar and theme registries, the active theme,
//! and a bounded cache of styled lines.

use vstd::prelude::*;
use vstd::string::StringExecFns;
use syntect::easy::HighlightLines;
use syntect::highlighting::{Theme, ThemeSet};
use syntect::parsing::{SyntaxReference, SyntaxSet};
use crate::filetype::{file_type_for, file_type_of, lower_of, FileType};
use crate::spans::{
    copy_spans, heuristic_highlight, lemma_joined_one, heuristic_spans, joined_text, lemma_heuristic_spans_cover_line,
    plain, plain_style, spans_of, Rgba, SpanStyle, StyledSpan,
};

verus! {

#[verifier::external_type_specification]
#[verifier::external_body]
pub struct ExSyntaxSet(SyntaxSet);

#[verifier::external_type_specification]
#[verifier::external_body]
pub struct ExSyntaxReference(SyntaxReference);

#[verifier::external_type_specification]
#[verifier::external_body]
pub struct ExThemeSet(ThemeSet);

#[verifier::external_type_specification]
#[verifier::external_body]
pub struct ExTheme(Theme);

/// The grammar that `SyntaxSet::find_syntax_by_extension` finds for an
/// extension.
pub uninterp spec fn extension_lookup(set: SyntaxSet, ext: Seq<char>) -> Option<SyntaxReference>;

/// The grammar that `SyntaxSet::find_syntax_by_name` finds for a name.
pub uninterp spec fn name_lookup(set: SyntaxSet, name: Seq<char>) -> Option<SyntaxReference>;

/// The `name` field of a grammar.
pub uninterp spec fn grammar_name(syntax: SyntaxReference) -> Seq<char>;

/// The grammars of the set, in order, each by its name and extensions.
pub uninterp spec fn syntax_entries(set: SyntaxSet) -> Seq<(Seq<char>, Seq<Seq<char>>)>;

/// The theme that `ThemeSet::themes` holds under a name.
pub uninterp spec fn theme_entry(themes: ThemeSet, name: Seq<char>) -> Option<Theme>;

/// The spans that `HighlightLines::highlight_line` gives for a line, under
/// a grammar of the set and a theme, where it succeeds.
pub uninterp spec fn grammar_highlight(
    set: SyntaxSet,
    syntax: SyntaxReference,
    theme: Theme,
    line: Seq<char>,
) -> Option<Seq<(SpanStyle, Seq<char>)>>;

/// The names of the themes of the set.
pub open spec fn theme_names(themes: ThemeSet) -> Set<Seq<char>> {
    Set::new(|n: Seq<char>| theme_entry(themes, n) is Some)
}

/// The name of the theme a highlighter starts with.
pub open spec fn default_theme_name() -> Seq<char> {
    "base16-ocean.dark"@
}

/// Relies on `SyntaxSet::load_defaults_newlines`: the grammars that syntect
/// ships.
#[verifier::external_body]
fn default_syntaxes() -> SyntaxSet {
    SyntaxSet::load_defaults_newlines()
}

/// Relies on `ThemeSet::load_defaults`: the themes that syntect ships,
/// "base16-ocean.dark" among them.
#[verifier::external_body]
fn default_themes() -> (r: ThemeSet)
    ensures
        theme_entry(r, "base16-ocean.dark"@) is Some,
{
    ThemeSet::load_defaults()
}

/// Relies on `SyntaxSet::find_syntax_by_extension`.
#[verifier::external_body]
fn syntax_by_extension<'a>(set: &'a SyntaxSet, ext: &str) -> (r: Option<&'a SyntaxReference>)
    ensures
        match r {
            Some(s) => extension_lookup(*set, ext@) == Some(*s),
            None => extension_lookup(*set, ext@) is None,
        },
{
    set.find_syntax_by_extension(ext)
}

/// Relies on `SyntaxSet::find_syntax_by_name`.
#[verifier::external_body]
fn syntax_by_name<'a>(set: &'a SyntaxSet, name: &str) -> (r: Option<&'a SyntaxReference>)
    ensures
        match r {
            Some(s) => name_lookup(*set, name@) == Some(*s),
            None => name_lookup(*set, name@) is None,
        },
{
    set.find_syntax_by_name(name)
}

/// Relies on the `name` field of `SyntaxReference`.
#[verifier::external_body]
fn syntax_name(syntax: &SyntaxReference) -> (r: String)
    ensures
        r@ == grammar_name(*syntax),
{
    syntax.name.clone()
}

/// Relies on `SyntaxSet::syntaxes`: each grammar's `name` and
/// `file_extensions`, in order.
#[verifier::external_body]
fn grammar_entries(set: &SyntaxSet) -> (r: Vec<(String, Vec<String>)>)
    ensures
        r@.map_values(|e: (String, Vec<String>)| (e.0@, e.1@.map_values(|x: String| x@))) == syntax_entries(*set),
{
    set.syntaxes().iter().map(|s| (s.name.clone(), s.file_extensions.clone())).collect()
}

/// Relies on `BTreeMap::get` over `ThemeSet::themes`.
#[verifier::external_body]
fn theme_named<'a>(themes: &'a ThemeSet, name: &str) -> (r: Option<&'a Theme>)
    ensures
        match r {
            Some(t) => theme_entry(*themes, name@) == Some(*t),
            None => theme_entry(*themes, name@) is None,
        },
{
    themes.themes.get(name)
}

/// Relies on `BTreeMap::insert` over `ThemeSet::themes`: the theme is then
/// held under the name, and every other name keeps its theme.
#[verifier::external_body]
fn add_theme(themes: &mut ThemeSet, name: String, theme: Theme)
    ensures
        theme_entry(*final(themes), name@) == Some(theme),
        forall|n: Seq<char>| n != name@ ==> theme_entry(*final(themes), n) == theme_entry(*old(themes), n),
{
    themes.themes.insert(name, theme);
}

/// Relies on `BTreeMap::keys` over `ThemeSet::themes`: each name once.
#[verifier::external_body]
fn theme_list(themes: &ThemeSet) -> (r: Vec<String>)
    ensures
        r@.map_values(|s: String| s@).to_set() == theme_names(*themes),
        r@.map_values(|s: String| s@).no_duplicates(),
{
    themes.themes.keys().cloned().collect()
}

/// Relies on `HighlightLines::highlight_line` (for a `HighlightLines::new`
/// over the grammar and theme): the texts of its tokens, in order, make up
/// the line.
#[verifier::external_body]
fn highlight_with(set: &SyntaxSet, syntax: &SyntaxReference, theme: &Theme, line: &str) -> (r: Option<Vec<StyledSpan>>)
    ensures
        match r {
            Some(v) => grammar_highlight(*set, *syntax, *theme, line@) == Some(spans_of(v@)),
            None => grammar_highlight(*set, *syntax, *theme, line@) is None,
        },
        r matches Some(v) ==> joined_text(spans_of(v@)) == line@,
{
    let tokens = HighlightLines::new(syntax, theme).highlight_line(line, set).ok()?;
    Some(tokens.into_iter().map(|(s, t)| StyledSpan {
        style: SpanStyle {
            foreground: Rgba { r: s.foreground.r, g: s.foreground.g, b: s.foreground.b, a: s.foreground.a },
            background: Rgba { r: s.background.r, g: s.background.g, b: s.background.b, a: s.background.a },
            font_style: s.font_style.bits(),
        },
        text: t.to_string(),
    }).collect())
}

/// One way of looking a grammar up in the registry.
#[derive(Debug, Clone, Copy)]
pub enum GrammarQuery {
    Extension(&'static str),
    Name(&'static str),
}

/// The registry answers the query.
pub open spec fn query_found(set: SyntaxSet, q: GrammarQuery) -> bool {
    query_result(set, q) is Some
}

/// The grammar that the registry gives for the query.
pub open spec fn query_result(set: SyntaxSet, q: GrammarQuery) -> Option<SyntaxReference> {
    match q {
        GrammarQuery::Extension(e) => extension_lookup(set, e@),
        GrammarQuery::Name(n) => name_lookup(set, n@),
    }
}

/// The lookups tried, in order, for a file type: its extension, its known
/// names, a grammar of a similar format, and plain text last.
pub open spec fn grammar_chain(file_type: FileType) -> Seq<GrammarQuery> {
    let plain_text = GrammarQuery::Name("Plain Text");
    match file_type {
        FileType::Plain => seq![plain_text],
        FileType::Python => seq![GrammarQuery::Extension("py"), plain_text],
        FileType::Rust => seq![GrammarQuery::Extension("rs"), plain_text],
        FileType::JavaScript => seq![GrammarQuery::Extension("js"), plain_text],
        FileType::TypeScript => seq![
            GrammarQuery::Extension("ts"),
            GrammarQuery::Name("TypeScript"),
            GrammarQuery::Name("TypeScript (JavaScript)"),
            GrammarQuery::Extension("js"),
            plain_text,
        ],
        FileType::HTML => seq![GrammarQuery::Extension("html"), plain_text],
        FileType::CSS => seq![GrammarQuery::Extension("css"), plain_text],
        FileType::Dockerfile => seq![GrammarQuery::Extension("Dockerfile"), plain_text],
        FileType::YAML => seq![
            GrammarQuery::Extension("yaml"),
            GrammarQuery::Extension("yml"),
            GrammarQuery::Name("YAML"),
            GrammarQuery::Name("Yaml"),
            GrammarQuery::Name("yaml"),
            GrammarQuery::Name("YML"),
            GrammarQuery::Name("Yet Another Markup Language"),
            GrammarQuery::Extension("json"),
            GrammarQuery::Name("JSON"),
            plain_text,
        ],
    }
}

/// The index of the first query of `chain`, from `from` on, that the
/// registry answers.
pub open spec fn first_found(set: SyntaxSet, chain: Seq<GrammarQuery>, from: int) -> Option<int>
    decreases chain.len() - from,
{
    if from < 0 || from >= chain.len() {
        None
    } else if query_found(set, chain[from]) {
        Some(from)
    } else {
        first_found(set, chain, from + 1)
    }
}

/// The lookups tried for a file type, in order.
pub fn grammar_queries(file_type: FileType) -> (r: Vec<GrammarQuery>)
    ensures
        r@ == grammar_chain(file_type),
{
    let plain_text = GrammarQuery::Name("Plain Text");
    let r = match file_type {
        FileType::Plain => vec![plain_text],
        FileType::Python => vec![GrammarQuery::Extension("py"), plain_text],
        FileType::Rust => vec![GrammarQuery::Extension("rs"), plain_text],
        FileType::JavaScript => vec![GrammarQuery::Extension("js"), plain_text],
        FileType::TypeScript => vec![
            GrammarQuery::Extension("ts"),
            GrammarQuery::Name("TypeScript"),
            GrammarQuery::Name("TypeScript (JavaScript)"),
            GrammarQuery::Extension("js"),
            plain_text,
        ],
        FileType::HTML => vec![GrammarQuery::Extension("html"), plain_text],
        FileType::CSS => vec![GrammarQuery::Extension("css"), plain_text],
        FileType::Dockerfile => vec![GrammarQuery::Extension("Dockerfile"), plain_text],
        FileType::YAML => vec![
            GrammarQuery::Extension("yaml"),
            GrammarQuery::Extension("yml"),
            GrammarQuery::Name("YAML"),
            GrammarQuery::Name("Yaml"),
            GrammarQuery::Name("yaml"),
            GrammarQuery::Name("YML"),
            GrammarQuery::Name("Yet Another Markup Language"),
            GrammarQuery::Extension("json"),
            GrammarQuery::Name("JSON"),
            plain_text,
        ],
    };
    assert(r@ =~= grammar_chain(file_type));
    r
}

fn lookup<'a>(set: &'a SyntaxSet, q: GrammarQuery) -> (r: Option<&'a SyntaxReference>)
    ensures
        match r {
            Some(s) => query_result(*set, q) == Some(*s),
            None => query_result(*set, q) is None,
        },
{
    match q {
        GrammarQuery::Extension(e) => syntax_by_extension(set, e),
        GrammarQuery::Name(n) => syntax_by_name(set, n),
    }
}

/// The grammar for a file type: the answer to the first query of its chain
/// that the registry answers, with that query's index.
pub fn resolve_grammar<'a>(set: &'a SyntaxSet, file_type: FileType) -> (r: Option<(usize, &'a SyntaxReference)>)
    ensures
        r matches Some((i, s)) ==> first_found(*set, grammar_chain(file_type), 0) == Some(i as int)
            && i < grammar_chain(file_type).len() && query_result(*set, grammar_chain(file_type)[i as int]) == Some(*s),
        r is None ==> first_found(*set, grammar_chain(file_type), 0) is None,
{
    let chain = grammar_queries(file_type);
    let mut i: usize = 0;
    while i < chain.len()
        invariant
            chain@ == grammar_chain(file_type),
            i <= chain@.len(),
            first_found(*set, chain@, 0) == first_found(*set, chain@, i as int),
            forall|k: int| 0 <= k < i ==> !query_found(*set, #[trigger] chain@[k]),
        decreases chain@.len() - i,
    {
        match lookup(set, chain[i]) {
            Some(syntax) => {
                return Some((i, syntax));
            },
            None => {},
        }
        i = i + 1;
    }
    None
}

/// The most lines the cache holds.
pub const MAX_CACHE_SIZE: usize = 1000;

/// A cached line: its text, its index, and its spans.
pub type CacheView = (Seq<char>, usize, Seq<(SpanStyle, Seq<char>)>);

struct CacheEntry {
    line: String,
    index: usize,
    spans: Vec<StyledSpan>,
}

impl View for CacheEntry {
    type V = CacheView;

    closed spec fn view(&self) -> CacheView {
        (self.line@, self.index, spans_of(self.spans@))
    }
}

/// The spans cached for a line and index: the first entry with that key.
pub open spec fn cache_lookup(cache: Seq<CacheView>, line: Seq<char>, index: usize) -> Option<Seq<(SpanStyle, Seq<char>)>>
    decreases cache.len(),
{
    if cache.len() == 0 {
        None
    } else if cache[0].0 == line && cache[0].1 == index {
        Some(cache[0].2)
    } else {
        cache_lookup(cache.skip(1), line, index)
    }
}

/// The cache after `entry` is added at the end, with the oldest entries
/// dropped first where it would otherwise hold more than the maximum.
pub open spec fn cache_insert(cache: Seq<CacheView>, entry: CacheView) -> Seq<CacheView> {
    if cache.len() + 1 > MAX_CACHE_SIZE {
        cache.skip(cache.len() + 1 - MAX_CACHE_SIZE).push(entry)
    } else {
        cache.push(entry)
    }
}

/// Adding a line to a cache that holds at most the maximum leaves it
/// holding at most the maximum, with the new line last and the lines kept
/// in their order before it.
pub proof fn lemma_cache_insert_bounded(cache: Seq<CacheView>, entry: CacheView)
    requires
        cache.len() <= MAX_CACHE_SIZE,
    ensures
        cache_insert(cache, entry).len() <= MAX_CACHE_SIZE,
        cache_insert(cache, entry).last() == entry,
        cache_insert(cache, entry).drop_last() == cache.skip(cache.len() + 1 - cache_insert(cache, entry).len()),
{
    let r = cache_insert(cache, entry);
    if cache.len() + 1 > MAX_CACHE_SIZE {
        assert(r.drop_last() =~= cache.skip(cache.len() + 1 - MAX_CACHE_SIZE));
    } else {
        assert(r.drop_last() =~= cache);
        assert(cache.skip(0) =~= cache);
    }
}

/// No two entries of the cache share a line and index.
pub open spec fn keys_unique(cache: Seq<CacheView>) -> bool {
    forall|i: int, j: int|
        0 <= i < j < cache.len() ==> !(#[trigger] cache[i].0 == #[trigger] cache[j].0 && cache[i].1 == cache[j].1)
}

/// A line and index that the lookup misses are held by no entry.
proof fn lemma_lookup_miss(cache: Seq<CacheView>, line: Seq<char>, index: usize)
    requires
        cache_lookup(cache, line, index) is None,
    ensures
        forall|i: int| 0 <= i < cache.len() ==> !(#[trigger] cache[i].0 == line && cache[i].1 == index),
    decreases cache.len(),
{
    if cache.len() > 0 {
        lemma_lookup_miss(cache.skip(1), line, index);
        assert forall|i: int| 0 <= i < cache.len() implies !(#[trigger] cache[i].0 == line && cache[i].1 == index) by {
            if i > 0 {
                assert(cache[i] == cache.skip(1)[i - 1]);
            }
        }
    }
}

/// The file type is YAML and the registry has no YAML grammar, so its lines
/// are styled by the heuristic.
pub open spec fn lacks_native_grammar(set: SyntaxSet, file_type: FileType) -> bool {
    file_type == FileType::YAML && extension_lookup(set, "yaml"@) is None && extension_lookup(set, "yml"@) is None
}

/// The spans of a line computed afresh: by the heuristic where the file type
/// has no grammar of its own; else by the grammar that its chain finds,
/// under the theme registered as `theme`; one plain span where there is no
/// such grammar or theme, or the grammar fails on the line.
pub open spec fn computed_spans(
    set: SyntaxSet,
    themes: ThemeSet,
    theme: Seq<char>,
    file_type: FileType,
    line: Seq<char>,
) -> Seq<(SpanStyle, Seq<char>)> {
    let whole = seq![(plain_style(), line)];
    if lacks_native_grammar(set, file_type) {
        heuristic_spans(line)
    } else {
        match first_found(set, grammar_chain(file_type), 0) {
            None => whole,
            Some(i) => match theme_entry(themes, theme) {
                None => whole,
                Some(t) => match grammar_highlight(set, query_result(set, grammar_chain(file_type)[i])->Some_0, t, line) {
                    Some(v) => v,
                    None => whole,
                },
            },
        }
    }
}

/// Spans are computed from the registries, the active theme's name, the
/// file type and the line alone: a line computed again, after its entry
/// was evicted, gets the spans it got before.
pub proof fn lemma_recomputed_spans_repeat(a: &SyntaxHighlighter, b: &SyntaxHighlighter, file_type: FileType, line: Seq<char>)
    requires
        b.same_registries(a),
    ensures
        computed_spans(a.syntaxes(), a.themes(), a.theme(), file_type, line)
            == computed_spans(b.syntaxes(), b.themes(), b.theme(), file_type, line),
{
}

/// An emptied cache, as a switch of theme leaves it, holds no line: the
/// next highlighting of any line computes its spans afresh.
pub proof fn lemma_emptied_cache_misses(cache: Seq<CacheView>, line: Seq<char>, index: usize)
    requires
        cache.len() == 0,
    ensures
        cache_lookup(cache, line, index) is None,
{
}

/// A line with its styles, each over a range of the line's bytes.
pub struct HighlightedText<'a> {
    pub text: &'a str,
    pub styles: Vec<(SpanStyle, std::ops::Range<usize>)>,
}

/// Owns the grammar and theme registries, the name of the active theme, and
/// the cache of styled lines.
pub struct SyntaxHighlighter {
    syntax_set: SyntaxSet,
    theme_set: ThemeSet,
    current_theme: String,
    cache: Vec<CacheEntry>,
}

impl SyntaxHighlighter {
    /// The grammar registry.
    pub closed spec fn syntaxes(&self) -> SyntaxSet {
        self.syntax_set
    }

    /// The theme registry.
    pub closed spec fn themes(&self) -> ThemeSet {
        self.theme_set
    }

    /// The name of the active theme.
    pub closed spec fn theme(&self) -> Seq<char> {
        self.current_theme@
    }

    /// The cached lines, oldest first.
    pub closed spec fn cache(&self) -> Seq<CacheView> {
        self.cache@.map_values(|e: CacheEntry| e@)
    }

    /// The cache holds at most the maximum of lines, each line and index
    /// once, and the spans of each make up its line.
    pub open spec fn wf(&self) -> bool {
        &&& self.cache().len() <= MAX_CACHE_SIZE
        &&& keys_unique(self.cache())
        &&& forall|i: int| 0 <= i < self.cache().len() ==> joined_text(#[trigger] self.cache()[i].2) == self.cache()[i].0
    }

    /// The file type is styled by the heuristic.
    pub open spec fn uses_heuristic(&self, file_type: FileType) -> bool {
        lacks_native_grammar(self.syntaxes(), file_type)
    }

    /// The spans of a line computed afresh under the registries and the
    /// active theme.
    pub open spec fn fresh_spans(&self, file_type: FileType, line: Seq<char>) -> Seq<(SpanStyle, Seq<char>)> {
        computed_spans(self.syntaxes(), self.themes(), self.theme(), file_type, line)
    }

    /// The registries and active theme are those of `other`.
    pub open spec fn same_registries(&self, other: &SyntaxHighlighter) -> bool {
        &&& self.syntaxes() == other.syntaxes()
        &&& self.themes() == other.themes()
        &&& self.theme() == other.theme()
    }

    /// The registries that syntect ships, the theme "base16-ocean.dark", and
    /// an empty cache.
    pub fn new() -> (r: SyntaxHighlighter)
        ensures
            r.wf(),
            r.cache().len() == 0,
            r.theme() == default_theme_name(),
            theme_names(r.themes()).contains(r.theme()),
    {
        let r = SyntaxHighlighter {
            syntax_set: default_syntaxes(),
            theme_set: default_themes(),
            current_theme: "base16-ocean.dark".to_owned(),
            cache: Vec::new(),
        };
        assert(r.cache() =~= Seq::<CacheView>::empty());
        assert(theme_names(r.themes()).contains(r.theme()));
        r
    }

    /// The language of the file `filename`.
    pub fn detect_file_type(filename: &str) -> (r: FileType)
        ensures
            r == file_type_for(filename@, lower_of(filename@)),
    {
        file_type_of(filename)
    }

    fn needs_heuristic(&self, file_type: FileType) -> (r: bool)
        ensures
            r == self.uses_heuristic(file_type),
    {
        file_type == FileType::YAML && syntax_by_extension(&self.syntax_set, "yaml").is_none()
            && syntax_by_extension(&self.syntax_set, "yml").is_none()
    }

    /// Styles a line afresh, without the cache.
    fn compute_spans(&self, line: &str, file_type: FileType) -> (r: Vec<StyledSpan>)
        ensures
            joined_text(spans_of(r@)) == line@,
            spans_of(r@) == self.fresh_spans(file_type, line@),
    {
        if self.needs_heuristic(file_type) {
            proof {
                lemma_heuristic_spans_cover_line(line@);
            }
            return heuristic_highlight(line);
        }
        let mut whole: Vec<StyledSpan> = Vec::new();
        whole.push(StyledSpan { style: plain(), text: line.to_owned() });
        proof {
            let x = (plain_style(), line@);
            assert(spans_of(whole@) =~= seq![x]);
            lemma_joined_one(x);
        }
        let syntax = match resolve_grammar(&self.syntax_set, file_type) {
            Some((_, syntax)) => syntax,
            None => {
                return whole;
            },
        };
        let theme = match theme_named(&self.theme_set, self.current_theme.as_str()) {
            Some(theme) => theme,
            None => {
                return whole;
            },
        };
        match highlight_with(&self.syntax_set, syntax, theme, line) {
            Some(spans) => spans,
            None => whole,
        }
    }

    fn cached(&self, line: &str, index: usize) -> (r: Option<Vec<StyledSpan>>)
        ensures
            r matches Some(v) ==> cache_lookup(self.cache(), line@, index) == Some(spans_of(v@)),
            r is None ==> cache_lookup(self.cache(), line@, index) is None,
    {
        let mut i: usize = 0;
        assert(self.cache().skip(0) =~= self.cache());
        while i < self.cache.len()
            invariant
                i <= self.cache().len(),
                self.cache().len() == self.cache@.len(),
                cache_lookup(self.cache(), line@, index) == cache_lookup(self.cache().skip(i as int), line@, index),
            decreases self.cache@.len() - i,
        {
            let entry = &self.cache[i];
            assert(self.cache()[i as int] == entry@);
            assert(self.cache().skip(i as int)[0] == entry@);
            if entry.index == index && crate::chars::text_eq(entry.line.as_str(), line) {
                return Some(copy_spans(&entry.spans));
            }
            assert(self.cache().skip(i as int).skip(1) =~= self.cache().skip(i + 1));
            i = i + 1;
        }
        None
    }

    fn remember(&mut self, line: &str, index: usize, spans: Vec<StyledSpan>)
        requires
            old(self).wf(),
            joined_text(spans_of(spans@)) == line@,
            cache_lookup(old(self).cache(), line@, index) is None,
        ensures
            final(self).wf(),
            final(self).same_registries(old(self)),
            final(self).cache() == cache_insert(old(self).cache(), (line@, index, spans_of(spans@))),
    {
        let ghost before = self.cache();
        proof {
            lemma_lookup_miss(before, line@, index);
        }
        if self.cache.len() >= MAX_CACHE_SIZE {
            self.cache.remove(0);
            assert(self.cache() =~= before.skip(1));
        }
        let entry = CacheEntry { line: line.to_owned(), index, spans };
        self.cache.push(entry);
        assert(self.cache() =~= cache_insert(before, (line@, index, spans_of(spans@))));
        assert forall|i: int| 0 <= i < self.cache().len() implies joined_text(#[trigger] self.cache()[i].2) == self.cache()[i].0 by {
            if i < self.cache().len() - 1 {
                if before.len() + 1 > MAX_CACHE_SIZE {
                    assert(self.cache()[i] == before[i + 1]);
                } else {
                    assert(self.cache()[i] == before[i]);
                }
            }
        }
        let ghost c = self.cache();
        assert forall|i: int, j: int| 0 <= i < j < c.len() implies !(#[trigger] c[i].0 == #[trigger] c[j].0 && c[i].1 == c[j].1) by {
            let off: int = if before.len() + 1 > MAX_CACHE_SIZE { 1 } else { 0 };
            assert(c[i] == before[i + off]);
            if j < c.len() - 1 {
                assert(c[j] == before[j + off]);
            }
        }
    }

    /// The spans of a line: those cached for the line and its index where
    /// there are any; else they are computed (by the heuristic where the
    /// file type has no grammar of its own, else by the grammar its chain
    /// finds, under the active theme) and cached.
    pub fn highlight_line(&mut self, line: &str, file_type: FileType, line_number: usize) -> (r: Vec<StyledSpan>)
        requires
            old(self).wf(),
        ensures
            final(self).wf(),
            final(self).same_registries(old(self)),
            joined_text(spans_of(r@)) == line@,
            match cache_lookup(old(self).cache(), line@, line_number) {
                Some(hit) => spans_of(r@) == hit && final(self).cache() == old(self).cache(),
                None => {
                    &&& final(self).cache() == cache_insert(old(self).cache(), (line@, line_number, spans_of(r@)))
                    &&& spans_of(r@) == old(self).fresh_spans(file_type, line@)
                },
            },
    {
        match self.cached(line, line_number) {
            Some(hit) => {
                proof {
                    self.lemma_lookup_covers_line(self.cache(), line@, line_number);
                }
                hit
            },
            None => {
                let spans = self.compute_spans(line, file_type);
                let kept = copy_spans(&spans);
                self.remember(line, line_number, kept);
                spans
            },
        }
    }

    proof fn lemma_lookup_covers_line(&self, cache: Seq<CacheView>, line: Seq<char>, index: usize)
        requires
            forall|i: int| 0 <= i < cache.len() ==> joined_text(#[trigger] cache[i].2) == cache[i].0,
        ensures
            cache_lookup(cache, line, index) matches Some(s) ==> joined_text(s) == line,
        decreases cache.len(),
    {
        if cache.len() > 0 && !(cache[0].0 == line && cache[0].1 == index) {
            let rest = cache.skip(1);
            assert forall|i: int| 0 <= i < rest.len() implies joined_text(#[trigger] rest[i].2) == rest[i].0 by {
                assert(rest[i] == cache[i + 1]);
            }
            self.lemma_lookup_covers_line(rest, line, index);
        }
    }

    /// The number of cached lines.
    pub fn cache_len(&self) -> (r: usize)
        ensures
            r == self.cache().len(),
    {
        self.cache.len()
    }

    /// Empties the cache.
    pub fn clear_cache(&mut self)
        ensures
            final(self).cache().len() == 0,
            final(self).same_registries(old(self)),
    {
        self.cache = Vec::new();
        assert(self.cache() =~= Seq::<CacheView>::empty());
    }

    /// Makes `theme_name` the active theme and empties the cache, where such
    /// a theme is registered; else changes nothing.
    pub fn set_theme(&mut self, theme_name: &str) -> (r: bool)
        ensures
            r == theme_names(old(self).themes()).contains(theme_name@),
            final(self).syntaxes() == old(self).syntaxes(),
            final(self).themes() == old(self).themes(),
            r ==> final(self).theme() == theme_name@ && final(self).cache().len() == 0,
            !r ==> final(self).theme() == old(self).theme() && final(self).cache() == old(self).cache(),
    {
        if theme_named(&self.theme_set, theme_name).is_some() {
            self.current_theme = theme_name.to_owned();
            self.clear_cache();
            true
        } else {
            false
        }
    }

    /// Registers `theme` under the file stem of its source (or "custom"
    /// where there is none), makes it the active theme, and empties the
    /// cache.
    pub fn load_custom_theme(&mut self, stem: Option<&str>, theme: Theme)
        ensures
            final(self).syntaxes() == old(self).syntaxes(),
            theme_entry(final(self).themes(), final(self).theme()) == Some(theme),
            forall|n: Seq<char>| n != final(self).theme() ==> #[trigger] theme_entry(final(self).themes(), n) == theme_entry(old(self).themes(), n),
            theme_names(final(self).themes()) == theme_names(old(self).themes()).insert(final(self).theme()),
            final(self).theme() == (match stem {
                Some(s) => s@,
                None => "custom"@,
            }),
            final(self).cache().len() == 0,
    {
        let name: String = match stem {
            Some(s) => s.to_owned(),
            None => "custom".to_owned(),
        };
        add_theme(&mut self.theme_set, name.clone(), theme);
        self.current_theme = name;
        self.clear_cache();
        assert(theme_names(self.themes()) =~= theme_names(old(self).themes()).insert(self.theme()));
    }

    /// The names of the registered themes, each once.
    pub fn available_themes(&self) -> (r: Vec<String>)
        ensures
            r@.map_values(|s: String| s@).to_set() == theme_names(self.themes()),
            r@.map_values(|s: String| s@).no_duplicates(),
    {
        theme_list(&self.theme_set)
    }

    /// A line for each registered grammar, in order: its name, then its
    /// extensions in parentheses, separated by ", ".
    pub fn list_available_syntaxes(&self) -> (r: Vec<String>)
        ensures
            r@.len() == syntax_entries(self.syntaxes()).len(),
            forall|i: int| 0 <= i < r@.len() ==> #[trigger] r@[i]@ == syntax_line(syntax_entries(self.syntaxes())[i]),
    {
        let entries = grammar_entries(&self.syntax_set);
        let ghost views = entries@.map_values(|e: (String, Vec<String>)| (e.0@, e.1@.map_values(|x: String| x@)));
        let mut r: Vec<String> = Vec::new();
        let mut i: usize = 0;
        while i < entries.len()
            invariant
                i <= entries@.len(),
                views == syntax_entries(self.syntaxes()),
                views == entries@.map_values(|e: (String, Vec<String>)| (e.0@, e.1@.map_values(|x: String| x@))),
                r@.len() == i,
                forall|k: int| 0 <= k < i ==> #[trigger] r@[k]@ == syntax_line(views[k]),
            decreases entries@.len() - i,
        {
            let entry = &entries[i];
            let mut line = entry.0.clone();
            line.append(" (");
            let exts = join_with(&entry.1, ", ");
            line.append(exts.as_str());
            line.append(")");
            assert(views[i as int] == (entry.0@, entry.1@.map_values(|x: String| x@)));
            assert(line@ =~= syntax_line(views[i as int]));
            r.push(line);
            i = i + 1;
        }
        r
    }

    /// Whether a grammar is registered under the extension.
    pub fn has_syntax_for_extension(&self, extension: &str) -> (r: bool)
        ensures
            r == (extension_lookup(self.syntaxes(), extension@) is Some),
    {
        syntax_by_extension(&self.syntax_set, extension).is_some()
    }

    /// "FileType: <type> -> Syntax: <grammar>" for the grammar that the file
    /// type's chain finds, where it finds one.
    pub fn debug_syntax_for_filetype(&self, file_type: FileType) -> (r: Option<String>)
        ensures
            match first_found(self.syntaxes(), grammar_chain(file_type), 0) {
                Some(i) => r matches Some(text) && text@ == choice_line(
                    file_type,
                    grammar_name(query_result(self.syntaxes(), grammar_chain(file_type)[i])->Some_0),
                ),
                None => r is None,
            },
    {
        match resolve_grammar(&self.syntax_set, file_type) {
            Some((_, syntax)) => {
                let mut text = "FileType: ".to_owned();
                text.append(file_type_name(file_type));
                text.append(" -> Syntax: ");
                let name = syntax_name(syntax);
                text.append(name.as_str());
                assert(text@ =~= choice_line(file_type, grammar_name(*syntax)));
                Some(text)
            },
            None => None,
        }
    }
}

/// The parts one after the other, with `sep` between each two.
pub open spec fn joined_with(parts: Seq<Seq<char>>, sep: Seq<char>) -> Seq<char>
    decreases parts.len(),
{
    if parts.len() == 0 {
        Seq::empty()
    } else if parts.len() == 1 {
        parts[0]
    } else {
        joined_with(parts.drop_last(), sep) + sep + parts.last()
    }
}

/// The line that describes a grammar by its name and extensions.
pub open spec fn syntax_line(entry: (Seq<char>, Seq<Seq<char>>)) -> Seq<char> {
    entry.0 + " ("@ + joined_with(entry.1, ", "@) + ")"@
}

/// The line that names the grammar chosen for a file type.
pub open spec fn choice_line(file_type: FileType, grammar: Seq<char>) -> Seq<char> {
    "FileType: "@ + file_type_label(file_type) + " -> Syntax: "@ + grammar
}

/// The name of a file type, as it is shown.
pub open spec fn file_type_label(file_type: FileType) -> Seq<char> {
    match file_type {
        FileType::Plain => "Plain"@,
        FileType::Python => "Python"@,
        FileType::Rust => "Rust"@,
        FileType::JavaScript => "JavaScript"@,
        FileType::TypeScript => "TypeScript"@,
        FileType::HTML => "HTML"@,
        FileType::CSS => "CSS"@,
        FileType::Dockerfile => "Dockerfile"@,
        FileType::YAML => "YAML"@,
    }
}

/// The strings one after the other, with `sep` between each two.
pub fn join_with(parts: &Vec<String>, sep: &str) -> (r: String)
    ensures
        r@ == joined_with(parts@.map_values(|x: String| x@), sep@),
{
    let ghost views = parts@.map_values(|x: String| x@);
    let mut r = String::new();
    let mut i: usize = 0;
    while i < parts.len()
        invariant
            i <= parts@.len(),
            views == parts@.map_values(|x: String| x@),
            r@ == joined_with(views.subrange(0, i as int), sep@),
        decreases parts@.len() - i,
    {
        if i > 0 {
            r.append(sep);
        }
        r.append(parts[i].as_str());
        proof {
            let next = views.subrange(0, i + 1);
            assert(next.drop_last() =~= views.subrange(0, i as int));
            if i == 0 {
                assert(r@ =~= next[0]);
            } else {
                assert(r@ =~= joined_with(next.drop_last(), sep@) + sep@ + next.last());
            }
        }
        i = i + 1;
    }
    assert(views.subrange(0, parts@.len() as int) =~= views);
    r
}

/// The name of a file type, as it is shown.
pub fn file_type_name(file_type: FileType) -> (r: &'static str)
    ensures
        r@ == file_type_label(file_type),
{
    match file_type {
        FileType::Plain => "Plain",
        FileType::Python => "Python",
        FileType::Rust => "Rust",
        FileType::JavaScript => "JavaScript",
        FileType::TypeScript => "TypeScript",
        FileType::HTML => "HTML",
        FileType::CSS => "CSS",
        FileType::Dockerfile => "Dockerfile",
        FileType::YAML => "YAML",
    }
}

} // verus!
