//! A document: its text, the language detected from its name, and a
//! highlighter of its own.

use vstd::prelude::*;
use vstd::utf8::*;
use std::ops::Range;
use crate::filetype::{file_type_for, lower_of, FileType};
use crate::highlight::{cache_insert, cache_lookup, default_theme_name, theme_names, SyntaxHighlighter};
use crate::spans::{joined_text, spans_of, StyledSpan};
use crate::text::{replace_in_string, slice_backward, slice_forward, ReadableDocument, WriteableDocument};

verus! {

/// A text with syntax highlighting.
pub struct Document {
    content: String,
    file_type: FileType,
    syntax_highlighter: SyntaxHighlighter,
}

impl Document {
    /// The text.
    pub closed spec fn text(&self) -> Seq<char> {
        self.content@
    }

    /// The language detected from the document's name.
    pub closed spec fn kind(&self) -> FileType {
        self.file_type
    }

    /// The document's own highlighter.
    pub closed spec fn highlighter(&self) -> SyntaxHighlighter {
        self.syntax_highlighter
    }

    /// The highlighter's cache is well formed.
    pub open spec fn wf(&self) -> bool {
        self.highlighter().wf()
    }

    /// A document holding `content`, of the language that `filename` names,
    /// with a fresh highlighter.
    pub fn from_string(content: String, filename: &str) -> (r: Document)
        ensures
            r.wf(),
            r.text() == content@,
            r.kind() == file_type_for(filename@, lower_of(filename@)),
            r.highlighter().cache().len() == 0,
            r.highlighter().theme() == default_theme_name(),
            theme_names(r.highlighter().themes()).contains(default_theme_name()),
    {
        Document {
            content,
            file_type: SyntaxHighlighter::detect_file_type(filename),
            syntax_highlighter: SyntaxHighlighter::new(),
        }
    }

    /// The spans of a line of the document, by its language.
    pub fn highlight_line(&mut self, line: &str, line_number: usize) -> (r: Vec<StyledSpan>)
        requires
            old(self).wf(),
        ensures
            final(self).wf(),
            final(self).text() == old(self).text(),
            final(self).kind() == old(self).kind(),
            final(self).highlighter().same_registries(&old(self).highlighter()),
            joined_text(spans_of(r@)) == line@,
            match cache_lookup(old(self).highlighter().cache(), line@, line_number) {
                Some(hit) => spans_of(r@) == hit && final(self).highlighter().cache() == old(self).highlighter().cache(),
                None => {
                    &&& final(self).highlighter().cache() == cache_insert(
                        old(self).highlighter().cache(),
                        (line@, line_number, spans_of(r@)),
                    )
                    &&& spans_of(r@) == old(self).highlighter().fresh_spans(old(self).kind(), line@)
                },
            },
    {
        let file_type = self.file_type;
        self.syntax_highlighter.highlight_line(line, file_type, line_number)
    }

    /// Switches the highlighter to the theme `theme_name` where it is
    /// registered.
    pub fn set_theme(&mut self, theme_name: &str) -> (r: bool)
        ensures
            r == theme_names(old(self).highlighter().themes()).contains(theme_name@),
            final(self).text() == old(self).text(),
            final(self).kind() == old(self).kind(),
            r ==> final(self).highlighter().theme() == theme_name@ && final(self).highlighter().cache().len() == 0,
            !r ==> final(self).highlighter().theme() == old(self).highlighter().theme()
                && final(self).highlighter().cache() == old(self).highlighter().cache(),
            final(self).highlighter().syntaxes() == old(self).highlighter().syntaxes(),
            final(self).highlighter().themes() == old(self).highlighter().themes(),
    {
        self.syntax_highlighter.set_theme(theme_name)
    }

    /// The names of the themes the highlighter knows.
    pub fn available_themes(&self) -> (r: Vec<String>)
        ensures
            r@.map_values(|s: String| s@).to_set() == theme_names(self.highlighter().themes()),
            r@.map_values(|s: String| s@).no_duplicates(),
    {
        self.syntax_highlighter.available_themes()
    }
}

impl ReadableDocument for Document {
    open spec fn content(&self) -> Seq<u8> {
        encode_utf8(self.text())
    }

    fn read_forward(&self, off: usize) -> (r: &[u8]) {
        slice_forward(self.content.as_str().as_bytes(), off)
    }

    fn read_backward(&self, off: usize) -> (r: &[u8]) {
        slice_backward(self.content.as_str().as_bytes(), off)
    }
}

impl WriteableDocument for Document {
    /// The file type and the highlighter, with its registries, active theme
    /// and cache.
    open spec fn same_beyond_content(&self, other: &Self) -> bool {
        self.kind() == other.kind() && self.highlighter() == other.highlighter()
    }

    fn replace(&mut self, range: Range<usize>, replacement: &[u8]) {
        replace_in_string(&mut self.content, range, replacement);
        proof {
            encode_utf8_valid_utf8(self.content@);
        }
    }
}

} // verus!
