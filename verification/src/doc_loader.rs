//! Documents cut into chunks: which loader a file gets, what a loader makes
//! of a text, and how the pieces are numbered.
use vstd::prelude::*;
use vstd::utf8::{decode_utf8, encode_utf8, valid_utf8};
use std::path::PathBuf;
use path_ext::PathExt;
use tree_sitter::{Node, Parser};
use tree_sitter_c::LANGUAGE as C;
use tree_sitter_cpp::LANGUAGE as CPP;
use tree_sitter_go::LANGUAGE as GO;
use tree_sitter_javascript::LANGUAGE as JAVASCRIPT;
use tree_sitter_python::LANGUAGE as PYTHON;
use tree_sitter_rust::LANGUAGE as RUST;
use tree_sitter_typescript::LANGUAGE_TSX as TSX;
use crate::text::{chars_of, parts_of, same_chars, split, split_chars, string_of};

verus! {

/// The kinds of file whose text has to be extracted before it can be cut.
#[derive(Clone, Copy, Debug, PartialEq, Eq, Structural)]
pub enum Format {
    Pdf,
    Docx,
    Html,
}

/// Why a document could not be loaded.
#[derive(Debug)]
pub enum LoaderError {
    /// The splitter cannot work with its options.
    TextSplitter(String),
    /// A piece of the document is not UTF-8 text.
    Utf8,
    /// No parser knows the language of the source file.
    UnsupportedLanguage,
    /// The document is of a kind whose text has to be extracted first.
    NeedsExtraction(Format),
    /// Anything else.
    Other(String),
}

/// What is said where the overlap of a splitter does not fit its chunks.
pub const OVERLAP_TOO_LARGE: &'static str =
    "The overlap is larger than or equal to the desired chunk capacity";

/// What is said of a file that is neither of a known kind nor text.
pub const UNKNOWN_KIND: &'static str = "Failed to infer document type";

/// The languages whose sources are parsed.
#[derive(Clone, Copy, Debug, PartialEq, Eq, Structural)]
pub enum Language {
    Rust,
    C,
    Cpp,
    Javascript,
    Typescript,
    Go,
    Python,
}

impl Language {
    /// The name of the language.
    pub fn name(self) -> (name: &'static str)
        ensures
            name@ == (match self {
                Language::Rust => "Rust"@,
                Language::C => "C"@,
                Language::Cpp => "Cpp"@,
                Language::Javascript => "Javascript"@,
                Language::Typescript => "Typescript"@,
                Language::Go => "Go"@,
                Language::Python => "Python"@,
            }),
    {
        match self {
            Language::Rust => "Rust",
            Language::C => "C",
            Language::Cpp => "Cpp",
            Language::Javascript => "Javascript",
            Language::Typescript => "Typescript",
            Language::Go => "Go",
            Language::Python => "Python",
        }
    }
}

/// What a piece of a source file holds.
#[derive(Clone, Copy, Debug, PartialEq, Eq, Structural)]
pub enum LanguageContentTypes {
    SimplifiedCode,
    FunctionsImpls,
}

impl LanguageContentTypes {
    /// The name of the kind of content.
    pub fn name(self) -> (name: &'static str)
        ensures
            name@ == (match self {
                LanguageContentTypes::SimplifiedCode => "simplified_code"@,
                LanguageContentTypes::FunctionsImpls => "functions_impls"@,
            }),
    {
        match self {
            LanguageContentTypes::SimplifiedCode => "simplified_code",
            LanguageContentTypes::FunctionsImpls => "functions_impls",
        }
    }
}

/// How a source file is parsed: in which language, and from how many lines
/// on it is taken apart.
#[derive(Clone, Copy, Debug, PartialEq, Eq, Structural)]
pub struct LanguageParserOptions {
    pub parser_threshold: u64,
    pub language: Language,
}

/// From how many lines on a source file is taken apart, where nothing else
/// is asked for.
pub const DEFAULT_THRESHOLD: u64 = 1000;

impl Default for LanguageParserOptions {
    fn default() -> (options: Self)
        ensures
            options == (LanguageParserOptions {
                parser_threshold: DEFAULT_THRESHOLD,
                language: Language::Rust,
            }),
    {
        LanguageParserOptions { parser_threshold: DEFAULT_THRESHOLD, language: Language::Rust }
    }
}

/// A character with a capital Latin letter made small.
pub open spec fn lower(c: char) -> char {
    if 'A' <= c <= 'Z' {
        ((c as u8) + 32) as char
    } else {
        c
    }
}

/// A text with its capital Latin letters made small.
pub open spec fn lowered(text: Seq<char>) -> Seq<char> {
    Seq::new(text.len(), |i: int| lower(text[i]))
}

/// The language that the ending of a file name stands for.
pub open spec fn language_of(ending: Seq<char>) -> Option<Language> {
    if ending == "rs"@ {
        Some(Language::Rust)
    } else if ending == "c"@ || ending == "h"@ {
        Some(Language::C)
    } else if ending == "cpp"@ || ending == "hpp"@ {
        Some(Language::Cpp)
    } else if ending == "js"@ {
        Some(Language::Javascript)
    } else if ending == "ts"@ || ending == "tsx"@ {
        Some(Language::Typescript)
    } else if ending == "go"@ {
        Some(Language::Go)
    } else if ending == "py"@ {
        Some(Language::Python)
    } else {
        None
    }
}

/// The language of a file by its name: by what follows the last dot, or by
/// the whole name where it has no dot, capital letters taken as small ones.
pub open spec fn language_by_filename(name: Seq<char>) -> Option<Language> {
    language_of(lowered(split(name, '.').last()))
}

fn lower_chars(text: &Vec<char>) -> (out: Vec<char>)
    ensures
        out@ == lowered(text@),
{
    let mut out: Vec<char> = Vec::new();
    let mut i: usize = 0;
    while i < text.len()
        invariant
            i <= text.len(),
            out.len() == i,
            forall|k: int| 0 <= k < i ==> out[k] == lower(text[k]),
        decreases text.len() - i,
    {
        let c = text[i];
        out.push(
            if 'A' <= c && c <= 'Z' {
                ((c as u8) + 32) as char
            } else {
                c
            },
        );
        i += 1;
    }
    assert(out@ =~= lowered(text@));
    out
}

/// Whether the characters are those of the text.
fn is_text(chars: &Vec<char>, text: &str) -> (same: bool)
    ensures
        same == (chars@ == text@),
{
    let wanted = chars_of(text);
    same_chars(chars, &wanted)
}

/// The language of a file by its name. A name whose ending stands for no
/// language is refused as an unsupported language.
pub fn get_language_by_filename(name: &str) -> (result: Result<Language, LoaderError>)
    ensures
        match language_by_filename(name@) {
            Some(language) => result is Ok && result->Ok_0 == language,
            None => result is Err && result->Err_0 is UnsupportedLanguage,
        },
{
    let chars = chars_of(name);
    let parts = split_chars(&chars, '.');
    let last = &parts[parts.len() - 1];
    assert(parts_of(parts@).last() == last@);
    let ending = lower_chars(last);
    if is_text(&ending, "rs") {
        Ok(Language::Rust)
    } else if is_text(&ending, "c") || is_text(&ending, "h") {
        Ok(Language::C)
    } else if is_text(&ending, "cpp") || is_text(&ending, "hpp") {
        Ok(Language::Cpp)
    } else if is_text(&ending, "js") {
        Ok(Language::Javascript)
    } else if is_text(&ending, "ts") || is_text(&ending, "tsx") {
        Ok(Language::Typescript)
    } else if is_text(&ending, "go") {
        Ok(Language::Go)
    } else if is_text(&ending, "py") {
        Ok(Language::Python)
    } else {
        Err(LoaderError::UnsupportedLanguage)
    }
}

/// One entry of what is known about a document, as the contracts see it.
pub struct EntryView {
    pub key: Seq<char>,
    pub value: Seq<char>,
}

/// A text with what is known about it, as the contracts see it.
pub struct DocumentView {
    pub page_content: Seq<char>,
    pub metadata: Seq<EntryView>,
}

/// One entry of what is known about a document.
#[derive(Debug)]
pub struct Entry {
    pub key: String,
    pub value: String,
}

impl View for Entry {
    type V = EntryView;

    open spec fn view(&self) -> EntryView {
        EntryView { key: self.key@, value: self.value@ }
    }
}

impl Clone for Entry {
    fn clone(&self) -> (copy: Self)
        ensures
            copy@ == self@,
    {
        Entry { key: self.key.clone(), value: self.value.clone() }
    }
}

/// Entries as the contracts see them.
pub open spec fn entries(metadata: Seq<Entry>) -> Seq<EntryView> {
    metadata.map_values(|entry: Entry| entry@)
}

/// A text with what is known about it.
#[derive(Debug)]
pub struct Document {
    pub page_content: String,
    pub metadata: Vec<Entry>,
}

impl View for Document {
    type V = DocumentView;

    open spec fn view(&self) -> DocumentView {
        DocumentView { page_content: self.page_content@, metadata: entries(self.metadata@) }
    }
}

/// Documents as the contracts see them.
pub open spec fn documents(docs: Seq<Document>) -> Seq<DocumentView> {
    docs.map_values(|doc: Document| doc@)
}

/// Strings as sequences of characters.
pub open spec fn strings(texts: Seq<String>) -> Seq<Seq<char>> {
    texts.map_values(|text: String| text@)
}

/// A copy of what is known about a document.
fn copy_entries(metadata: &Vec<Entry>) -> (copy: Vec<Entry>)
    ensures
        entries(copy@) == entries(metadata@),
{
    let mut copy: Vec<Entry> = Vec::new();
    let mut i: usize = 0;
    while i < metadata.len()
        invariant
            i <= metadata.len(),
            copy.len() == i,
            forall|k: int| 0 <= k < i ==> copy[k]@ == metadata[k]@,
        decreases metadata.len() - i,
    {
        copy.push(metadata[i].clone());
        i += 1;
    }
    assert(entries(copy@) =~= entries(metadata@));
    copy
}

impl Document {
    /// A document of which nothing is known but its text.
    pub fn new(page_content: String) -> (doc: Document)
        ensures
            doc@ == (DocumentView { page_content: page_content@, metadata: Seq::empty() }),
    {
        let doc = Document { page_content, metadata: Vec::new() };
        assert(doc@.metadata =~= Seq::empty());
        doc
    }

    /// The document with what is known about it replaced.
    pub fn with_metadata(self, metadata: Vec<Entry>) -> (doc: Document)
        ensures
            doc@ == (DocumentView {
                page_content: self@.page_content,
                metadata: entries(metadata@),
            }),
    {
        Document { page_content: self.page_content, metadata }
    }
}

impl Default for Document {
    fn default() -> (doc: Self)
        ensures
            doc@ == (DocumentView { page_content: Seq::empty(), metadata: Seq::empty() }),
    {
        Document::new(String::new())
    }
}

/// What is known of a piece of a source file: the kind of its content and its
/// language.
pub open spec fn code_entries(content: LanguageContentTypes, language: Language) -> Seq<EntryView> {
    seq![
        EntryView {
            key: "content_type"@,
            value: match content {
                LanguageContentTypes::SimplifiedCode => "simplified_code"@,
                LanguageContentTypes::FunctionsImpls => "functions_impls"@,
            },
        },
        EntryView {
            key: "language"@,
            value: match language {
                Language::Rust => "Rust"@,
                Language::C => "C"@,
                Language::Cpp => "Cpp"@,
                Language::Javascript => "Javascript"@,
                Language::Typescript => "Typescript"@,
                Language::Go => "Go"@,
                Language::Python => "Python"@,
            },
        },
    ]
}

/// A piece of a source file as a document.
fn code_document(text: String, content: LanguageContentTypes, language: Language) -> (doc: Document)
    ensures
        doc@ == (DocumentView {
            page_content: text@,
            metadata: code_entries(content, language),
        }),
{
    let mut metadata: Vec<Entry> = Vec::new();
    metadata.push(
        Entry { key: String::from_str("content_type"), value: String::from_str(content.name()) },
    );
    metadata.push(
        Entry { key: String::from_str("language"), value: String::from_str(language.name()) },
    );
    assert(entries(metadata@) =~= code_entries(content, language));
    Document { page_content: text, metadata }
}

/// A piece that stands directly below the root of a parsed source file, as
/// the contracts see it: what kind of piece it is, and its text where that is
/// UTF-8.
pub struct NodeView {
    pub kind: Seq<char>,
    pub text: Option<Seq<char>>,
}

/// A parsed source file, as the contracts see it: the line on which it ends,
/// and the pieces directly below its root, with a gap where the parser gave
/// none.
pub struct OutlineView {
    pub end_row: u64,
    pub nodes: Seq<Option<NodeView>>,
}

/// A piece that stands directly below the root of a parsed source file.
#[derive(Debug)]
pub struct OutlineNode {
    pub kind: String,
    pub text: Option<String>,
}

impl View for OutlineNode {
    type V = NodeView;

    open spec fn view(&self) -> NodeView {
        NodeView {
            kind: self.kind@,
            text: match self.text {
                Some(text) => Some(text@),
                None => None,
            },
        }
    }
}

/// A parsed source file.
#[derive(Debug)]
pub struct Outline {
    pub end_row: u64,
    pub nodes: Vec<Option<OutlineNode>>,
}

/// Pieces, and the gaps between them, as the contracts see them.
pub open spec fn nodes_view(nodes: Seq<Option<OutlineNode>>) -> Seq<Option<NodeView>> {
    nodes.map_values(
        |node: Option<OutlineNode>|
            match node {
                Some(node) => Some(node@),
                None => None,
            },
    )
}

impl View for Outline {
    type V = OutlineView;

    open spec fn view(&self) -> OutlineView {
        OutlineView { end_row: self.end_row, nodes: nodes_view(self.nodes@) }
    }
}

/// An outline, if there is one, as the contracts see it.
pub open spec fn outline_view(outline: Option<Outline>) -> Option<OutlineView> {
    match outline {
        Some(outline) => Some(outline@),
        None => None,
    }
}

/// The line on which the tree ends that the parser of a language makes of a
/// source text; none where it makes no tree of it.
pub uninterp spec fn end_row_of(language: Language, code: Seq<char>) -> Option<u64>;

/// The pieces directly below the root of the tree that the parser of a
/// language makes of a source text; none where it makes no tree of it.
pub uninterp spec fn nodes_of(language: Language, code: Seq<char>) -> Option<Seq<Option<NodeView>>>;

/// The outline that the parser of a language makes of a source text; none
/// where it makes no tree of it.
pub open spec fn outline_of(language: Language, code: Seq<char>) -> Option<OutlineView> {
    match (end_row_of(language, code), nodes_of(language, code)) {
        (Some(end_row), Some(nodes)) => Some(OutlineView { end_row, nodes }),
        _ => None,
    }
}

/// Pieces, if there are any, as the contracts see them.
pub open spec fn some_nodes(nodes: Option<Vec<Option<OutlineNode>>>) -> Option<Seq<Option<NodeView>>> {
    match nodes {
        Some(nodes) => Some(nodes_view(nodes@)),
        None => None,
    }
}

/// The line on which a source text ends for the parser: the row of the end
/// of the root of the tree that tree-sitter's `Parser` makes of the text with
/// the grammar of the language. Nothing is claimed of which line that is.
#[verifier::external_body]
fn end_row(language: Language, code: &str) -> (row: Option<u64>)
    ensures
        row == end_row_of(language, code@),
{
    let grammar = match language {
        Language::Rust => RUST, Language::C => C, Language::Cpp => CPP, Language::Go => GO,
        Language::Javascript => JAVASCRIPT, Language::Typescript => TSX, Language::Python => PYTHON,
    };
    let mut parser = Parser::new();
    parser.set_language(&grammar.into()).ok()?;
    Some(parser.parse(code, None)?.root_node().end_position().row as u64)
}

/// The pieces of a source text: of the tree that tree-sitter's `Parser`
/// makes of the text with the grammar of the language, each child of the
/// root with its `kind` and its `utf8_text`. Nothing is claimed of what the
/// pieces are.
#[verifier::external_body]
fn nodes(language: Language, code: &str) -> (nodes: Option<Vec<Option<OutlineNode>>>)
    ensures
        some_nodes(nodes) == nodes_of(language, code@),
{
    let grammar = match language {
        Language::Rust => RUST, Language::C => C, Language::Cpp => CPP, Language::Go => GO,
        Language::Javascript => JAVASCRIPT, Language::Typescript => TSX, Language::Python => PYTHON,
    };
    let mut parser = Parser::new();
    parser.set_language(&grammar.into()).ok()?;
    let tree = parser.parse(code, None)?;
    let text = |n: Node| n.utf8_text(code.as_bytes()).ok().map(str::to_string);
    let node = |n: Node| OutlineNode { kind: n.kind().to_string(), text: text(n) };
    Some((0..tree.root_node().child_count()).map(|i| tree.root_node().child(i).map(node)).collect())
}

/// The outline of a source text.
fn outline(language: Language, code: &str) -> (outline: Option<Outline>)
    ensures
        outline_view(outline) == outline_of(language, code@),
{
    match end_row(language, code) {
        Some(end_row) => match nodes(language, code) {
            Some(nodes) => Some(Outline { end_row, nodes }),
            None => None,
        },
        None => None,
    }
}

/// Whether a piece of a source file is a function or an implementation.
pub open spec fn is_function_or_impl(kind: Seq<char>) -> bool {
    kind == "function_item"@ || kind == "impl_item"@
}

/// The document that a piece of a source file becomes.
pub open spec fn piece_document(kind: Seq<char>, text: Seq<char>, language: Language) -> DocumentView {
    DocumentView {
        page_content: text,
        metadata: code_entries(
            if is_function_or_impl(kind) {
                LanguageContentTypes::FunctionsImpls
            } else {
                LanguageContentTypes::SimplifiedCode
            },
            language,
        ),
    }
}

/// The documents that the pieces of a source file become, one for each piece
/// in its place, the gaps passed over; none where the text of a piece is not
/// UTF-8.
pub open spec fn pieces(nodes: Seq<Option<NodeView>>, language: Language) -> Option<
    Seq<DocumentView>,
>
    decreases nodes.len(),
{
    if nodes.len() == 0 {
        Some(Seq::empty())
    } else {
        match pieces(nodes.drop_last(), language) {
            None => None,
            Some(before) => match nodes.last() {
                None => Some(before),
                Some(node) => match node.text {
                    None => None,
                    Some(text) => Some(before.push(piece_document(node.kind, text, language))),
                },
            },
        }
    }
}

/// What a parser makes of a source text whose outline is given: the whole
/// text as one document of simplified code where the file ends before the
/// threshold, and else its pieces.
pub open spec fn parsed_code(
    options: LanguageParserOptions,
    code: Seq<char>,
    outline: OutlineView,
) -> Option<Seq<DocumentView>> {
    if options.parser_threshold > outline.end_row {
        Some(
            seq![
                DocumentView {
                    page_content: code,
                    metadata: code_entries(LanguageContentTypes::SimplifiedCode, options.language),
                },
            ],
        )
    } else {
        pieces(outline.nodes, options.language)
    }
}

/// A parser of source files of one language.
#[derive(Clone, Copy, Debug, PartialEq, Eq, Structural)]
pub struct LanguageParser {
    pub parser_options: LanguageParserOptions,
}

impl LanguageParser {
    /// A parser of the language, with the threshold that is usual.
    pub fn from_language(language: Language) -> (parser: Self)
        ensures
            parser.parser_options == (LanguageParserOptions {
                parser_threshold: DEFAULT_THRESHOLD,
                language,
            }),
    {
        LanguageParser {
            parser_options: LanguageParserOptions { parser_threshold: DEFAULT_THRESHOLD, language },
        }
    }

    /// The parser with another threshold.
    pub fn with_parser_threshold(self, threshold: u64) -> (parser: Self)
        ensures
            parser.parser_options == (LanguageParserOptions {
                parser_threshold: threshold,
                language: self.parser_options.language,
            }),
    {
        LanguageParser {
            parser_options: LanguageParserOptions {
                parser_threshold: threshold,
                language: self.parser_options.language,
            },
        }
    }

    /// The documents that the pieces of a parsed source file become. Fails
    /// where the text of a piece is not UTF-8, and only there.
    pub fn extract_functions_classes(&self, outline: &Outline) -> (result: Result<
        Vec<Document>,
        LoaderError,
    >)
        ensures
            match pieces(outline@.nodes, self.parser_options.language) {
                Some(docs) => result is Ok && documents(result->Ok_0@) == docs,
                None => result is Err && result->Err_0 is Utf8,
            },
    {
        let language = self.parser_options.language;
        let ghost nodes = outline@.nodes;
        let mut chunks: Vec<Document> = Vec::new();
        let mut i: usize = 0;
        proof {
            assert(nodes.take(0) =~= Seq::<Option<NodeView>>::empty());
            assert(documents(chunks@) =~= Seq::<DocumentView>::empty());
        }
        while i < outline.nodes.len()
            invariant
                i <= outline.nodes.len(),
                nodes == outline@.nodes,
                language == self.parser_options.language,
                pieces(nodes.take(i as int), language) == Some(documents(chunks@)),
            decreases outline.nodes.len() - i,
        {
            proof {
                let longer = nodes.take(i + 1);
                assert(longer.drop_last() =~= nodes.take(i as int));
                assert(longer.last() == nodes[i as int]);
            }
            match &outline.nodes[i] {
                None => {},
                Some(node) => {
                    let text = match &node.text {
                        Some(text) => text.clone(),
                        None => {
                            proof {
                                lemma_pieces_fail(nodes, i as int + 1, language);
                            }
                            return Err(LoaderError::Utf8);
                        },
                    };
                    let content = if is_text(&chars_of(node.kind.as_str()), "function_item")
                        || is_text(&chars_of(node.kind.as_str()), "impl_item") {
                        LanguageContentTypes::FunctionsImpls
                    } else {
                        LanguageContentTypes::SimplifiedCode
                    };
                    let ghost earlier = documents(chunks@);
                    chunks.push(code_document(text, content, language));
                    proof {
                        assert(documents(chunks@) =~= earlier.push(
                            piece_document(node@.kind, node@.text->Some_0, language),
                        ));
                    }
                },
            }
            i += 1;
        }
        proof {
            assert(nodes.take(i as int) =~= nodes);
        }
        Ok(chunks)
    }

    /// What the parser makes of a source text whose outline is given.
    pub fn parse_outline(&self, code: &str, outline: &Outline) -> (result: Result<
        Vec<Document>,
        LoaderError,
    >)
        ensures
            match parsed_code(self.parser_options, code@, outline@) {
                Some(docs) => result is Ok && documents(result->Ok_0@) == docs,
                None => result is Err && result->Err_0 is Utf8,
            },
    {
        if self.parser_options.parser_threshold > outline.end_row {
            let mut docs: Vec<Document> = Vec::new();
            docs.push(
                code_document(
                    String::from_str(code),
                    LanguageContentTypes::SimplifiedCode,
                    self.parser_options.language,
                ),
            );
            assert(documents(docs@) =~= parsed_code(self.parser_options, code@, outline@)->Some_0);
            return Ok(docs);
        }
        self.extract_functions_classes(outline)
    }

    /// What the parser makes of a source text: what `parse_outline` makes of
    /// the text and its outline, and a refusal of the language where the text
    /// has no outline.
    pub fn parse_code(&self, code: &str) -> (result: Result<Vec<Document>, LoaderError>)
        ensures
            match outline_of(self.parser_options.language, code@) {
                None => result is Err && result->Err_0 is UnsupportedLanguage,
                Some(outline) => match parsed_code(self.parser_options, code@, outline) {
                    Some(docs) => result is Ok && documents(result->Ok_0@) == docs,
                    None => result is Err && result->Err_0 is Utf8,
                },
            },
    {
        match outline(self.parser_options.language, code) {
            Some(found) => self.parse_outline(code, &found),
            None => Err(LoaderError::UnsupportedLanguage),
        }
    }
}

/// How a text is cut into chunks: how large a chunk may be, how much two
/// chunks may share, and whether a chunk loses the white space at its ends.
/// Sizes count characters.
#[derive(Clone, Copy, Debug, PartialEq, Eq, Structural)]
pub struct SplitterOptions {
    pub chunk_size: usize,
    pub chunk_overlap: usize,
    pub trim_chunks: bool,
}

/// How large a chunk may be, where nothing else is asked for.
pub const DEFAULT_CHUNK_SIZE: usize = 512;

impl Default for SplitterOptions {
    fn default() -> (options: Self)
        ensures
            options == (SplitterOptions {
                chunk_size: DEFAULT_CHUNK_SIZE,
                chunk_overlap: 0,
                trim_chunks: false,
            }),
    {
        SplitterOptions { chunk_size: DEFAULT_CHUNK_SIZE, chunk_overlap: 0, trim_chunks: false }
    }
}

/// The chunks into which a plain text is cut.
pub uninterp spec fn plain_chunks(text: Seq<char>, capacity: nat, overlap: nat, trim: bool) -> Seq<
    Seq<char>,
>;

/// The chunks into which a Markdown text is cut.
pub uninterp spec fn markdown_chunks(
    text: Seq<char>,
    capacity: nat,
    overlap: nat,
    trim: bool,
) -> Seq<Seq<char>>;

/// The chunks of a plain text: `chunks` of a `TextSplitter` of the
/// text-splitter crate that sizes chunks by characters. The crate takes an
/// overlap only below the capacity. Nothing is claimed of the chunks.
#[verifier::external_body]
fn split_plain(text: &str, capacity: usize, overlap: usize, trim: bool) -> (chunks: Vec<String>)
    requires
        overlap < capacity,
    ensures
        strings(chunks@) == plain_chunks(text@, capacity as nat, overlap as nat, trim),
{
    match text_splitter::ChunkConfig::new(capacity).with_trim(trim).with_overlap(overlap) {
        Ok(config) => text_splitter::TextSplitter::new(config).chunks(text).map(str::to_string).collect(),
        Err(_) => Vec::new(),
    }
}

/// The chunks of a Markdown text: `chunks` of a `MarkdownSplitter` of the
/// text-splitter crate that sizes chunks by characters. The crate takes an
/// overlap only below the capacity. Nothing is claimed of the chunks.
#[verifier::external_body]
fn split_markdown(text: &str, capacity: usize, overlap: usize, trim: bool) -> (chunks: Vec<String>)
    requires
        overlap < capacity,
    ensures
        strings(chunks@) == markdown_chunks(text@, capacity as nat, overlap as nat, trim),
{
    match text_splitter::ChunkConfig::new(capacity).with_trim(trim).with_overlap(overlap) {
        Ok(config) => text_splitter::MarkdownSplitter::new(config).chunks(text).map(str::to_string).collect(),
        Err(_) => Vec::new(),
    }
}

/// Something that cuts texts into chunks.
pub trait TextSplitter {
    /// The chunks into which the text is cut; none where the splitter cannot
    /// work with its options.
    spec fn cut(&self, text: Seq<char>) -> Option<Seq<Seq<char>>>;

    /// Whether the splitter can work with its options.
    spec fn usable(&self) -> bool;

    /// Whether a text is cut depends on the options alone.
    proof fn lemma_usable(&self, text: Seq<char>)
        ensures
            self.cut(text) is Some <==> self.usable(),
    ;

    /// Cuts the text into chunks.
    fn split_text(&self, text: &str) -> (result: Result<Vec<String>, LoaderError>)
        ensures
            match self.cut(text@) {
                Some(chunks) => result is Ok && strings(result->Ok_0@) == chunks,
                None => result is Err && result->Err_0 is TextSplitter && result->Err_0->TextSplitter_0@
                    == OVERLAP_TOO_LARGE@,
            },
    ;
}

/// Cuts plain text.
#[derive(Clone, Copy, Debug, PartialEq, Eq, Structural)]
pub struct TokenSplitter {
    pub splitter_options: SplitterOptions,
}

impl TokenSplitter {
    /// A splitter with the given options.
    pub fn new(options: SplitterOptions) -> (splitter: TokenSplitter)
        ensures
            splitter.splitter_options == options,
    {
        TokenSplitter { splitter_options: options }
    }
}

impl Default for TokenSplitter {
    fn default() -> (splitter: Self)
        ensures
            splitter.splitter_options == (SplitterOptions {
                chunk_size: DEFAULT_CHUNK_SIZE,
                chunk_overlap: 0,
                trim_chunks: false,
            }),
    {
        TokenSplitter::new(SplitterOptions::default())
    }
}

impl TextSplitter for TokenSplitter {
    open spec fn cut(&self, text: Seq<char>) -> Option<Seq<Seq<char>>> {
        if self.usable() {
            Some(
                plain_chunks(
                    text,
                    self.splitter_options.chunk_size as nat,
                    self.splitter_options.chunk_overlap as nat,
                    self.splitter_options.trim_chunks,
                ),
            )
        } else {
            None
        }
    }

    open spec fn usable(&self) -> bool {
        self.splitter_options.chunk_overlap < self.splitter_options.chunk_size
    }

    proof fn lemma_usable(&self, text: Seq<char>) {
    }

    fn split_text(&self, text: &str) -> (result: Result<Vec<String>, LoaderError>) {
        let options = self.splitter_options;
        if options.chunk_overlap >= options.chunk_size {
            return Err(LoaderError::TextSplitter(String::from_str(OVERLAP_TOO_LARGE)));
        }
        Ok(split_plain(text, options.chunk_size, options.chunk_overlap, options.trim_chunks))
    }
}

/// Cuts Markdown text.
#[derive(Clone, Copy, Debug, PartialEq, Eq, Structural)]
pub struct MarkdownSplitter {
    pub splitter_options: SplitterOptions,
}

impl MarkdownSplitter {
    /// A splitter with the given options.
    pub fn new(options: SplitterOptions) -> (splitter: MarkdownSplitter)
        ensures
            splitter.splitter_options == options,
    {
        MarkdownSplitter { splitter_options: options }
    }
}

impl Default for MarkdownSplitter {
    fn default() -> (splitter: Self)
        ensures
            splitter.splitter_options == (SplitterOptions {
                chunk_size: DEFAULT_CHUNK_SIZE,
                chunk_overlap: 0,
                trim_chunks: false,
            }),
    {
        MarkdownSplitter::new(SplitterOptions::default())
    }
}

impl TextSplitter for MarkdownSplitter {
    open spec fn cut(&self, text: Seq<char>) -> Option<Seq<Seq<char>>> {
        if self.usable() {
            Some(
                markdown_chunks(
                    text,
                    self.splitter_options.chunk_size as nat,
                    self.splitter_options.chunk_overlap as nat,
                    self.splitter_options.trim_chunks,
                ),
            )
        } else {
            None
        }
    }

    open spec fn usable(&self) -> bool {
        self.splitter_options.chunk_overlap < self.splitter_options.chunk_size
    }

    proof fn lemma_usable(&self, text: Seq<char>) {
    }

    fn split_text(&self, text: &str) -> (result: Result<Vec<String>, LoaderError>) {
        let options = self.splitter_options;
        if options.chunk_overlap >= options.chunk_size {
            return Err(LoaderError::TextSplitter(String::from_str(OVERLAP_TOO_LARGE)));
        }
        Ok(split_markdown(text, options.chunk_size, options.chunk_overlap, options.trim_chunks))
    }
}

/// The documents that the chunks of one document become: each chunk with what
/// was known of the whole.
pub open spec fn chunk_documents(chunks: Seq<Seq<char>>, metadata: Seq<EntryView>) -> Seq<
    DocumentView,
> {
    Seq::new(chunks.len(), |i: int| DocumentView { page_content: chunks[i], metadata })
}

/// The documents that a splitter makes of documents: the chunks of the first,
/// then those of the second, and so on.
pub open spec fn split_all<S: TextSplitter>(splitter: &S, docs: Seq<DocumentView>) -> Seq<
    DocumentView,
>
    decreases docs.len(),
{
    if docs.len() == 0 {
        Seq::empty()
    } else {
        split_all(splitter, docs.drop_last()) + (match splitter.cut(docs.last().page_content) {
            Some(chunks) => chunk_documents(chunks, docs.last().metadata),
            None => Seq::empty(),
        })
    }
}

/// Cuts each document into chunks, each of which is a document that keeps
/// what was known of the whole. Fails where the splitter cannot work with its
/// options and there is a document to cut, and only there.
pub fn split_documents<S: TextSplitter>(splitter: &S, docs: &Vec<Document>) -> (result: Result<
    Vec<Document>,
    LoaderError,
>)
    ensures
        if splitter.usable() || docs.len() == 0 {
            result is Ok && documents(result->Ok_0@) == split_all(splitter, documents(docs@))
        } else {
            result is Err && result->Err_0 is TextSplitter
        },
{
    let ghost given = documents(docs@);
    let mut out: Vec<Document> = Vec::new();
    let mut i: usize = 0;
    proof {
        assert(given.take(0) =~= Seq::<DocumentView>::empty());
        assert(documents(out@) =~= Seq::<DocumentView>::empty());
    }
    while i < docs.len()
        invariant
            i <= docs.len(),
            given == documents(docs@),
            i > 0 ==> splitter.usable(),
            documents(out@) == split_all(splitter, given.take(i as int)),
        decreases docs.len() - i,
    {
        let doc = &docs[i];
        proof {
            let longer = given.take(i + 1);
            assert(longer.drop_last() =~= given.take(i as int));
            assert(longer.last() == doc@);
            splitter.lemma_usable(doc@.page_content);
        }
        let chunks = match splitter.split_text(doc.page_content.as_str()) {
            Ok(chunks) => chunks,
            Err(error) => {
                return Err(error);
            },
        };
        let ghost before = documents(out@);
        let ghost wanted = chunk_documents(strings(chunks@), doc@.metadata);
        let mut k: usize = 0;
        let mut chunks = chunks;
        let ghost all = strings(chunks@);
        let ghost count = chunks.len();
        // the chunks are taken from the end, so they are put in from the end
        let mut tail: Vec<Document> = Vec::new();
        while chunks.len() > 0
            invariant
                count == all.len(),
                chunks.len() <= count,
                strings(chunks@) == all.take(chunks.len() as int),
                tail.len() == count - chunks.len(),
                forall|j: int|
                    0 <= j < tail.len() ==> (#[trigger] tail[j])@ == wanted[count - 1 - j],
                wanted == chunk_documents(all, doc@.metadata),
            decreases chunks.len(),
        {
            let ghost left = strings(chunks@);
            let chunk = chunks.pop().unwrap();
            proof {
                assert(chunk@ == left[left.len() - 1]);
                assert(strings(chunks@) =~= all.take(chunks.len() as int));
            }
            tail.push(Document { page_content: chunk, metadata: copy_entries(&doc.metadata) });
        }
        while tail.len() > 0
            invariant
                tail.len() <= count,
                count == wanted.len(),
                forall|j: int|
                    0 <= j < tail.len() ==> (#[trigger] tail[j])@ == wanted[count - 1 - j],
                documents(out@) == before + wanted.take(count - tail.len()),
            decreases tail.len(),
        {
            let ghost earlier = documents(out@);
            let ghost at = count - tail.len();
            let piece = tail.pop().unwrap();
            out.push(piece);
            proof {
                assert(documents(out@) =~= earlier.push(wanted[at]));
                assert(wanted.take(at + 1) =~= wanted.take(at).push(wanted[at]));
                assert(documents(out@) =~= before + wanted.take(at + 1));
            }
        }
        proof {
            assert(wanted.take(count as int) =~= wanted);
        }
        i += 1;
    }
    proof {
        assert(given.take(i as int) =~= given);
    }
    Ok(out)
}

/// Loads a plain text.
#[derive(Debug)]
pub struct TextLoader {
    pub content: String,
}

impl TextLoader {
    /// A loader of the given text.
    pub fn new(input: String) -> (loader: TextLoader)
        ensures
            loader.content@ == input@,
    {
        TextLoader { content: input }
    }

    /// The text as one document.
    fn whole(self) -> (docs: Vec<Document>)
        ensures
            documents(docs@) == seq![
                DocumentView { page_content: self.content@, metadata: Seq::empty() },
            ],
    {
        let mut docs: Vec<Document> = Vec::new();
        docs.push(Document::new(self.content));
        assert(documents(docs@) =~= seq![
            DocumentView { page_content: self.content@, metadata: Seq::empty() },
        ]);
        docs
    }

    /// The text as one document. Loading a text never fails.
    pub fn load(self) -> (result: Result<Vec<Document>, LoaderError>)
        ensures
            result is Ok,
            documents(result->Ok_0@) == seq![
                DocumentView { page_content: self.content@, metadata: Seq::empty() },
            ],
    {
        Ok(self.whole())
    }
}

/// Loads a source file.
#[derive(Debug)]
pub struct SourceCodeLoader {
    pub content: String,
    pub parser_option: LanguageParserOptions,
}

impl SourceCodeLoader {
    /// A loader of the given source text, with the options that are usual.
    pub fn from_string(input: String) -> (loader: SourceCodeLoader)
        ensures
            loader.content@ == input@,
            loader.parser_option == (LanguageParserOptions {
                parser_threshold: DEFAULT_THRESHOLD,
                language: Language::Rust,
            }),
    {
        SourceCodeLoader { content: input, parser_option: LanguageParserOptions::default() }
    }

    /// The loader with other options.
    pub fn with_parser_option(self, parser_option: LanguageParserOptions) -> (loader:
        SourceCodeLoader)
        ensures
            loader.content@ == self.content@,
            loader.parser_option == parser_option,
    {
        SourceCodeLoader { content: self.content, parser_option }
    }

    /// The source text as documents: what the parser of its language makes
    /// of it.
    pub fn load(self) -> (result: Result<Vec<Document>, LoaderError>)
        ensures
            match outline_of(self.parser_option.language, self.content@) {
                None => result is Err && result->Err_0 is UnsupportedLanguage,
                Some(outline) => match parsed_code(self.parser_option, self.content@, outline) {
                    Some(docs) => result is Ok && documents(result->Ok_0@) == docs,
                    None => result is Err && result->Err_0 is Utf8,
                },
            },
    {
        let parser = LanguageParser::from_language(
            self.parser_option.language,
        ).with_parser_threshold(self.parser_option.parser_threshold);
        parser.parse_code(self.content.as_str())
    }
}

/// Loads a page of HTML that was fetched from an address.
#[derive(Debug)]
pub struct HtmlLoader {
    pub html: Vec<u8>,
    pub url: String,
}

impl HtmlLoader {
    /// A loader of the given page.
    pub fn new(html: Vec<u8>, url: String) -> (loader: HtmlLoader)
        ensures
            loader.html@ == html@,
            loader.url@ == url@,
    {
        HtmlLoader { html, url }
    }

    /// A loader of the page that the text holds.
    pub fn from_string(input: String, url: String) -> (loader: HtmlLoader)
        ensures
            loader.html@ == encode_utf8(input@),
            loader.url@ == url@,
    {
        HtmlLoader { html: input.as_str().as_bytes_vec(), url }
    }

    /// The page as one document, given the title and the text that were
    /// extracted from it: the title, a line break and the text, and the
    /// address of the page as its source.
    pub fn load_extracted(self, title: &str, text: &str) -> (docs: Vec<Document>)
        ensures
            documents(docs@) == seq![
                DocumentView {
                    page_content: title@ + seq!['\n'] + text@,
                    metadata: seq![EntryView { key: "source"@, value: self.url@ }],
                },
            ],
    {
        let mut content = chars_of(title);
        content.push('\n');
        crate::text::push_str(&mut content, text);
        assert(content@ =~= title@ + seq!['\n'] + text@);
        let mut metadata: Vec<Entry> = Vec::new();
        metadata.push(Entry { key: String::from_str("source"), value: self.url });
        assert(entries(metadata@) =~= seq![EntryView { key: "source"@, value: self.url@ }]);
        let doc = Document { page_content: string_of(&content), metadata };
        let ghost made = doc@;
        let mut docs: Vec<Document> = Vec::new();
        docs.push(doc);
        assert(documents(docs@) =~= seq![made]);
        docs
    }
}

/// One chunk of a document, as the contracts see it.
pub struct ChunkView {
    pub index: usize,
    pub content: Seq<char>,
    pub start: Option<usize>,
    pub end: Option<usize>,
}

/// One chunk of a document: where it stands among the chunks, and its text.
#[derive(Debug)]
pub struct Chunk {
    pub index: usize,
    pub content: String,
    pub start: Option<usize>,
    pub end: Option<usize>,
}

impl View for Chunk {
    type V = ChunkView;

    open spec fn view(&self) -> ChunkView {
        ChunkView { index: self.index, content: self.content@, start: self.start, end: self.end }
    }
}

impl Clone for Chunk {
    fn clone(&self) -> (copy: Self)
        ensures
            copy@ == self@,
    {
        Chunk {
            index: self.index,
            content: self.content.clone(),
            start: self.start,
            end: self.end,
        }
    }
}

impl Default for Chunk {
    fn default() -> (chunk: Self)
        ensures
            chunk@ == (ChunkView { index: 0, content: Seq::empty(), start: None, end: None }),
    {
        Chunk { index: 0, content: String::new(), start: None, end: None }
    }
}

/// Chunks as the contracts see them.
pub open spec fn chunk_views(chunks: Seq<Chunk>) -> Seq<ChunkView> {
    chunks.map_values(|chunk: Chunk| chunk@)
}

/// The chunks that documents become: one for each, numbered from 0, with the
/// document's text.
pub open spec fn numbered(docs: Seq<DocumentView>) -> Seq<ChunkView> {
    Seq::new(
        docs.len(),
        |i: int| ChunkView { index: i as usize, content: docs[i].page_content, start: None, end: None },
    )
}

/// How a document is loaded.
#[derive(Clone, Copy, Debug, PartialEq, Eq, Structural)]
pub struct DocOptions {
    pub code_threshold: u64,
}

impl Default for DocOptions {
    fn default() -> (options: Self)
        ensures
            options == (DocOptions { code_threshold: DEFAULT_THRESHOLD }),
    {
        DocOptions { code_threshold: DEFAULT_THRESHOLD }
    }
}

/// The kinds of text, each of which is loaded and cut in its own way.
#[derive(Clone, Copy, Debug, PartialEq, Eq, Structural)]
pub enum Source {
    Markdown,
    Code(Language),
    Text,
}

/// How a text file is loaded, by the ending of its path and by its name:
/// Markdown for `md`, source code for the endings of source files, where the
/// name stands for a language, and plain text for anything else. A source
/// file whose name stands for no language is refused.
pub open spec fn source_by_ending(ending: Seq<char>, file_path: Seq<char>) -> Option<Source> {
    if ending == "md"@ {
        Some(Source::Markdown)
    } else if ending == "rs"@ || ending == "c"@ || ending == "cpp"@ || ending == "h"@ || ending
        == "hpp"@ || ending == "js"@ || ending == "ts"@ || ending == "tsx"@ || ending == "go"@
        || ending == "py"@ {
        match language_by_filename(file_path) {
            Some(language) => Some(Source::Code(language)),
            None => None,
        }
    } else {
        Some(Source::Text)
    }
}

/// How a text file is loaded, by the ending of its path and by its name.
pub fn source_of(ending: &str, file_path: &str) -> (result: Result<Source, LoaderError>)
    ensures
        match source_by_ending(ending@, file_path@) {
            Some(source) => result is Ok && result->Ok_0 == source,
            None => result is Err && result->Err_0 is UnsupportedLanguage,
        },
{
    let ending = chars_of(ending);
    if is_text(&ending, "md") {
        Ok(Source::Markdown)
    } else if is_text(&ending, "rs") || is_text(&ending, "c") || is_text(&ending, "cpp") || is_text(
        &ending,
        "h",
    ) || is_text(&ending, "hpp") || is_text(&ending, "js") || is_text(&ending, "ts") || is_text(
        &ending,
        "tsx",
    ) || is_text(&ending, "go") || is_text(&ending, "py") {
        match get_language_by_filename(file_path) {
            Ok(language) => Ok(Source::Code(language)),
            Err(error) => Err(error),
        }
    } else {
        Ok(Source::Text)
    }
}

/// The kind of file that a file of an extractable kind is, by the ending that
/// stands for its kind; none for any other ending.
pub open spec fn format_of(kind: Seq<char>) -> Option<Format> {
    if kind == "pdf"@ {
        Some(Format::Pdf)
    } else if kind == "docx"@ {
        Some(Format::Docx)
    } else if kind == "html"@ {
        Some(Format::Html)
    } else {
        None
    }
}

/// What loading a text of a known kind comes to: a document of the given name
/// whose chunks are what the splitter of the kind makes of what the loader of
/// the kind makes of the text; or, for source code, the failure of its
/// parser.
pub open spec fn source_outcome(
    file_path: Seq<char>,
    text: Seq<char>,
    source: Source,
    options: DocOptions,
    result: Result<Doc, LoaderError>,
) -> bool {
    match result {
        Ok(doc) => doc.name@ == file_path && (match source {
            Source::Markdown => chunk_views(doc.chunks@) == numbered(
                split_all(
                    &MarkdownSplitter {
                        splitter_options: SplitterOptions {
                            chunk_size: DEFAULT_CHUNK_SIZE,
                            chunk_overlap: 0,
                            trim_chunks: false,
                        },
                    },
                    seq![DocumentView { page_content: text, metadata: Seq::empty() }],
                ),
            ),
            Source::Text => chunk_views(doc.chunks@) == numbered(
                split_all(
                    &TokenSplitter {
                        splitter_options: SplitterOptions {
                            chunk_size: DEFAULT_CHUNK_SIZE,
                            chunk_overlap: 0,
                            trim_chunks: false,
                        },
                    },
                    seq![DocumentView { page_content: text, metadata: Seq::empty() }],
                ),
            ),
            Source::Code(language) => match outline_of(language, text) {
                Some(outline) => match parsed_code(
                    LanguageParserOptions {
                        parser_threshold: options.code_threshold,
                        language,
                    },
                    text,
                    outline,
                ) {
                    Some(docs) => chunk_views(doc.chunks@) == numbered(
                        split_all(
                            &TokenSplitter {
                                splitter_options: SplitterOptions {
                                    chunk_size: DEFAULT_CHUNK_SIZE,
                                    chunk_overlap: 0,
                                    trim_chunks: false,
                                },
                            },
                            docs,
                        ),
                    ),
                    None => false,
                },
                None => false,
            },
        }),
        Err(error) => match source {
            Source::Code(language) => match outline_of(language, text) {
                Some(outline) => error is Utf8 && parsed_code(
                    LanguageParserOptions {
                        parser_threshold: options.code_threshold,
                        language,
                    },
                    text,
                    outline,
                ) is None,
                None => error is UnsupportedLanguage,
            },
            _ => false,
        },
    }
}

/// A document cut into chunks.
#[derive(Debug)]
pub struct Doc {
    pub name: String,
    pub chunks: Vec<Chunk>,
}

impl Doc {
    /// The document of the given name whose chunks are the given documents,
    /// numbered from 0.
    pub fn from_documents(file_path: &str, docs: Vec<Document>) -> (doc: Doc)
        ensures
            doc.name@ == file_path@,
            chunk_views(doc.chunks@) == numbered(documents(docs@)),
    {
        let mut chunks: Vec<Chunk> = Vec::new();
        let mut i: usize = 0;
        while i < docs.len()
            invariant
                i <= docs.len(),
                chunks.len() == i,
                forall|k: int|
                    0 <= k < i ==> (#[trigger] chunks[k])@ == numbered(documents(docs@))[k],
            decreases docs.len() - i,
        {
            chunks.push(
                Chunk { index: i, content: docs[i].page_content.clone(), start: None, end: None },
            );
            i += 1;
        }
        assert(chunk_views(chunks@) =~= numbered(documents(docs@)));
        Doc { name: String::from_str(file_path), chunks }
    }

    /// The document that a text of a known kind becomes: loaded as its kind
    /// asks and cut by the splitter of its kind, with the options that are
    /// usual.
    pub fn from_source(file_path: &str, text: String, source: Source, options: DocOptions) -> (result:
        Result<Doc, LoaderError>)
        ensures
            source_outcome(file_path@, text@, source, options, result),
    {
        let loaded = match source {
            Source::Markdown => {
                let docs = TextLoader::new(text).whole();
                split_documents(&MarkdownSplitter::default(), &docs)
            },
            Source::Text => {
                let docs = TextLoader::new(text).whole();
                split_documents(&TokenSplitter::default(), &docs)
            },
            Source::Code(language) => {
                let loader = SourceCodeLoader::from_string(text).with_parser_option(
                    LanguageParserOptions { parser_threshold: options.code_threshold, language },
                );
                match loader.load() {
                    Ok(docs) => split_documents(&TokenSplitter::default(), &docs),
                    Err(error) => {
                        return Err(error);
                    },
                }
            },
        };
        match loaded {
            Ok(docs) => Ok(Doc::from_documents(file_path, docs)),
            Err(error) => Err(error),
        }
    }

    /// The document that the text extracted from a file becomes: cut as plain
    /// text, a page of HTML with its title before its text.
    pub fn from_extracted(file_path: &str, format: Format, title: &str, text: &str) -> (result: Result<
        Doc,
        LoaderError,
    >)
        ensures
            result is Ok,
            result->Ok_0.name@ == file_path@,
            chunk_views(result->Ok_0.chunks@) == numbered(
                split_all(
                    &TokenSplitter {
                        splitter_options: SplitterOptions {
                            chunk_size: DEFAULT_CHUNK_SIZE,
                            chunk_overlap: 0,
                            trim_chunks: false,
                        },
                    },
                    seq![
                        DocumentView {
                            page_content: match format {
                                Format::Html => title@ + seq!['\n'] + text@,
                                _ => text@,
                            },
                            metadata: match format {
                                Format::Html => seq![
                                    EntryView { key: "source"@, value: file_path@ },
                                ],
                                _ => Seq::empty(),
                            },
                        },
                    ],
                ),
            ),
    {
        let docs = match format {
            Format::Html => HtmlLoader::new(Vec::new(), String::from_str(file_path)).load_extracted(
                title,
                text,
            ),
            _ => TextLoader::new(String::from_str(text)).whole(),
        };
        match split_documents(&TokenSplitter::default(), &docs) {
            Ok(docs) => Ok(Doc::from_documents(file_path, docs)),
            Err(error) => Err(error),
        }
    }
}

/// The ending that stands for the kind of file that a byte string is, by the
/// marks that files of a kind begin with; none where it bears no such mark.
pub uninterp spec fn kind_of(bytes: Seq<u8>) -> Option<Seq<char>>;

/// The text that units of UTF-16 hold; none where they hold none.
pub uninterp spec fn utf16_text(units: Seq<u16>) -> Option<Seq<char>>;

/// The kind of file that `bytes` is: `extension` of what `get` of the infer
/// crate finds. Nothing is claimed of which bytes are of which kind.
#[verifier::external_body]
fn infer_kind(bytes: &[u8]) -> (kind: Option<String>)
    ensures
        match kind {
            Some(kind) => kind_of(bytes@) == Some(kind@),
            None => kind_of(bytes@) is None,
        },
{
    infer::get(bytes).map(|kind| kind.extension().to_string())
}

/// The text that `bytes` hold as UTF-8: `String::from_utf8` of std, which
/// gives the text exactly where the bytes are valid UTF-8.
#[verifier::external_body]
fn text_of_utf8(bytes: &[u8]) -> (text: Option<String>)
    ensures
        match text {
            Some(text) => valid_utf8(bytes@) && text@ == decode_utf8(bytes@),
            None => !valid_utf8(bytes@),
        },
{
    String::from_utf8(bytes.to_vec()).ok()
}

/// The text that `units` hold as UTF-16: `String::from_utf16` of std.
#[verifier::external_body]
fn text_of_utf16(units: &Vec<u16>) -> (text: Option<String>)
    ensures
        match text {
            Some(text) => utf16_text(units@) == Some(text@),
            None => utf16_text(units@) is None,
        },
{
    String::from_utf16(units).ok()
}

/// The ending of a path: `ext_str` of the path-ext crate, which is the
/// `extension` of std's `Path` as text, and empty where there is none. What
/// parts a path has depends on the system that reads it, so nothing is
/// claimed of the ending.
#[verifier::external_body]
fn path_ending(path: &str) -> (ending: String) {
    PathBuf::from(path).ext_str().to_string()
}

/// The units of sixteen bits that bytes hold two by two, the low byte first.
/// A byte that is left over is dropped.
pub open spec fn units_of(bytes: Seq<u8>) -> Seq<u16> {
    Seq::new(
        (bytes.len() / 2) as nat,
        |i: int| (bytes[2 * i] as int + 256 * (bytes[2 * i + 1] as int)) as u16,
    )
}

/// The text that a file holds: its bytes read as UTF-8 where they are, and
/// else as UTF-16 with the low byte first; none where they are neither.
pub open spec fn text_of(bytes: Seq<u8>) -> Option<Seq<char>> {
    if valid_utf8(bytes) {
        Some(decode_utf8(bytes))
    } else {
        utf16_text(units_of(bytes))
    }
}

/// The text that a file holds.
pub fn decode(bytes: &[u8]) -> (text: Option<String>)
    ensures
        match text {
            Some(text) => text_of(bytes@) == Some(text@),
            None => text_of(bytes@) is None,
        },
{
    match text_of_utf8(bytes) {
        Some(text) => Some(text),
        None => {
            let mut units: Vec<u16> = Vec::new();
            let mut i: usize = 0;
            while i + 1 < bytes.len()
                invariant
                    i % 2 == 0,
                    i <= bytes.len(),
                    units.len() == i / 2,
                    forall|k: int| 0 <= k < units.len() ==> units[k] == units_of(bytes@)[k],
                decreases bytes.len() - i,
            {
                let low = bytes[i] as u16;
                let high = bytes[i + 1] as u16;
                units.push(low + 256 * high);
                i += 2;
            }
            assert(units@ =~= units_of(bytes@));
            text_of_utf16(&units)
        },
    }
}

/// How many bytes from its start tell the kind of a file.
pub const KIND_PREFIX: usize = 4096;

/// What loading a file comes to, given the ending of its path and the ending
/// that stands for its kind where it has a known one: a file of a kind whose
/// text has to be extracted is handed back for that, and a file of another
/// known kind is refused; a file of no known kind is loaded as the text that
/// it holds, by the ending of its path, and refused where it holds none.
pub open spec fn ending_outcome(
    file_path: Seq<char>,
    bytes: Seq<u8>,
    options: DocOptions,
    ending: Seq<char>,
    kind: Option<Seq<char>>,
    result: Result<Doc, LoaderError>,
) -> bool {
    match kind {
        Some(kind) => result is Err && (match format_of(kind) {
            Some(format) => result->Err_0 is NeedsExtraction && result->Err_0->NeedsExtraction_0
                == format,
            None => result->Err_0 is Other && result->Err_0->Other_0@ == UNKNOWN_KIND@,
        }),
        None => match text_of(bytes) {
            Some(text) => match source_by_ending(ending, file_path) {
                Some(source) => source_outcome(file_path, text, source, options, result),
                None => result is Err && result->Err_0 is UnsupportedLanguage,
            },
            None => result is Err && result->Err_0 is Other && result->Err_0->Other_0@
                == UNKNOWN_KIND@,
        },
    }
}

/// What loading a file comes to, given the ending that stands for its kind
/// where it has a known one: what `ending_outcome` says for the ending that
/// the system finds in the path, whichever that is.
pub open spec fn kind_outcome(
    file_path: Seq<char>,
    bytes: Seq<u8>,
    options: DocOptions,
    kind: Option<Seq<char>>,
    result: Result<Doc, LoaderError>,
) -> bool {
    exists|ending: Seq<char>| #[trigger]
        ending_outcome(file_path, bytes, options, ending, kind, result)
}

/// A string, if there is one, as a sequence of characters.
pub open spec fn text_view(text: Option<String>) -> Option<Seq<char>> {
    match text {
        Some(text) => Some(text@),
        None => None,
    }
}

impl Doc {
    /// Loads a file whose kind was found out already.
    pub fn with_kind(file_path: &str, doc: &[u8], options: DocOptions, kind: Option<String>) -> (result:
        Result<Doc, LoaderError>)
        ensures
            kind_outcome(file_path@, doc@, options, text_view(kind), result),
    {
        let ending = path_ending(file_path);
        let ghost known = text_view(kind);
        let result = match kind {
            Some(kind) => {
                let kind = chars_of(kind.as_str());
                if is_text(&kind, "pdf") {
                    Err(LoaderError::NeedsExtraction(Format::Pdf))
                } else if is_text(&kind, "docx") {
                    Err(LoaderError::NeedsExtraction(Format::Docx))
                } else if is_text(&kind, "html") {
                    Err(LoaderError::NeedsExtraction(Format::Html))
                } else {
                    Err(LoaderError::Other(String::from_str(UNKNOWN_KIND)))
                }
            },
            None => match decode(doc) {
                Some(text) => match source_of(ending.as_str(), file_path) {
                    Ok(source) => Doc::from_source(file_path, text, source, options),
                    Err(error) => Err(error),
                },
                None => Err(LoaderError::Other(String::from_str(UNKNOWN_KIND))),
            },
        };
        proof {
            assert(ending_outcome(file_path@, doc@, options, ending@, known, result));
        }
        result
    }

    /// Loads a file: finds out its kind from its first `KIND_PREFIX` bytes
    /// and loads it as `with_kind` does.
    pub fn with_options(file_path: &str, doc: &[u8], options: DocOptions) -> (result: Result<
        Doc,
        LoaderError,
    >)
        ensures
            kind_outcome(
                file_path@,
                doc@,
                options,
                kind_of(
                    doc@.subrange(
                        0,
                        if doc@.len() < KIND_PREFIX {
                            doc@.len() as int
                        } else {
                            KIND_PREFIX as int
                        },
                    ),
                ),
                result,
            ),
    {
        let upto = if doc.len() < KIND_PREFIX {
            doc.len()
        } else {
            KIND_PREFIX
        };
        let kind = infer_kind(vstd::slice::slice_subrange(doc, 0, upto));
        Doc::with_kind(file_path, doc, options, kind)
    }

    /// Loads a file with the options that are usual.
    pub fn new(file_path: &str, doc: &[u8]) -> (result: Result<Doc, LoaderError>)
        ensures
            kind_outcome(
                file_path@,
                doc@,
                DocOptions { code_threshold: DEFAULT_THRESHOLD },
                kind_of(
                    doc@.subrange(
                        0,
                        if doc@.len() < KIND_PREFIX {
                            doc@.len() as int
                        } else {
                            KIND_PREFIX as int
                        },
                    ),
                ),
                result,
            ),
    {
        Doc::with_options(file_path, doc, DocOptions::default())
    }
}

/// A file that waits to be loaded.
#[derive(Debug)]
pub struct AsyncParseDocResponse {
    pub file_path: String,
    pub doc: Vec<u8>,
}

impl AsyncParseDocResponse {
    /// Loads the file with the options that are usual.
    pub fn compute(&self) -> (result: Result<Doc, LoaderError>)
        ensures
            kind_outcome(
                self.file_path@,
                self.doc@,
                DocOptions { code_threshold: DEFAULT_THRESHOLD },
                kind_of(
                    self.doc@.subrange(
                        0,
                        if self.doc@.len() < KIND_PREFIX {
                            self.doc@.len() as int
                        } else {
                            KIND_PREFIX as int
                        },
                    ),
                ),
                result,
            ),
    {
        Doc::new(self.file_path.as_str(), self.doc.as_slice())
    }
}

/// Once the pieces up to some place have no documents, neither have all.
proof fn lemma_pieces_fail(nodes: Seq<Option<NodeView>>, upto: int, language: Language)
    requires
        0 <= upto <= nodes.len(),
        pieces(nodes.take(upto), language) is None,
    ensures
        pieces(nodes, language) is None,
    decreases nodes.len() - upto,
{
    if upto == nodes.len() {
        assert(nodes.take(upto) =~= nodes);
    } else {
        assert(nodes.take(upto + 1).drop_last() =~= nodes.take(upto));
        lemma_pieces_fail(nodes, upto + 1, language);
    }
}

} // verus!
