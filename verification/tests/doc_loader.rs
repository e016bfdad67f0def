use affine_native::doc_loader::{
    decode, get_language_by_filename, source_of, split_documents, AsyncParseDocResponse, Chunk,
    Doc, DocOptions, Document, Entry, Format, HtmlLoader, Language, LanguageContentTypes,
    LanguageParser, LanguageParserOptions, LoaderError, MarkdownSplitter, Outline, OutlineNode,
    Source, SourceCodeLoader, SplitterOptions, TextLoader, TextSplitter, TokenSplitter,
    DEFAULT_CHUNK_SIZE, DEFAULT_THRESHOLD,
};

const CODE: &str = r#"
        fn main() {
            println!("Hello, world!");
        }

        pub struct Person {
            name: String,
            age: i32,
        }

        impl Person {
            pub fn new(name: String, age: i32) -> Self {
                Self { name, age }
            }

            pub fn get_name(&self) -> &str {
                &self.name
            }

            pub fn get_age(&self) -> i32 {
                self.age
            }
        }
        "#;

fn value<'a>(doc: &'a Document, key: &str) -> &'a str {
    doc.metadata.iter().find(|entry| entry.key == key).unwrap().value.as_str()
}

#[test]
fn test_code_parser() {
    let parser = LanguageParser::from_language(Language::Rust);

    let documents = parser.parse_code(CODE).unwrap();
    assert_eq!(documents.len(), 1);

    // Set the parser threshold to 10 for testing
    let parser = parser.with_parser_threshold(10);

    let documents = parser.parse_code(CODE).unwrap();
    assert_eq!(documents.len(), 3);
    assert_eq!(
        documents[0].page_content,
        "fn main() {\n            println!(\"Hello, world!\");\n        }"
    );
    assert_eq!(
        value(&documents[1], "content_type"),
        LanguageContentTypes::SimplifiedCode.name()
    );
}

#[test]
fn test_source_code_loader() {
    let loader = SourceCodeLoader::from_string(CODE.to_string()).with_parser_option(
        LanguageParserOptions { language: Language::Rust, ..Default::default() },
    );

    let documents_with_content = loader.load().unwrap();
    assert_eq!(documents_with_content.len(), 1);
}

#[test]
fn pieces_of_a_source_file() {
    let parser = LanguageParser::from_language(Language::Rust).with_parser_threshold(10);
    let documents = parser.parse_code(CODE).unwrap();
    assert_eq!(value(&documents[0], "content_type"), "functions_impls");
    assert_eq!(value(&documents[0], "language"), "Rust");
    assert_eq!(value(&documents[2], "content_type"), "functions_impls");
    assert!(documents[2].page_content.starts_with("impl Person {"));

    // a file that ends before the threshold stays whole
    let whole = LanguageParser::from_language(Language::Python).parse_code("x = 1\n").unwrap();
    assert_eq!(whole.len(), 1);
    assert_eq!(whole[0].page_content, "x = 1\n");
    assert_eq!(value(&whole[0], "content_type"), "simplified_code");
    assert_eq!(value(&whole[0], "language"), "Python");
}

#[test]
fn pieces_of_an_outline() {
    let node = |kind: &str, text: Option<&str>| {
        Some(OutlineNode { kind: kind.to_string(), text: text.map(str::to_string) })
    };
    let outline = Outline {
        end_row: 20,
        nodes: vec![
            node("function_item", Some("fn a() {}")),
            None,
            node("struct_item", Some("struct B;")),
            node("impl_item", Some("impl B {}")),
        ],
    };
    let parser = LanguageParser::from_language(Language::Rust).with_parser_threshold(20);
    let documents = parser.parse_outline("whole", &outline).unwrap();
    assert_eq!(
        documents
            .iter()
            .map(|d| (d.page_content.as_str(), value(d, "content_type")))
            .collect::<Vec<_>>(),
        vec![
            ("fn a() {}", "functions_impls"),
            ("struct B;", "simplified_code"),
            ("impl B {}", "functions_impls"),
        ]
    );

    // one line more on the threshold, and the file stays whole
    let parser = parser.with_parser_threshold(21);
    let documents = parser.parse_outline("whole", &outline).unwrap();
    assert_eq!(documents.len(), 1);
    assert_eq!(documents[0].page_content, "whole");

    // a piece that is no text fails the whole
    let broken = Outline { end_row: 20, nodes: vec![node("function_item", None)] };
    let parser = parser.with_parser_threshold(0);
    assert!(matches!(parser.extract_functions_classes(&broken), Err(LoaderError::Utf8)));
    assert_eq!(DEFAULT_THRESHOLD, 1000);
}

#[test]
fn languages_by_file_name() {
    let language = |name: &str| get_language_by_filename(name).ok();
    assert_eq!(language("main.rs"), Some(Language::Rust));
    assert_eq!(language("a/b.c"), Some(Language::C));
    assert_eq!(language("x.h"), Some(Language::C));
    assert_eq!(language("x.cpp"), Some(Language::Cpp));
    assert_eq!(language("x.HPP"), Some(Language::Cpp));
    assert_eq!(language("x.js"), Some(Language::Javascript));
    assert_eq!(language("x.ts"), Some(Language::Typescript));
    assert_eq!(language("x.tsx"), Some(Language::Typescript));
    assert_eq!(language("x.test.Go"), Some(Language::Go));
    assert_eq!(language("x.py"), Some(Language::Python));
    assert_eq!(language("py"), Some(Language::Python));
    assert_eq!(language("x.md"), None);
    assert_eq!(language("x.rs."), None);
    assert_eq!(language(""), None);
    assert!(matches!(get_language_by_filename("x.txt"), Err(LoaderError::UnsupportedLanguage)));
    assert_eq!(Language::Typescript.name(), "Typescript");
}

#[test]
fn sources_by_ending() {
    assert_eq!(source_of("md", "notes.md").unwrap(), Source::Markdown);
    assert_eq!(source_of("rs", "main.rs").unwrap(), Source::Code(Language::Rust));
    assert_eq!(source_of("tsx", "App.tsx").unwrap(), Source::Code(Language::Typescript));
    assert_eq!(source_of("txt", "notes.txt").unwrap(), Source::Text);
    assert_eq!(source_of("", "Makefile").unwrap(), Source::Text);
    assert_eq!(source_of("RS", "main.RS").unwrap(), Source::Text);
    assert!(matches!(source_of("rs", "main.txt"), Err(LoaderError::UnsupportedLanguage)));
}

#[test]
fn text_is_cut_into_chunks() {
    let options = SplitterOptions { chunk_size: 10, chunk_overlap: 0, trim_chunks: true };
    let chunks = TokenSplitter::new(options).split_text("one two three four five").unwrap();
    assert!(chunks.len() > 1);
    assert!(chunks.iter().all(|chunk| chunk.chars().count() <= 10));
    assert_eq!(chunks.join(" "), "one two three four five");

    let whole = TokenSplitter::default().split_text("one two three").unwrap();
    assert_eq!(whole, vec!["one two three"]);
    assert_eq!(DEFAULT_CHUNK_SIZE, 512);

    let markdown = MarkdownSplitter::new(options).split_text("# A\n\ntext\n\n# B\n\nmore").unwrap();
    assert!(markdown.len() > 1);
    assert!(markdown[0].starts_with("# A"));
}

#[test]
fn overlap_must_fit_the_chunk() {
    let options = SplitterOptions { chunk_size: 4, chunk_overlap: 4, trim_chunks: false };
    for result in [
        TokenSplitter::new(options).split_text("text"),
        MarkdownSplitter::new(options).split_text("text"),
    ] {
        match result {
            Err(LoaderError::TextSplitter(why)) => assert_eq!(
                why,
                "The overlap is larger than or equal to the desired chunk capacity"
            ),
            other => panic!("{:?}", other),
        }
    }
    let docs = vec![Document::new("text".to_string())];
    assert!(split_documents(&TokenSplitter::new(options), &docs).is_err());
    assert!(split_documents(&TokenSplitter::new(options), &Vec::new()).unwrap().is_empty());
}

#[test]
fn chunks_keep_what_is_known_of_the_whole() {
    let options = SplitterOptions { chunk_size: 5, chunk_overlap: 0, trim_chunks: true };
    let docs = vec![
        Document::new("aaaa bbbb".to_string())
            .with_metadata(vec![Entry { key: "source".to_string(), value: "x".to_string() }]),
        Document::new("cccc".to_string()),
    ];
    let cut = split_documents(&TokenSplitter::new(options), &docs).unwrap();
    assert_eq!(
        cut.iter().map(|d| (d.page_content.as_str(), d.metadata.len())).collect::<Vec<_>>(),
        vec![("aaaa", 1), ("bbbb", 1), ("cccc", 0)]
    );
    assert_eq!(value(&cut[1], "source"), "x");
}

#[test]
fn loaders_make_documents() {
    let docs = TextLoader::new("hello".to_string()).load().unwrap();
    assert_eq!(docs.len(), 1);
    assert_eq!((docs[0].page_content.as_str(), docs[0].metadata.len()), ("hello", 0));

    let loader = HtmlLoader::from_string("<p>Hello world!</p>".to_string(), "https://example.com/".to_string());
    assert_eq!(loader.html, b"<p>Hello world!</p>");
    let loader = HtmlLoader::new(loader.html, loader.url);
    let docs = loader.load_extracted("", "Hello world!");
    assert_eq!(docs.len(), 1);
    assert_eq!(docs[0].page_content, "\nHello world!");
    assert_eq!(value(&docs[0], "source"), "https://example.com/");

    let empty = Document::default();
    assert_eq!((empty.page_content.as_str(), empty.metadata.len()), ("", 0));
}

#[test]
fn files_are_loaded_by_kind() {
    let chunks = |doc: &Doc| doc.chunks.iter().map(|c| (c.index, c.content.clone())).collect::<Vec<_>>();

    let doc = Doc::new("notes.txt", b"plain words").unwrap();
    assert_eq!(doc.name, "notes.txt");
    assert_eq!(chunks(&doc), vec![(0, "plain words".to_string())]);
    assert_eq!((doc.chunks[0].start, doc.chunks[0].end), (None, None));

    let doc = Doc::new("notes.md", b"# Title\n\nbody").unwrap();
    assert_eq!(chunks(&doc), vec![(0, "# Title\n\nbody".to_string())]);

    let doc = Doc::with_options("main.rs", CODE.as_bytes(), DocOptions { code_threshold: 0 }).unwrap();
    assert_eq!(doc.chunks.len(), 3);
    assert_eq!(doc.chunks.iter().map(|c| c.index).collect::<Vec<_>>(), vec![0, 1, 2]);
    assert!(doc.chunks[1].content.starts_with("pub struct Person"));
    // below the usual threshold the file stays whole, and it fits one chunk
    let doc = Doc::new("main.rs", CODE.as_bytes()).unwrap();
    assert_eq!(doc.chunks.len(), 1);
    assert_eq!(doc.chunks[0].content, CODE);

    // text in UTF-16 is read too
    let utf16: Vec<u8> = "héllo".encode_utf16().flat_map(|unit| unit.to_le_bytes()).collect();
    assert_eq!(decode(&utf16).unwrap(), "héllo");
    assert_eq!(decode(b"plain").unwrap(), "plain");
    assert!(decode(&[0x00, 0xd8, 0x00]).is_none());

    // kinds with a format of their own are handed back to be extracted
    assert!(matches!(
        Doc::new("x.bin", b"%PDF-1.4\n..."),
        Err(LoaderError::NeedsExtraction(Format::Pdf))
    ));
    assert!(matches!(
        Doc::with_kind("x", b"", DocOptions::default(), Some("docx".to_string())),
        Err(LoaderError::NeedsExtraction(Format::Docx))
    ));
    assert!(matches!(
        Doc::new("x", b"<!DOCTYPE html><html></html>"),
        Err(LoaderError::NeedsExtraction(Format::Html))
    ));
    match Doc::new("pic", &[0xFF, 0xD8, 0xFF, 0xAA]) {
        Err(LoaderError::Other(why)) => assert_eq!(why, "Failed to infer document type"),
        other => panic!("{:?}", other),
    }
    match Doc::new("x", &[0x00, 0xd8, 0x00]) {
        Err(LoaderError::Other(why)) => assert_eq!(why, "Failed to infer document type"),
        other => panic!("{:?}", other),
    }
    assert!(matches!(
        Doc::with_kind("a.rs.txt", b"x", DocOptions::default(), None).map(|d| d.chunks.len()),
        Ok(1)
    ));

    let waiting = AsyncParseDocResponse { file_path: "notes.txt".to_string(), doc: b"words".to_vec() };
    assert_eq!(chunks(&waiting.compute().unwrap()), vec![(0, "words".to_string())]);
}

#[test]
fn extracted_text_becomes_a_document() {
    let doc = Doc::from_extracted("https://example.com/", Format::Html, "Title", "Body").unwrap();
    assert_eq!(doc.name, "https://example.com/");
    assert_eq!(doc.chunks.len(), 1);
    assert_eq!(doc.chunks[0].content, "Title\nBody");

    let doc = Doc::from_extracted("a.pdf", Format::Pdf, "ignored", "Body").unwrap();
    assert_eq!(doc.chunks[0].content, "Body");

    let chunk = Chunk::default();
    assert_eq!((chunk.index, chunk.content.as_str(), chunk.start, chunk.end), (0, "", None, None));
    assert_eq!(DocOptions::default().code_threshold, 1000);
}
