use llmchain::document::{Document, Documents};
use llmchain::markdown::{MarkdownSplitter, PdfSplitter};
use llmchain::splitter::{merge_parts, split_into_parts, TextSplitter};

fn custom_splitter(chunk_size: usize) -> TextSplitter {
    TextSplitter::create()
        .with_chunk_size(chunk_size)
        .with_separators(vec![String::from("\n"), String::from("--")])
}

#[test]
fn test_split() {
    let txt = "Hello\nworld\nThis--is\na test bala bala bala--of text splitting.";

    // splitter_chunk_size=7
    {
        let splitter = custom_splitter(7);

        let result = splitter.split_text(txt).unwrap();
        let expected = vec![
            "Hello world",
            "This is a test bala bala bala",
            " of text splitting.",
        ];

        assert_eq!(result, expected);
    }

    // splitter_chunk_size=10
    {
        let splitter = custom_splitter(11);

        let result = splitter.split_text(txt).unwrap();
        let expected = vec![
            "Hello world This",
            "is a test bala bala bala",
            " of text splitting.",
        ];

        assert_eq!(result, expected);
    }
}

#[test]
fn parts_drop_separators() {
    let seps = vec!["\n".to_string(), "--".to_string()];
    let parts = split_into_parts(&seps, "a\nb--c").unwrap();
    assert_eq!(parts, vec!["a", "b", "c"]);
}

#[test]
fn separators_are_literal_not_patterns() {
    let seps = vec![".".to_string(), "*".to_string()];
    let parts = split_into_parts(&seps, "a.b*c+d").unwrap();
    assert_eq!(parts, vec!["a", "b", "c+d"]);
}

#[test]
fn every_meta_character_is_matched_literally() {
    let metas = "\\.+*?()|[]{}^$#&-~";
    for m in metas.chars() {
        let sep = m.to_string();
        let text = format!("a{}b", m);
        assert_eq!(split_into_parts(&vec![sep], &text).unwrap(), vec!["a", "b"]);
    }
}

#[test]
fn no_separators_keep_the_text_whole() {
    let parts = split_into_parts(&vec![], "one\ntwo").unwrap();
    assert_eq!(parts, vec!["one\ntwo"]);
    let chunks = TextSplitter::create()
        .with_separators(vec![])
        .with_chunk_size(100)
        .split_text("one\ntwo")
        .unwrap();
    assert_eq!(chunks, vec!["one\ntwo"]);
}

#[test]
fn oversized_part_is_kept_whole_with_leading_space() {
    let chunks = merge_parts(&vec!["abcdefghij".to_string()], 4);
    assert_eq!(chunks, vec![" abcdefghij"]);
}

#[test]
fn no_empty_chunks_even_with_empty_parts() {
    let parts = vec!["".to_string(), "".to_string(), "x".to_string(), "".to_string()];
    for budget in 0..6 {
        let chunks = merge_parts(&parts, budget);
        assert!(chunks.iter().all(|c| !c.is_empty()));
    }
    let chunks = custom_splitter(1).split_text("\n\n--\n").unwrap();
    assert!(chunks.iter().all(|c| !c.is_empty()));
    assert_eq!(custom_splitter(5).split_text("").unwrap(), Vec::<String>::new());
}

#[test]
fn budget_counts_bytes() {
    // "é" is two bytes: "éé" + "x" reaches a budget of five.
    let chunks = merge_parts(&vec!["éé".to_string(), "x".to_string(), "y".to_string()], 5);
    assert_eq!(chunks, vec!["éé x", "y"]);
    let chunks = merge_parts(&vec!["ee".to_string(), "x".to_string(), "y".to_string()], 5);
    assert_eq!(chunks, vec!["ee x y"]);
}

#[test]
fn split_documents_tags_each_chunk_with_its_source() {
    let docs = Documents::from_vec(vec![
        Document::create("a.txt", "Hello\nworld"),
        Document::create("b.txt", "x"),
    ]);
    let out = custom_splitter(7).split_documents(&docs).unwrap();
    let out = out.documents();
    assert_eq!(out.len(), 2);
    assert_eq!(out[0], Document::create("a.txt", "Hello world"));
    assert_eq!(out[1], Document::create("b.txt", "x"));
}

#[test]
fn markdown_defaults() {
    let s = MarkdownSplitter::create();
    assert_eq!(s.splitter_chunk_size, 400);
    assert_eq!(
        s.separators(),
        vec!["\n## ", "\n### ", "\n#### ", "\n##### ", "\n###### "]
    );
    let s = s.with_chunk_size(100).with_separators(vec!["\n- ## ".to_string()]);
    assert_eq!(s.splitter_chunk_size, 100);
    assert_eq!(s.separators(), vec!["\n- ## "]);
}

#[test]
fn markdown_sections_do_not_cross_headings() {
    let mut text = String::from("# Title\nintro");
    let mut bodies = Vec::new();
    for i in 0..6 {
        let body = format!("Section {}\n{}", i, "word ".repeat(100));
        text.push_str("\n## ");
        text.push_str(&body);
        bodies.push(body);
    }
    let docs = Documents::from_vec(vec![Document::create("copy.md", &text)]);
    let out = MarkdownSplitter::create().split_documents(&docs).unwrap().documents();
    assert_eq!(out.len(), 6);
    assert_eq!(out[0].content, format!("# Title\nintro {}", bodies[0]));
    for i in 1..6 {
        assert_eq!(out[i].content, format!(" {}", bodies[i]));
        assert!(out[i].content.starts_with(&format!(" Section {}", i)));
        assert_eq!(out[i].path, "copy.md");
    }
    for chunk in &out {
        assert_eq!(chunk.content.matches("Section ").count(), 1);
    }
}

#[test]
fn pdf_splitter_budgets_whole_text() {
    let s = PdfSplitter::create();
    assert_eq!(s.splitter_chunk_size, 400);
    assert!(s.separators().is_empty());
    let docs = Documents::from_vec(vec![Document::create("a.pdf", "abc def")]);
    let out = s.with_chunk_size(3).split_documents(&docs).unwrap().documents();
    assert_eq!(out.len(), 1);
    assert_eq!(out[0].content, " abc def");
}
