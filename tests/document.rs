use llmchain::document::{Document, Documents};
use llmchain::document_path::{DocumentPath, PathKindError};

#[test]
fn content_hash_is_md5_hex() {
    let d = Document::create("2.md", "llmchain.rs");
    assert_eq!(d.path, "2.md");
    assert_eq!(d.content, "llmchain.rs");
    assert_eq!(d.content_md5, "033d6bd60a5237d54fa8331dd2ca1325");
    let e = Document::create("", "");
    assert_eq!(e.content_md5, "d41d8cd98f00b204e9800998ecf8427e");
    for d in [d, e, Document::create("x", "ünïcödé")] {
        assert_eq!(d.content_md5.len(), 32);
        assert!(d.content_md5.chars().all(|c| c.is_ascii_digit() || ('a'..='f').contains(&c)));
    }
}

#[test]
fn same_content_same_hash() {
    let a = Document::create("a", "same text");
    let b = Document::create("b", "same text");
    let c = Document::create("a", "other text");
    assert_eq!(a.content_md5, b.content_md5);
    assert_ne!(a.content_md5, c.content_md5);
}

#[test]
fn size_is_bytes() {
    assert_eq!(Document::create("p", "héllo").size(), 6);
}

#[test]
fn documents_collection() {
    let mut docs = Documents::create();
    assert!(docs.is_empty());
    assert_eq!(docs.first(), None);
    docs.push(Document::create("1.md", "hello"));
    let other = Documents::from_vec(vec![Document::create("2.md", "llmchain.rs")]);
    docs.extend(&other);
    assert_eq!(docs.len(), 2);
    assert!(!docs.is_empty());
    assert_eq!(docs.size(), 16);
    assert_eq!(docs.first(), Some(Document::create("1.md", "hello")));

    let mut it = docs.iter();
    docs.push(Document::create("3.md", "late"));
    assert_eq!(it.next().unwrap().path, "1.md");
    assert_eq!(it.next().unwrap().path, "2.md");
    assert_eq!(it.next(), None);
    assert_eq!(docs.documents().len(), 3);
}

#[test]
fn document_path_kinds() {
    let s = DocumentPath::from_string("/tmp/x");
    assert_eq!(s.as_str().unwrap(), "/tmp/x");
    assert_eq!(s.as_range(), Err(PathKindError::NotARange));
    assert_eq!(s.as_list(), Err(PathKindError::NotAList));

    let r = DocumentPath::from_range(11450, 11460);
    assert_eq!(r.as_range().unwrap(), (11450, 11460));
    assert_eq!(r.as_str(), Err(PathKindError::NotAString));

    let l = DocumentPath::from_list(vec![1, 2, 3]);
    assert_eq!(l.as_list().unwrap(), vec![1, 2, 3]);
    assert_eq!(l.as_str().unwrap_err().message(), "DocumentPath is not a string");
}
