use llmchain::diff::{FilePatch, GithubPRDiffSplitter, ParsedDiff};
use llmchain::error::SplitError;

fn patch(old: &str, new: &str, text: &str) -> FilePatch {
    FilePatch { old_path: old.to_string(), new_path: new.to_string(), text: text.to_string() }
}

fn sample() -> Vec<ParsedDiff> {
    vec![
        ParsedDiff {
            path: "pr/1".to_string(),
            patches: vec![
                patch("a/src/lib.rs", "b/src/lib.rs", "AAAA"),
                patch("a/Cargo.lock", "b/Cargo.lock", "LOCK"),
                patch("a/old.rs", "/dev/null", "GONE"),
                patch("a/src/x.rs", "b/src/x.rs", "BBBBBB"),
            ],
        },
        ParsedDiff { path: "pr/2".to_string(), patches: vec![patch("a/y.rs", "b/y.rs", "CC")] },
    ]
}

#[test]
fn defaults() {
    let s = GithubPRDiffSplitter::create();
    assert_eq!(s.splitter_chunk_size, 2000);
    assert!(s.skips.is_empty());
    assert!(s.separators().is_empty());
}

#[test]
fn everything_fits_in_one_chunk() {
    let out = GithubPRDiffSplitter::create().split_documents(&sample()).unwrap().documents();
    assert_eq!(out.len(), 1);
    assert_eq!(out[0].content, "\nAAAA\nLOCK\nBBBBBB\nCC");
    assert_eq!(out[0].path, "pr/2");
}

#[test]
fn skip_globs_drop_patches() {
    let s = GithubPRDiffSplitter::create().with_skips(vec!["**/*.lock".to_string()]);
    let out = s.split_documents(&sample()).unwrap().documents();
    assert_eq!(out.len(), 1);
    assert_eq!(out[0].content, "\nAAAA\nBBBBBB\nCC");
    assert!(!out[0].content.contains("LOCK"));
}

#[test]
fn skip_matches_old_path_too() {
    let diffs = vec![ParsedDiff {
        path: "pr".to_string(),
        patches: vec![patch("a/gen.txt", "b/renamed.rs", "R"), patch("a/k.rs", "b/k.rs", "K")],
    }];
    let s = GithubPRDiffSplitter::create().with_skips(vec!["**/*.txt".to_string()]);
    let out = s.split_documents(&diffs).unwrap().documents();
    assert_eq!(out.len(), 1);
    assert_eq!(out[0].content, "\nK");
}

#[test]
fn patches_are_batched_whole_under_the_budget() {
    let s = GithubPRDiffSplitter::create().with_chunk_size(10);
    let out = s.split_documents(&sample()).unwrap().documents();
    let contents: Vec<&str> = out.iter().map(|d| d.content.as_str()).collect();
    assert_eq!(contents, vec!["\nAAAA\nLOCK", "BBBBBB\nCC"]);
    assert_eq!(out[0].path, "pr/1");
    assert_eq!(out[1].path, "pr/2");
}

#[test]
fn oversized_patch_is_not_cut() {
    let s = GithubPRDiffSplitter::create().with_chunk_size(3);
    let out = s.split_documents(&sample()).unwrap().documents();
    let contents: Vec<&str> = out.iter().map(|d| d.content.as_str()).collect();
    assert_eq!(contents, vec!["AAAA", "LOCK", "BBBBBB", "CC"]);
    for c in contents {
        assert!(c.is_empty() || ["AAAA", "LOCK", "BBBBBB", "CC"].contains(&c));
    }
}

#[test]
fn flush_on_overflow_uses_current_document_path() {
    let diffs = vec![
        ParsedDiff { path: "first".to_string(), patches: vec![patch("a", "b", "12345")] },
        ParsedDiff { path: "second".to_string(), patches: vec![patch("c", "d", "67890")] },
        ParsedDiff { path: "third".to_string(), patches: vec![] },
    ];
    let out = GithubPRDiffSplitter::create().with_chunk_size(6).split_documents(&diffs).unwrap().documents();
    assert_eq!(out.len(), 2);
    assert_eq!((out[0].path.as_str(), out[0].content.as_str()), ("second", "\n12345"));
    assert_eq!((out[1].path.as_str(), out[1].content.as_str()), ("third", "67890"));
}

#[test]
fn invalid_glob_is_an_error() {
    let s = GithubPRDiffSplitter::create().with_skips(vec!["a[".to_string()]);
    let err = s.split_documents(&sample()).unwrap_err();
    assert_eq!(err, SplitError::InvalidGlob { pattern: "a[".to_string() });
    // The rule is refused even with no patch to test it on.
    assert_eq!(
        s.split_documents(&vec![]).unwrap_err(),
        SplitError::InvalidGlob { pattern: "a[".to_string() }
    );
}

#[test]
fn invalid_glob_after_a_matching_rule_is_still_an_error() {
    let s = GithubPRDiffSplitter::create().with_skips(vec![
        "**/*.rs".to_string(),
        "ok/**".to_string(),
        "b[".to_string(),
        "c[".to_string(),
    ]);
    assert_eq!(
        s.split_documents(&sample()).unwrap_err(),
        SplitError::InvalidGlob { pattern: "b[".to_string() }
    );
}

#[test]
fn chunks_hash_their_content() {
    let out = GithubPRDiffSplitter::create().split_documents(&sample()).unwrap().documents();
    let again = llmchain::document::Document::create("x", &out[0].content);
    assert_eq!(out[0].content_md5, again.content_md5);
}
