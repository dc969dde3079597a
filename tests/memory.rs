use llmchain::document::Document;
use llmchain::loaders::route_path;
use llmchain::memory::{GithubPRSummary, Summary};
use llmchain::store::{ai_completion_sql, ai_embedding_sql};

#[test]
fn summary_accumulates() {
    let mut s = Summary::create();
    let d = Document::create("a.md", "some text");
    assert_eq!(s.document_prompt(&d), "Summarize the following text within 100 words: {some text}");
    s.add_summary("one".to_string());
    s.add_summary("two".to_string());
    assert_eq!(s.final_prompt("Combine:\n"), "Combine:\none----\ntwo");
}

#[test]
fn pr_summary_counts_tokens() {
    let mut s = GithubPRSummary::create();
    assert_eq!(s.final_prompt(), None);
    let d = Document::create("pr", "+a\n-b");
    let p = s.diff_prompt(&d);
    assert!(p.contains("```diff\n+a\n-b\n```"));
    s.add_summary("CHANGE x".to_string(), 10);
    s.add_summary("ADD y".to_string(), 5);
    s.add_tokens(7);
    assert_eq!(s.tokens(), 22);
    let f = s.final_prompt().unwrap();
    assert!(f.ends_with("--------\nCHANGE x\nADD y"));
}

#[test]
fn routes_first_matching_pattern() {
    let patterns = vec!["**/*.rs".to_string(), "**/*.md".to_string(), "**/*".to_string()];
    assert_eq!(route_path(&patterns, "/repo/src/lib.rs").unwrap(), Some(0));
    assert_eq!(route_path(&patterns, "/repo/README.md").unwrap(), Some(1));
    assert_eq!(route_path(&patterns, "/repo/x.txt").unwrap(), Some(2));
    assert_eq!(route_path(&patterns[..2].to_vec(), "/repo/x.txt").unwrap(), None);
    assert!(route_path(&vec!["[".to_string()], "/x").is_err());
}

#[test]
fn warehouse_queries_escape_input() {
    assert_eq!(ai_embedding_sql("it's"), "SELECT ai_embedding_vector('it\\'s')");
    assert_eq!(ai_completion_sql("say Hello"), "SELECT ai_text_completion('say Hello')");
}
