use llmchain::prompt::{
    DocumentRetrievalPrompt, GithubPRSummaryPrompt, PromptError, PromptTemplate, TextToSQLPrompt,
};

fn vars(pairs: &[(&str, &str)]) -> Vec<(String, String)> {
    pairs.iter().map(|(k, v)| (k.to_string(), v.to_string())).collect()
}

#[test]
fn test_prompt_template() {
    let prompt_template = PromptTemplate::create("hello {{name}}", vec!["name".to_string()]);

    // invalid input variable.
    {
        let result = prompt_template.format(&vars(&[("1", "v")]));
        assert_eq!(result, Err(PromptError::UnknownVariable { name: "1".to_string() }));
    }

    // ok.
    {
        let result = prompt_template.format(&vars(&[("name", "llmchain.rs")])).unwrap();
        assert_eq!(result, "hello {llmchain.rs}");
    }
}

#[test]
fn substitutes_every_occurrence_in_order() {
    let t = PromptTemplate::create("{a}-{b}-{a}", vec!["a".to_string(), "b".to_string()]);
    assert_eq!(t.format(&vars(&[("a", "x"), ("b", "y")])).unwrap(), "x-y-x");
    // A value that holds a later placeholder is substituted again.
    assert_eq!(t.format(&vars(&[("a", "{b}"), ("b", "y")])).unwrap(), "y-y-y");
    assert_eq!(t.format(&vec![]).unwrap(), "{a}-{b}-{a}");
    assert_eq!(t.template(), "{a}-{b}-{a}");
}

#[test]
fn test_prompt_text_to_sql() {
    let text_to_sql_template = TextToSQLPrompt::create();

    // invalid input variable.
    {
        let result = text_to_sql_template.format(&vars(&[("1", "v")]));
        assert!(result.is_err());
    }

    // ok.
    {
        let result = text_to_sql_template
            .format(&vars(&[
                ("dialect", "mysql"),
                ("schema", "name string"),
                ("query_str", "how many names"),
            ]))
            .unwrap();
        assert!(result.starts_with("Given an input question, first create a syntactically correct mysql query"));
        assert!(result.ends_with("name string\nQuestion: how many names\nSQLQuery: "));
        assert!(!result.contains('{'));
    }
    assert_eq!(text_to_sql_template.variables(), vec!["dialect", "schema", "query_str"]);
}

#[test]
fn github_pr_summary_prompt() {
    let p = GithubPRSummaryPrompt::create();
    assert_eq!(p.variables(), vec!["text"]);
    let out = p.format(&vars(&[("text", "+fn main() {}")])).unwrap();
    assert!(out.ends_with("--------\n+fn main() {}"));
    assert_eq!(p.format(&vars(&[("texts", "x")])).unwrap_err().message(), "input variable is not in the template's variables");
}

#[test]
fn test_prompt_document_retrieval() {
    let prompt = DocumentRetrievalPrompt::create().with_instructions(vec![
        "Do not include any links or external references in your response.\n".to_string(),
        "Do not change the code snippets.\n".to_string(),
    ]);
    let result = prompt
        .format(&vars(&[("contexts", "ctx"), ("question", "what is databend")]))
        .unwrap();
    assert!(result.contains(
        "Do not include any links or external references in your response.\n \nDo not change the code snippets.\n"
    ));
    assert!(result.contains("=========\n            ctx\n            ========="));
    assert!(result.ends_with("QUESTION: what is databend\n            FINAL ANSWER:"));
    assert!(prompt.format(&vars(&[("instructions", "x")])).is_err());
    assert_eq!(prompt.variables(), vec!["contexts", "question"]);
}
