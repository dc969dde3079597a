//! Summarizers' state: the per-document summaries gathered so far and the
//! tokens spent, held in an explicit accumulator that the caller drives. The
//! caller sends each prompt to a model and hands back what it generated.

use vstd::prelude::*;
use crate::text::{views, append_str};
use crate::document::Document;
use crate::prompt::{format_spec, format_template, join_with, join_strings, GITHUB_PR_SUMMARY_TEMPLATE};

verus! {

pub const DOCUMENT_SUMMARY_TEMPLATE: &'static str = "Summarize the following text within 100 words: {{text}}";

pub const DIFF_SUMMARY_TEMPLATE: &'static str = "\n             Please explain the code diff group by the file name in bullet points.\n             If the file is added, prefix `ADD`, if the file is deleted, prefix `DELETE`, if the file is changed, prefix `CHANGE`.\n             Please use the following format:\n             [ADD/DELETE/CHANGE] file-name\n             - bullet point 1\n             - bullet point 2\n             ... ...\n            --------\n\n```diff\n{text}\n```\n";

fn text_variable() -> (r: Vec<String>)
    ensures
        views(r@) == seq!["text"@],
{
    let mut v: Vec<String> = Vec::new();
    v.push("text".to_owned());
    proof {
        assert(views(v@) =~= seq!["text"@]);
    }
    v
}

fn text_input(text: &str) -> (r: Vec<(String, String)>)
    ensures
        crate::prompt::input_views(r@) == seq![("text"@, text@)],
{
    let mut v: Vec<(String, String)> = Vec::new();
    v.push(("text".to_owned(), text.to_owned()));
    proof {
        assert(crate::prompt::input_views(v@) =~= seq![("text"@, text@)]);
    }
    v
}

/// Fills the `{text}` placeholder of a template that declares it.
fn fill_text(template: &str, text: &str) -> (r: String)
    ensures
        format_spec(template@, seq!["text"@], seq![("text"@, text@)]) == Ok::<Seq<char>, Seq<char>>(r@),
{
    let variables = text_variable();
    let inputs = text_input(text);
    proof {
        let i = seq![("text"@, text@)];
        assert(i.drop_last() =~= Seq::<(Seq<char>, Seq<char>)>::empty());
        assert(format_spec(template@, seq!["text"@], Seq::<(Seq<char>, Seq<char>)>::empty()) == Ok::<Seq<char>, Seq<char>>(template@));
        assert(seq!["text"@].contains("text"@)) by {
            assert(seq!["text"@][0] == "text"@);
        }
    }
    match format_template(template, &variables, &inputs) {
        Ok(p) => p,
        Err(_) => {
            proof {
                assert(false);
            }
            String::new()
        },
    }
}

/// Summaries of documents, combined at the end under a final prompt.
#[derive(Debug)]
pub struct Summary {
    pub summaries: Vec<String>,
}

impl Summary {
    pub fn create() -> (r: Summary)
        ensures
            r.summaries@.len() == 0,
    {
        Summary { summaries: Vec::new() }
    }

    /// The prompt that asks for a summary of one document.
    pub fn document_prompt(&self, document: &Document) -> (r: String)
        ensures
            format_spec(DOCUMENT_SUMMARY_TEMPLATE@, seq!["text"@], seq![("text"@, document.content@)])
                == Ok::<Seq<char>, Seq<char>>(r@),
    {
        fill_text(DOCUMENT_SUMMARY_TEMPLATE, document.content.as_str())
    }

    /// Records what the model generated for one document.
    pub fn add_summary(&mut self, generation: String)
        ensures
            final(self).summaries@ == old(self).summaries@.push(generation),
    {
        self.summaries.push(generation);
    }

    /// The final request: `prompt` followed by the summaries, separated by
    /// `----` lines.
    pub fn final_prompt(&self, prompt: &str) -> (r: String)
        ensures
            r@ == prompt@ + join_with(views(self.summaries@), "----\n"@),
    {
        let contents = join_strings(&self.summaries, "----\n");
        let mut out = prompt.to_owned();
        append_str(&mut out, contents.as_str());
        out
    }
}

/// Summaries of the diffs of a pull request, with the prompt tokens spent.
#[derive(Debug)]
pub struct GithubPRSummary {
    pub summaries: Vec<String>,
    pub tokens: usize,
}

impl GithubPRSummary {
    pub fn create() -> (r: GithubPRSummary)
        ensures
            r.summaries@.len() == 0,
            r.tokens == 0,
    {
        GithubPRSummary { summaries: Vec::new(), tokens: 0 }
    }

    /// The prompt that asks to explain one diff chunk file by file.
    pub fn diff_prompt(&self, document: &Document) -> (r: String)
        ensures
            format_spec(DIFF_SUMMARY_TEMPLATE@, seq!["text"@], seq![("text"@, document.content@)])
                == Ok::<Seq<char>, Seq<char>>(r@),
    {
        fill_text(DIFF_SUMMARY_TEMPLATE, document.content.as_str())
    }

    /// Records a generated explanation and the tokens its prompt took.
    pub fn add_summary(&mut self, generation: String, prompt_tokens: usize)
        requires
            old(self).tokens + prompt_tokens <= usize::MAX,
        ensures
            final(self).summaries@ == old(self).summaries@.push(generation),
            final(self).tokens == old(self).tokens + prompt_tokens,
    {
        self.summaries.push(generation);
        self.tokens = self.tokens + prompt_tokens;
    }

    /// Adds the tokens of the final prompt.
    pub fn add_tokens(&mut self, prompt_tokens: usize)
        requires
            old(self).tokens + prompt_tokens <= usize::MAX,
        ensures
            final(self).summaries == old(self).summaries,
            final(self).tokens == old(self).tokens + prompt_tokens,
    {
        self.tokens = self.tokens + prompt_tokens;
    }

    /// The final request over all explanations joined by newlines; `None` when
    /// there is nothing to summarize, in which case the summary is empty.
    pub fn final_prompt(&self) -> (r: Option<String>)
        ensures
            self.summaries@.len() == 0 <==> r is None,
            r is Some ==> format_spec(
                GITHUB_PR_SUMMARY_TEMPLATE@,
                seq!["text"@],
                seq![("text"@, join_with(views(self.summaries@), "\n"@))],
            ) == Ok::<Seq<char>, Seq<char>>(r->Some_0@),
    {
        if self.summaries.len() == 0 {
            return None;
        }
        let text = join_strings(&self.summaries, "\n");
        Some(fill_text(GITHUB_PR_SUMMARY_TEMPLATE, text.as_str()))
    }

    pub fn tokens(&self) -> (r: usize)
        ensures
            r == self.tokens,
    {
        self.tokens
    }
}

} // verus!
