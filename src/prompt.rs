//! Prompt templates with named `{placeholders}`.
//!
//! Formatting substitutes each given variable in turn and fails on a variable
//! that the template does not declare.

use vstd::prelude::*;
use crate::text::{views, append_str};

verus! {

/// `s` with every non-overlapping occurrence of `pat`, from left to right,
/// replaced by `rep`.
pub open spec fn replace_all(s: Seq<char>, pat: Seq<char>, rep: Seq<char>) -> Seq<char>
    decreases s.len(),
{
    if pat.len() == 0 || s.len() < pat.len() {
        s
    } else if s.subrange(0, pat.len() as int) == pat {
        rep + replace_all(s.subrange(pat.len() as int, s.len() as int), pat, rep)
    } else {
        seq![s[0]] + replace_all(s.subrange(1, s.len() as int), pat, rep)
    }
}

/// Relies on `str::replace`: every non-overlapping match of `pat`, from left to
/// right, is replaced by `rep`.
#[verifier::external_body]
pub(crate) fn replace_str(s: &str, pat: &str, rep: &str) -> (r: String)
    requires
        pat@.len() > 0,
    ensures
        r@ == replace_all(s@, pat@, rep@),
{
    s.replace(pat, rep)
}

/// The placeholder of a variable: its name in braces.
pub open spec fn placeholder(name: Seq<char>) -> Seq<char> {
    seq!['{'] + name + seq!['}']
}

/// The prompt after substituting `inputs` in order; `Err` carries the first
/// name that `variables` does not declare.
pub open spec fn format_spec(
    template: Seq<char>,
    variables: Seq<Seq<char>>,
    inputs: Seq<(Seq<char>, Seq<char>)>,
) -> Result<Seq<char>, Seq<char>>
    decreases inputs.len(),
{
    if inputs.len() == 0 {
        Ok(template)
    } else {
        match format_spec(template, variables, inputs.drop_last()) {
            Err(name) => Err(name),
            Ok(prompt) => {
                let (name, value) = inputs.last();
                if variables.contains(name) {
                    Ok(replace_all(prompt, placeholder(name), value))
                } else {
                    Err(name)
                }
            },
        }
    }
}

pub open spec fn input_views(inputs: Seq<(String, String)>) -> Seq<(Seq<char>, Seq<char>)> {
    inputs.map_values(|p: (String, String)| (p.0@, p.1@))
}

#[derive(Debug, Clone, PartialEq, Eq)]
pub enum PromptError {
    /// The named input variable is not declared by the template.
    UnknownVariable { name: String },
}

impl PromptError {
    pub fn message(&self) -> (r: String)
        ensures
            r@ == "input variable is not in the template's variables"@,
    {
        match self {
            PromptError::UnknownVariable { .. } => "input variable is not in the template's variables".to_owned(),
        }
    }
}

fn contains_name(variables: &Vec<String>, name: &String) -> (r: bool)
    ensures
        r == views(variables@).contains(name@),
{
    let mut i: usize = 0;
    while i < variables.len()
        invariant
            i <= variables@.len(),
            forall|k: int| 0 <= k < i ==> variables@[k]@ != name@,
        decreases variables@.len() - i,
    {
        if variables[i] == *name {
            proof {
                assert(views(variables@)[i as int] == name@);
            }
            return true;
        }
        i = i + 1;
    }
    proof {
        if views(variables@).contains(name@) {
            let k = choose|k: int| 0 <= k < views(variables@).len() && views(variables@)[k] == name@;
            assert(variables@[k]@ == name@);
        }
    }
    false
}

/// Substitutes `inputs` into `template` in order, refusing undeclared names.
pub fn format_template(template: &str, variables: &Vec<String>, inputs: &Vec<(String, String)>) -> (r: Result<String, PromptError>)
    ensures
        match format_spec(template@, views(variables@), input_views(inputs@)) {
            Ok(p) => r is Ok && r->Ok_0@ == p,
            Err(name) => r is Err && r->Err_0->name@ == name,
        },
{
    let mut prompt = template.to_owned();
    let mut i: usize = 0;
    proof {
        assert(input_views(inputs@).subrange(0, 0) =~= Seq::<(Seq<char>, Seq<char>)>::empty());
    }
    while i < inputs.len()
        invariant
            i <= inputs@.len(),
            format_spec(template@, views(variables@), input_views(inputs@).subrange(0, i as int)) == Ok::<Seq<char>, Seq<char>>(prompt@),
        decreases inputs@.len() - i,
    {
        proof {
            let pre = input_views(inputs@).subrange(0, i as int + 1);
            assert(pre.drop_last() =~= input_views(inputs@).subrange(0, i as int));
            assert(pre.last() == (inputs@[i as int].0@, inputs@[i as int].1@));
        }
        let name = &inputs[i].0;
        let value = &inputs[i].1;
        if !contains_name(variables, name) {
            proof {
                lemma_format_err_extends(template@, views(variables@), input_views(inputs@), i as int + 1);
            }
            return Err(PromptError::UnknownVariable { name: name.clone() });
        }
        let mut key = String::new();
        proof {
            reveal_strlit("{");
            reveal_strlit("}");
        }
        append_str(&mut key, "{");
        append_str(&mut key, name.as_str());
        append_str(&mut key, "}");
        proof {
            assert(key@ =~= placeholder(name@));
        }
        prompt = replace_str(prompt.as_str(), key.as_str(), value.as_str());
        i = i + 1;
    }
    proof {
        assert(input_views(inputs@).subrange(0, i as int) =~= input_views(inputs@));
    }
    Ok(prompt)
}

proof fn lemma_format_err_extends(template: Seq<char>, variables: Seq<Seq<char>>, inputs: Seq<(Seq<char>, Seq<char>)>, k: int)
    requires
        0 <= k <= inputs.len(),
        format_spec(template, variables, inputs.subrange(0, k)) is Err,
    ensures
        format_spec(template, variables, inputs) == format_spec(template, variables, inputs.subrange(0, k)),
    decreases inputs.len(),
{
    if k < inputs.len() {
        assert(inputs.drop_last().subrange(0, k) =~= inputs.subrange(0, k));
        lemma_format_err_extends(template, variables, inputs.drop_last(), k);
    } else {
        assert(inputs.subrange(0, k) =~= inputs);
    }
}

/// A template with its declared variable names.
#[derive(Debug)]
pub struct PromptTemplate {
    pub template: String,
    pub variables: Vec<String>,
}

impl PromptTemplate {
    pub fn create(template: &str, variables: Vec<String>) -> (r: PromptTemplate)
        ensures
            r.template@ == template@,
            r.variables == variables,
    {
        PromptTemplate { template: template.to_owned(), variables }
    }

    pub fn template(&self) -> (r: String)
        ensures
            r@ == self.template@,
    {
        self.template.clone()
    }

    pub fn format(&self, inputs: &Vec<(String, String)>) -> (r: Result<String, PromptError>)
        ensures
            match format_spec(self.template@, views(self.variables@), input_views(inputs@)) {
                Ok(p) => r is Ok && r->Ok_0@ == p,
                Err(name) => r is Err && r->Err_0->name@ == name,
            },
    {
        format_template(self.template.as_str(), &self.variables, inputs)
    }
}

pub const TEXT_TO_SQL_TEMPLATE: &'static str = "Given an input question, first create a syntactically correct {dialect} query to run, then look at the results of the query and return the answer. You can order the results by a relevant column to return the most interesting examples in the database.\nNever query for all the columns from a specific table, only ask for a the few relevant columns given the question.\nPay attention to use only the column names that you can see in the schema description. Be careful to not query for columns that do not exist. Pay attention to which column is in which table. Also, qualify column names with the table name when needed.\nUse the following format:\nQuestion: Question here\nSQLQuery: SQL Query to run\nSQLResult: Result of the SQLQuery\nAnswer: Final answer here\nOnly use the tables listed below.\n{schema}\nQuestion: {query_str}\nSQLQuery: ";

pub const GITHUB_PR_SUMMARY_TEMPLATE: &'static str = "Please provide a clear and concise summary of the main changes made in a pull request. Focus on the motivation behind the changes and avoid describing specific file modifications. Follow these guidelines while summarizing:\n1. Ignore changes that you think are not important.\n2. Remove the similar points.\n3. Summarize and classify all changelogs into 1 to 4 points.\n4. Summarize a title for each point, describing what the point mainly did, as a new title for the pull request changelog, no more than 30 words.\n5. Make an easy-to-understand summary for each point no more than 80 words, please do not describe what was modified.\nFormat the output as follows(The provided examples are for illustration purposes only and should not be repeated):\n* **Title 1** Description 1\n* **Title 2** Description 2\n--------\n{text}";

pub const DOCUMENT_RETRIEVAL_TEMPLATE: &'static str = "Given the following contexts of a long document and a question, create a final answer with references (\\\"SOURCES\\\").\n            If you don't know the answer, just say that you don't know. Don't try to make up an answer.\n            please follow these instructions\n            {instructions}\n            =========\n            {contexts}\n            =========\n            QUESTION: {question}\n            FINAL ANSWER:";

fn names(list: &[&str]) -> (r: Vec<String>)
    ensures
        r@.len() == list@.len(),
        forall|i: int| 0 <= i < list@.len() ==> #[trigger] r@[i]@ == list@[i]@,
{
    let mut out: Vec<String> = Vec::new();
    let mut i: usize = 0;
    while i < list.len()
        invariant
            i <= list@.len(),
            out@.len() == i,
            forall|k: int| 0 <= k < i ==> #[trigger] out@[k]@ == list@[k]@,
        decreases list@.len() - i,
    {
        out.push(list[i].to_owned());
        i = i + 1;
    }
    out
}

/// Items joined with `sep` between each two.
pub open spec fn join_with(items: Seq<Seq<char>>, sep: Seq<char>) -> Seq<char>
    decreases items.len(),
{
    if items.len() == 0 {
        seq![]
    } else if items.len() == 1 {
        items[0]
    } else {
        join_with(items.drop_last(), sep) + sep + items.last()
    }
}

pub(crate) fn join_strings(items: &Vec<String>, sep: &str) -> (r: String)
    ensures
        r@ == join_with(views(items@), sep@),
{
    let mut out = String::new();
    let mut i: usize = 0;
    proof {
        assert(views(items@).subrange(0, 0) =~= Seq::<Seq<char>>::empty());
    }
    while i < items.len()
        invariant
            i <= items@.len(),
            out@ == join_with(views(items@).subrange(0, i as int), sep@),
        decreases items@.len() - i,
    {
        proof {
            let pre = views(items@).subrange(0, i as int + 1);
            assert(pre.drop_last() =~= views(items@).subrange(0, i as int));
            assert(pre.last() == items@[i as int]@);
            assert(pre[0] == items@[0]@);
        }
        if i > 0 {
            append_str(&mut out, sep);
        }
        append_str(&mut out, items[i].as_str());
        proof {
            if i == 0 {
                assert(out@ =~= items@[0]@);
            }
        }
        i = i + 1;
    }
    proof {
        assert(views(items@).subrange(0, i as int) =~= views(items@));
    }
    out
}

/// Asks for a SQL query that answers a question over a schema.
#[derive(Debug)]
pub struct TextToSQLPrompt {}

impl TextToSQLPrompt {
    pub fn create() -> (r: TextToSQLPrompt) {
        TextToSQLPrompt {}
    }

    pub fn template(&self) -> (r: String)
        ensures
            r@ == TEXT_TO_SQL_TEMPLATE@,
    {
        TEXT_TO_SQL_TEMPLATE.to_owned()
    }

    pub fn variables(&self) -> (r: Vec<String>)
        ensures
            views(r@) == seq!["dialect"@, "schema"@, "query_str"@],
    {
        let r = names(&["dialect", "schema", "query_str"]);
        proof {
            assert(views(r@) =~= seq!["dialect"@, "schema"@, "query_str"@]);
        }
        r
    }

    pub fn format(&self, inputs: &Vec<(String, String)>) -> (r: Result<String, PromptError>)
        ensures
            match format_spec(TEXT_TO_SQL_TEMPLATE@, seq!["dialect"@, "schema"@, "query_str"@], input_views(inputs@)) {
                Ok(p) => r is Ok && r->Ok_0@ == p,
                Err(name) => r is Err && r->Err_0->name@ == name,
            },
    {
        let template = self.template();
        let variables = self.variables();
        format_template(template.as_str(), &variables, inputs)
    }
}

/// Asks for a short summary of the changes of a pull request.
#[derive(Debug)]
pub struct GithubPRSummaryPrompt {}

impl GithubPRSummaryPrompt {
    pub fn create() -> (r: GithubPRSummaryPrompt) {
        GithubPRSummaryPrompt {}
    }

    pub fn template(&self) -> (r: String)
        ensures
            r@ == GITHUB_PR_SUMMARY_TEMPLATE@,
    {
        GITHUB_PR_SUMMARY_TEMPLATE.to_owned()
    }

    pub fn variables(&self) -> (r: Vec<String>)
        ensures
            views(r@) == seq!["text"@],
    {
        let r = names(&["text"]);
        proof {
            assert(views(r@) =~= seq!["text"@]);
        }
        r
    }

    pub fn format(&self, inputs: &Vec<(String, String)>) -> (r: Result<String, PromptError>)
        ensures
            match format_spec(GITHUB_PR_SUMMARY_TEMPLATE@, seq!["text"@], input_views(inputs@)) {
                Ok(p) => r is Ok && r->Ok_0@ == p,
                Err(name) => r is Err && r->Err_0->name@ == name,
            },
    {
        let template = self.template();
        let variables = self.variables();
        format_template(template.as_str(), &variables, inputs)
    }
}

/// Asks for an answer to a question from retrieved contexts, under extra
/// instructions.
#[derive(Debug)]
pub struct DocumentRetrievalPrompt {
    pub instructions: Vec<String>,
}

impl DocumentRetrievalPrompt {
    pub fn create() -> (r: DocumentRetrievalPrompt)
        ensures
            r.instructions@.len() == 0,
    {
        DocumentRetrievalPrompt { instructions: Vec::new() }
    }

    /// Appends instructions after those already held.
    pub fn with_instructions(self, instructions: Vec<String>) -> (r: DocumentRetrievalPrompt)
        ensures
            r.instructions@ == self.instructions@ + instructions@,
    {
        let mut all = self.instructions;
        let mut extra = instructions;
        all.append(&mut extra);
        DocumentRetrievalPrompt { instructions: all }
    }

    pub fn template(&self) -> (r: String)
        ensures
            r@ == DOCUMENT_RETRIEVAL_TEMPLATE@,
    {
        DOCUMENT_RETRIEVAL_TEMPLATE.to_owned()
    }

    pub fn variables(&self) -> (r: Vec<String>)
        ensures
            views(r@) == seq!["contexts"@, "question"@],
    {
        let r = names(&["contexts", "question"]);
        proof {
            assert(views(r@) =~= seq!["contexts"@, "question"@]);
        }
        r
    }

    /// Puts the instructions, one per line, into the template, then the inputs.
    pub fn format(&self, inputs: &Vec<(String, String)>) -> (r: Result<String, PromptError>)
        ensures
            match format_spec(
                replace_all(DOCUMENT_RETRIEVAL_TEMPLATE@, "{instructions}"@, join_with(views(self.instructions@), " \n"@)),
                seq!["contexts"@, "question"@],
                input_views(inputs@),
            ) {
                Ok(p) => r is Ok && r->Ok_0@ == p,
                Err(name) => r is Err && r->Err_0->name@ == name,
            },
    {
        let joined = join_strings(&self.instructions, " \n");
        let template = self.template();
        proof {
            reveal_strlit("{instructions}");
        }
        let filled = replace_str(template.as_str(), "{instructions}", joined.as_str());
        let variables = self.variables();
        format_template(filled.as_str(), &variables, inputs)
    }
}

} // verus!
