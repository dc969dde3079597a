//! Splitters configured for markdown and for text extracted from PDF files.

use vstd::prelude::*;
use crate::text::views;
use crate::document::Documents;
use crate::error::SplitError;
use crate::splitter::{split_all, split_text_spec, split_text_with, split_documents_with, doc_pairs, all_wf, all_non_empty};

verus! {

/// The heading markers of levels two to six, each after a line break.
pub open spec fn heading_separators() -> Seq<Seq<char>> {
    seq![
        seq!['\n', '#', '#', ' '],
        seq!['\n', '#', '#', '#', ' '],
        seq!['\n', '#', '#', '#', '#', ' '],
        seq!['\n', '#', '#', '#', '#', '#', ' '],
        seq!['\n', '#', '#', '#', '#', '#', '#', ' '],
    ]
}

fn heading_separator_strings() -> (r: Vec<String>)
    ensures
        views(r@) == heading_separators(),
{
    let mut v: Vec<String> = Vec::new();
    v.push("\n## ".to_owned());
    v.push("\n### ".to_owned());
    v.push("\n#### ".to_owned());
    v.push("\n##### ".to_owned());
    v.push("\n###### ".to_owned());
    proof {
        reveal_strlit("\n## ");
        reveal_strlit("\n### ");
        reveal_strlit("\n#### ");
        reveal_strlit("\n##### ");
        reveal_strlit("\n###### ");
        let h = heading_separators();
        assert(v@[0]@ =~= h[0]);
        assert(v@[1]@ =~= h[1]);
        assert(v@[2]@ =~= h[2]);
        assert(v@[3]@ =~= h[3]);
        assert(v@[4]@ =~= h[4]);
        assert(views(v@) =~= heading_separators());
    }
    v
}

fn copy_strings(v: &Vec<String>) -> (r: Vec<String>)
    ensures
        views(r@) == views(v@),
{
    let mut out: Vec<String> = Vec::new();
    let mut i: usize = 0;
    while i < v.len()
        invariant
            i <= v@.len(),
            views(out@) == views(v@).subrange(0, i as int),
        decreases v@.len() - i,
    {
        let ghost prev = out@;
        let s = v[i].clone();
        out.push(s);
        i = i + 1;
        proof {
            assert(out@ == prev.push(s));
            assert(views(out@) =~= views(prev).push(s@));
            assert(views(out@) =~= views(v@).subrange(0, i as int));
        }
    }
    proof {
        assert(views(v@).subrange(0, i as int) =~= views(v@));
    }
    out
}

/// Splits markdown at headings below the top level.
#[derive(Debug)]
pub struct MarkdownSplitter {
    pub splitter_chunk_size: usize,
    pub separators: Vec<String>,
}

impl MarkdownSplitter {
    pub fn create() -> (r: MarkdownSplitter)
        ensures
            r.splitter_chunk_size == 400,
            views(r.separators@) == heading_separators(),
    {
        MarkdownSplitter { splitter_chunk_size: 400, separators: heading_separator_strings() }
    }

    pub fn with_chunk_size(self, chunk_size: usize) -> (r: MarkdownSplitter)
        ensures
            r.splitter_chunk_size == chunk_size,
            r.separators == self.separators,
    {
        MarkdownSplitter { splitter_chunk_size: chunk_size, separators: self.separators }
    }

    pub fn with_separators(self, separators: Vec<String>) -> (r: MarkdownSplitter)
        ensures
            r.splitter_chunk_size == self.splitter_chunk_size,
            r.separators == separators,
    {
        MarkdownSplitter { splitter_chunk_size: self.splitter_chunk_size, separators }
    }

    pub fn separators(&self) -> (r: Vec<String>)
        ensures
            views(r@) == views(self.separators@),
    {
        copy_strings(&self.separators)
    }

    pub fn split_text(&self, text: &str) -> (r: Result<Vec<String>, SplitError>)
        ensures
            r is Ok <==> split_text_spec(views(self.separators@), self.splitter_chunk_size as nat, text@) is Some,
            r is Ok ==> split_text_spec(views(self.separators@), self.splitter_chunk_size as nat, text@) == Some(views(r->Ok_0@)),
            r is Ok ==> all_non_empty(views(r->Ok_0@)),
    {
        split_text_with(&self.separators, self.splitter_chunk_size, text)
    }

    pub fn split_documents(&self, documents: &Documents) -> (r: Result<Documents, SplitError>)
        ensures
            r is Ok <==> split_all(documents@, views(self.separators@), self.splitter_chunk_size as nat) is Some,
            r is Ok ==> split_all(documents@, views(self.separators@), self.splitter_chunk_size as nat) == Some(doc_pairs(r->Ok_0@)),
            r is Ok ==> all_wf(r->Ok_0@),
    {
        split_documents_with(&self.separators, self.splitter_chunk_size, documents)
    }
}

/// Splits text extracted from PDF files by size alone: each document's text is
/// one part.
#[derive(Debug)]
pub struct PdfSplitter {
    pub splitter_chunk_size: usize,
}

impl PdfSplitter {
    pub fn create() -> (r: PdfSplitter)
        ensures
            r.splitter_chunk_size == 400,
    {
        PdfSplitter { splitter_chunk_size: 400 }
    }

    pub fn with_chunk_size(self, chunk_size: usize) -> (r: PdfSplitter)
        ensures
            r.splitter_chunk_size == chunk_size,
    {
        PdfSplitter { splitter_chunk_size: chunk_size }
    }

    pub fn separators(&self) -> (r: Vec<String>)
        ensures
            r@.len() == 0,
    {
        Vec::new()
    }

    pub fn split_documents(&self, documents: &Documents) -> (r: Result<Documents, SplitError>)
        ensures
            r is Ok,
            split_all(documents@, Seq::<Seq<char>>::empty(), self.splitter_chunk_size as nat) == Some(doc_pairs(r->Ok_0@)),
            all_wf(r->Ok_0@),
    {
        let seps = self.separators();
        proof {
            assert(views(seps@) =~= Seq::<Seq<char>>::empty());
            lemma_no_separators_never_fail(documents@, self.splitter_chunk_size as nat);
        }
        split_documents_with(&seps, self.splitter_chunk_size, documents)
    }
}

/// Without separators, splitting cannot fail.
proof fn lemma_no_separators_never_fail(docs: Seq<crate::document::Document>, budget: nat)
    ensures
        split_all(docs, Seq::<Seq<char>>::empty(), budget) is Some,
    decreases docs.len(),
{
    if docs.len() > 0 {
        lemma_no_separators_never_fail(docs.drop_last(), budget);
    }
}

} // verus!
