//! The separator-based greedy text splitter.
//!
//! A text is cut at every match of any separator (separators are matched
//! literally and dropped), and the parts are then merged greedily, joined by a
//! single space, into chunks bounded by a byte budget.

use vstd::prelude::*;
use crate::text::{byte_len, views, str_byte_len, append_str, append_char};
use crate::document::{Document, Documents};
use crate::error::SplitError;
use crate::prompt::join_with;

verus! {

/// The characters that `regex::escape` puts a backslash before.
pub open spec fn is_regex_meta(c: char) -> bool {
    c == '\\' || c == '.' || c == '+' || c == '*' || c == '?' || c == '(' || c == ')' || c == '|'
        || c == '[' || c == ']' || c == '{' || c == '}' || c == '^' || c == '$' || c == '#'
        || c == '&' || c == '-' || c == '~'
}

/// The text with a backslash before every regex meta character.
pub open spec fn regex_escape(s: Seq<char>) -> Seq<char>
    decreases s.len(),
{
    if s.len() == 0 {
        seq![]
    } else if is_regex_meta(s.last()) {
        regex_escape(s.drop_last()) + seq!['\\', s.last()]
    } else {
        regex_escape(s.drop_last()) + seq![s.last()]
    }
}

/// The pieces of `text` between the non-overlapping matches of the regular
/// expression `pattern`, in order; `None` when the pattern does not compile.
pub uninterp spec fn regex_split(pattern: Seq<char>, text: Seq<char>) -> Option<Seq<Seq<char>>>;

/// Relies on `regex::escape`, which puts a backslash before each meta character.
#[verifier::external_body]
fn escape_literal(s: &str) -> (r: String)
    ensures
        r@ == regex_escape(s@),
{
    regex::escape(s)
}

/// The error `regex::Regex::new` returns for a pattern it cannot compile.
#[verifier::external_type_specification]
#[verifier::external_body]
pub struct ExRegexError(regex::Error);

/// Relies on `regex::Regex::new` to compile `pattern`, and on `regex::Regex::split`
/// for the substrings of `text` between matches, including the remainder after
/// the last match.
#[verifier::external_body]
fn split_by_regex(pattern: &str, text: &str) -> (r: Result<Vec<String>, regex::Error>)
    ensures
        r is Ok <==> regex_split(pattern@, text@) is Some,
        r is Ok ==> regex_split(pattern@, text@) == Some(views(r->Ok_0@)),
{
    let re = regex::Regex::new(pattern)?;
    Ok(re.split(text).map(|p| p.to_string()).collect())
}

/// The alternation of the escaped separators, joined by `|`.
pub open spec fn separator_pattern(seps: Seq<Seq<char>>) -> Seq<char>
    decreases seps.len(),
{
    if seps.len() == 0 {
        seq![]
    } else if seps.len() == 1 {
        regex_escape(seps[0])
    } else {
        separator_pattern(seps.drop_last()) + seq!['|'] + regex_escape(seps.last())
    }
}

/// The parts of `text`: the whole text when there is no separator, else the
/// pieces between separator matches.
pub open spec fn split_parts(seps: Seq<Seq<char>>, text: Seq<char>) -> Option<Seq<Seq<char>>> {
    if seps.len() == 0 {
        Some(seq![text])
    } else {
        regex_split(separator_pattern(seps), text)
    }
}

/// Adds one part to the accumulator `cur` whose size is within the budget:
/// when the two reach the budget together, they are flushed as one chunk.
pub open spec fn absorb(done: Seq<Seq<char>>, cur: Seq<char>, part: Seq<char>, budget: nat) -> (Seq<Seq<char>>, Seq<char>) {
    if byte_len(cur) + byte_len(part) >= budget {
        (done.push(cur + seq![' '] + part), seq![])
    } else if cur.len() == 0 {
        (done, part)
    } else {
        (done, cur + seq![' '] + part)
    }
}

/// One merge step: an accumulator already over the budget is flushed first.
pub open spec fn merge_step(done: Seq<Seq<char>>, cur: Seq<char>, part: Seq<char>, budget: nat) -> (Seq<Seq<char>>, Seq<char>) {
    if byte_len(cur) > budget {
        absorb(done.push(cur), seq![], part, budget)
    } else {
        absorb(done, cur, part, budget)
    }
}

/// Chunks flushed so far, and the accumulator, after merging `parts` in order.
pub open spec fn merge_state(parts: Seq<Seq<char>>, budget: nat) -> (Seq<Seq<char>>, Seq<char>)
    decreases parts.len(),
{
    if parts.len() == 0 {
        (seq![], seq![])
    } else {
        let (done, cur) = merge_state(parts.drop_last(), budget);
        merge_step(done, cur, parts.last(), budget)
    }
}

/// The chunks made of `parts`: those flushed, then a non-empty rest.
pub open spec fn merged(parts: Seq<Seq<char>>, budget: nat) -> Seq<Seq<char>> {
    let (done, cur) = merge_state(parts, budget);
    if cur.len() > 0 {
        done.push(cur)
    } else {
        done
    }
}

pub open spec fn all_non_empty(chunks: Seq<Seq<char>>) -> bool {
    forall|i: int| 0 <= i < chunks.len() ==> #[trigger] chunks[i].len() > 0
}

/// The chunks of the text under the separators and the budget, if the
/// separators compile.
pub open spec fn split_text_spec(seps: Seq<Seq<char>>, budget: nat, text: Seq<char>) -> Option<Seq<Seq<char>>> {
    match split_parts(seps, text) {
        Some(parts) => Some(merged(parts, budget)),
        None => None,
    }
}

/// Path and content of each document.
pub open spec fn doc_pairs(docs: Seq<Document>) -> Seq<(Seq<char>, Seq<char>)> {
    docs.map_values(|d: Document| (d.path@, d.content@))
}

/// Every document's content split into chunks, each chunk tagged with the path
/// of the document it came from, in order.
pub open spec fn split_all(docs: Seq<Document>, seps: Seq<Seq<char>>, budget: nat) -> Option<Seq<(Seq<char>, Seq<char>)>>
    decreases docs.len(),
{
    if docs.len() == 0 {
        Some(seq![])
    } else {
        match (split_all(docs.drop_last(), seps, budget), split_text_spec(seps, budget, docs.last().content@)) {
            (Some(before), Some(chunks)) => Some(before + tag_chunks(docs.last().path@, chunks)),
            _ => None,
        }
    }
}

pub open spec fn tag_chunks(path: Seq<char>, chunks: Seq<Seq<char>>) -> Seq<(Seq<char>, Seq<char>)> {
    chunks.map_values(|c: Seq<char>| (path, c))
}

pub open spec fn all_wf(docs: Seq<Document>) -> bool {
    forall|i: int| 0 <= i < docs.len() ==> #[trigger] docs[i].wf()
}

/// Chunks never come out empty, whatever the parts and the budget.
pub proof fn lemma_merged_non_empty(parts: Seq<Seq<char>>, budget: nat)
    ensures
        all_non_empty(merged(parts, budget)),
{
    lemma_merge_state_non_empty(parts, budget);
}

proof fn lemma_merge_state_non_empty(parts: Seq<Seq<char>>, budget: nat)
    ensures
        all_non_empty(merge_state(parts, budget).0),
    decreases parts.len(),
{
    if parts.len() > 0 {
        lemma_merge_state_non_empty(parts.drop_last(), budget);
        let (done, cur) = merge_state(parts.drop_last(), budget);
        let part = parts.last();
        assert((cur + seq![' '] + part).len() > 0);
        assert((seq![] + seq![' '] + part).len() > 0);
        if byte_len(cur) > budget {
            assert(cur.len() > 0) by {
                if cur.len() == 0 {
                    assert(vstd::utf8::encode_utf8(cur) =~= Seq::<u8>::empty());
                }
            }
        }
    }
}

/// Once a prefix of the documents fails to split, so does the whole.
proof fn lemma_split_all_none_extends(docs: Seq<Document>, seps: Seq<Seq<char>>, budget: nat, k: int)
    requires
        0 <= k <= docs.len(),
        split_all(docs.subrange(0, k), seps, budget) is None,
    ensures
        split_all(docs, seps, budget) is None,
    decreases docs.len(),
{
    if k < docs.len() {
        assert(docs.drop_last().subrange(0, k) =~= docs.subrange(0, k));
        lemma_split_all_none_extends(docs.drop_last(), seps, budget, k);
    } else {
        assert(docs.subrange(0, k) =~= docs);
    }
}

/// Adds `part` to the accumulator, flushing when the budget is reached.
fn absorb_part(docs: &mut Vec<String>, cur: &mut String, part: &str, chunk_size: usize)
    requires
        byte_len(old(cur)@) <= chunk_size,
    ensures
        (views(final(docs)@), final(cur)@) == absorb(views(old(docs)@), old(cur)@, part@, chunk_size as nat),
{
    let cur_len = str_byte_len(cur.as_str());
    let part_len = str_byte_len(part);
    if part_len >= chunk_size - cur_len {
        let ghost before = docs@;
        append_char(cur, ' ');
        append_str(cur, part);
        let full = cur.clone();
        proof {
            assert(full@ =~= old(cur)@ + seq![' '] + part@);
        }
        docs.push(full);
        *cur = String::new();
        proof {
            assert(docs@ == before.push(full));
            assert(views(docs@) =~= views(old(docs)@).push(old(cur)@ + seq![' '] + part@));
        }
    } else if cur.as_str().is_empty() {
        append_str(cur, part);
        proof {
            assert(views(docs@) =~= views(old(docs)@));
            assert(cur@ =~= part@);
        }
    } else {
        append_char(cur, ' ');
        append_str(cur, part);
        proof {
            assert(views(docs@) =~= views(old(docs)@));
            assert(cur@ =~= old(cur)@ + seq![' '] + part@);
        }
    }
}

/// Greedily merges `parts` into chunks of about `chunk_size` bytes.
pub fn merge_parts(parts: &Vec<String>, chunk_size: usize) -> (r: Vec<String>)
    ensures
        views(r@) == merged(views(parts@), chunk_size as nat),
        all_non_empty(views(r@)),
{
    let mut docs: Vec<String> = Vec::new();
    let mut cur = String::new();
    let mut i: usize = 0;
    proof {
        assert(views(docs@) =~= Seq::<Seq<char>>::empty());
        assert(views(parts@).subrange(0, 0) =~= Seq::<Seq<char>>::empty());
    }
    while i < parts.len()
        invariant
            i <= parts@.len(),
            (views(docs@), cur@) == merge_state(views(parts@).subrange(0, i as int), chunk_size as nat),
        decreases parts@.len() - i,
    {
        proof {
            let pre = views(parts@).subrange(0, i as int + 1);
            assert(pre.drop_last() =~= views(parts@).subrange(0, i as int));
            assert(pre.last() == parts@[i as int]@);
        }
        let part = parts[i].as_str();
        if str_byte_len(cur.as_str()) > chunk_size {
            let full = cur.clone();
            docs.push(full);
            cur = String::new();
            proof {
                assert(byte_len(cur@) == 0) by {
                    assert(vstd::utf8::encode_utf8(cur@) =~= Seq::<u8>::empty());
                }
            }
            absorb_part(&mut docs, &mut cur, part, chunk_size);
        } else {
            absorb_part(&mut docs, &mut cur, part, chunk_size);
        }
        i = i + 1;
    }
    proof {
        assert(views(parts@).subrange(0, i as int) =~= views(parts@));
    }
    if !cur.as_str().is_empty() {
        docs.push(cur);
        proof {
            assert(views(docs@) =~= merge_state(views(parts@), chunk_size as nat).0.push(
                merge_state(views(parts@), chunk_size as nat).1,
            ));
        }
    }
    proof {
        lemma_merged_non_empty(views(parts@), chunk_size as nat);
    }
    docs
}

/// Builds the alternation of the escaped separators.
fn build_pattern(separators: &Vec<String>) -> (r: String)
    ensures
        r@ == separator_pattern(views(separators@)),
{
    let mut pattern = String::new();
    let mut i: usize = 0;
    while i < separators.len()
        invariant
            i <= separators@.len(),
            pattern@ == separator_pattern(views(separators@).subrange(0, i as int)),
        decreases separators@.len() - i,
    {
        let escaped = escape_literal(separators[i].as_str());
        proof {
            let pre = views(separators@).subrange(0, i as int + 1);
            assert(pre.drop_last() =~= views(separators@).subrange(0, i as int));
            assert(pre.last() == separators@[i as int]@);
            assert(pre[0] == separators@[0]@);
        }
        if i > 0 {
            append_char(&mut pattern, '|');
        }
        append_str(&mut pattern, escaped.as_str());
        proof {
            if i == 0 {
                assert(pattern@ =~= regex_escape(separators@[0]@));
            }
        }
        i = i + 1;
    }
    proof {
        assert(views(separators@).subrange(0, i as int) =~= views(separators@));
    }
    pattern
}

/// Cuts `text` at each separator match; the whole text is one part when there
/// are no separators.
pub fn split_into_parts(separators: &Vec<String>, text: &str) -> (r: Result<Vec<String>, SplitError>)
    ensures
        r is Ok <==> split_parts(views(separators@), text@) is Some,
        r is Ok ==> split_parts(views(separators@), text@) == Some(views(r->Ok_0@)),
{
    if separators.len() == 0 {
        let mut parts: Vec<String> = Vec::new();
        parts.push(text.to_owned());
        proof {
            assert(views(parts@) =~= seq![text@]);
        }
        Ok(parts)
    } else {
        let pattern = build_pattern(separators);
        match split_by_regex(pattern.as_str(), text) {
            Ok(parts) => Ok(parts),
            Err(_) => Err(SplitError::InvalidSeparators),
        }
    }
}

/// Splits text by literal separators and merges the parts under a byte budget.
#[derive(Debug)]
pub struct TextSplitter {
    pub splitter_chunk_size: usize,
    pub separators: Vec<String>,
}

/// Splits `text` under the given separators and budget.
pub fn split_text_with(separators: &Vec<String>, chunk_size: usize, text: &str) -> (r: Result<Vec<String>, SplitError>)
    ensures
        r is Ok <==> split_text_spec(views(separators@), chunk_size as nat, text@) is Some,
        r is Ok ==> split_text_spec(views(separators@), chunk_size as nat, text@) == Some(views(r->Ok_0@)),
        r is Ok ==> all_non_empty(views(r->Ok_0@)),
{
    match split_into_parts(separators, text) {
        Ok(parts) => Ok(merge_parts(&parts, chunk_size)),
        Err(e) => Err(e),
    }
}

/// Splits each document's content and tags each chunk with the document's path.
pub fn split_documents_with(separators: &Vec<String>, chunk_size: usize, documents: &Documents) -> (r: Result<Documents, SplitError>)
    ensures
        r is Ok <==> split_all(documents@, views(separators@), chunk_size as nat) is Some,
        r is Ok ==> split_all(documents@, views(separators@), chunk_size as nat) == Some(doc_pairs(r->Ok_0@)),
        r is Ok ==> all_wf(r->Ok_0@),
{
    let mut result = Documents::create();
    let docs = documents.documents();
    let n = docs.len();
    let mut i: usize = 0;
    proof {
        assert(documents@.subrange(0, 0) =~= Seq::<Document>::empty());
        assert(doc_pairs(result@) =~= Seq::<(Seq<char>, Seq<char>)>::empty());
    }
    while i < n
        invariant
            n == documents@.len(),
            docs@ == documents@,
            i <= n,
            split_all(documents@.subrange(0, i as int), views(separators@), chunk_size as nat) == Some(doc_pairs(result@)),
            all_wf(result@),
        decreases n - i,
    {
        let document = &docs[i];
        proof {
            let pre = documents@.subrange(0, i as int + 1);
            assert(pre.drop_last() =~= documents@.subrange(0, i as int));
            assert(pre.last() == *document);
        }
        let chunks = match split_text_with(separators, chunk_size, document.content.as_str()) {
            Ok(c) => c,
            Err(e) => {
                proof {
                    lemma_split_all_none_extends(documents@, views(separators@), chunk_size as nat, i as int + 1);
                }
                return Err(e);
            }
        };
        let ghost before = result@;
        let mut j: usize = 0;
        while j < chunks.len()
            invariant
                j <= chunks@.len(),
                result@.len() == before.len() + j,
                result@.subrange(0, before.len() as int) == before,
                doc_pairs(result@) == doc_pairs(before) + tag_chunks(document.path@, views(chunks@).subrange(0, j as int)),
                all_wf(result@),
            decreases chunks@.len() - j,
        {
            let d = Document::create(document.path.as_str(), chunks[j].as_str());
            let ghost prev = result@;
            result.push(d);
            j = j + 1;
            proof {
                assert(result@ == prev.push(d));
                assert(doc_pairs(prev.push(d)) =~= doc_pairs(prev).push((d.path@, d.content@)));
                assert(views(chunks@).subrange(0, j as int) =~= views(chunks@).subrange(0, j - 1).push(chunks@[j - 1]@));
                assert(tag_chunks(document.path@, views(chunks@).subrange(0, j as int)) =~= tag_chunks(document.path@, views(chunks@).subrange(0, j - 1)).push((document.path@, chunks@[j - 1]@)));
                assert(all_wf(result@)) by {
                    assert forall|k: int| 0 <= k < result@.len() implies #[trigger] result@[k].wf() by {
                        if k < prev.len() {
                            assert(result@[k] == prev[k]);
                        }
                    }
                }
                assert(doc_pairs(result@) =~= doc_pairs(before) + tag_chunks(document.path@, views(chunks@).subrange(0, j as int)));
                assert(result@.subrange(0, before.len() as int) =~= before);
            }
        }
        proof {
            assert(views(chunks@).subrange(0, j as int) =~= views(chunks@));
        }
        i = i + 1;
    }
    proof {
        assert(documents@.subrange(0, n as int) =~= documents@);
    }
    Ok(result)
}

impl TextSplitter {
    pub fn create() -> (r: TextSplitter)
        ensures
            r.splitter_chunk_size == 400,
            views(r.separators@) == seq![seq!['\n']],
    {
        let mut separators: Vec<String> = Vec::new();
        separators.push("\n".to_owned());
        proof {
            reveal_strlit("\n");
            assert("\n"@ =~= seq!['\n']);
            assert(separators@[0]@ =~= seq!['\n']);
            assert(views(separators@) =~= seq![seq!['\n']]);
        }
        TextSplitter { splitter_chunk_size: 400, separators }
    }

    pub fn with_chunk_size(self, chunk_size: usize) -> (r: TextSplitter)
        ensures
            r.splitter_chunk_size == chunk_size,
            r.separators == self.separators,
    {
        TextSplitter { splitter_chunk_size: chunk_size, separators: self.separators }
    }

    pub fn with_separators(self, separators: Vec<String>) -> (r: TextSplitter)
        ensures
            r.splitter_chunk_size == self.splitter_chunk_size,
            r.separators == separators,
    {
        TextSplitter { splitter_chunk_size: self.splitter_chunk_size, separators }
    }

    pub fn separators(&self) -> (r: Vec<String>)
        ensures
            views(r@) == views(self.separators@),
    {
        let mut out: Vec<String> = Vec::new();
        let mut i: usize = 0;
        while i < self.separators.len()
            invariant
                i <= self.separators@.len(),
                views(out@) == views(self.separators@).subrange(0, i as int),
            decreases self.separators@.len() - i,
        {
            let ghost prev = out@;
            let c = self.separators[i].clone();
            out.push(c);
            i = i + 1;
            proof {
                assert(out@ == prev.push(c));
                assert(views(out@) =~= views(prev).push(c@));
                assert(views(out@) =~= views(self.separators@).subrange(0, i as int));
            }
        }
        proof {
            assert(views(self.separators@).subrange(0, i as int) =~= views(self.separators@));
        }
        out
    }

    pub fn split_text(&self, text: &str) -> (r: Result<Vec<String>, SplitError>)
        ensures
            r is Ok <==> split_text_spec(views(self.separators@), self.splitter_chunk_size as nat, text@) is Some,
            r is Ok ==> split_text_spec(views(self.separators@), self.splitter_chunk_size as nat, text@) == Some(views(r->Ok_0@)),
            r is Ok ==> all_non_empty(views(r->Ok_0@)),
    {
        split_text_with(&self.separators, self.splitter_chunk_size, text)
    }

    pub fn split_documents(&self, documents: &Documents) -> (r: Result<Documents, SplitError>)
        ensures
            r is Ok <==> split_all(documents@, views(self.separators@), self.splitter_chunk_size as nat) is Some,
            r is Ok ==> split_all(documents@, views(self.separators@), self.splitter_chunk_size as nat) == Some(doc_pairs(r->Ok_0@)),
            r is Ok ==> all_wf(r->Ok_0@),
    {
        split_documents_with(&self.separators, self.splitter_chunk_size, documents)
    }
}

/// `c` is a run of consecutive whole parts joined by single spaces, possibly
/// preceded by one space.
pub open spec fn whole_parts(c: Seq<char>, parts: Seq<Seq<char>>) -> bool {
    exists|a: int, b: int|
        0 <= a < b <= parts.len() && (c == join_with(parts.subrange(a, b), seq![' ']) || c == seq![' ']
            + join_with(parts.subrange(a, b), seq![' ']))
}

/// Where the accumulator's run of parts starts.
spec fn merge_start(parts: Seq<Seq<char>>, budget: nat) -> int
    decreases parts.len(),
{
    if parts.len() == 0 {
        0
    } else {
        let (done, cur) = merge_state(parts.drop_last(), budget);
        let n = parts.len() - 1;
        let part = parts.last();
        let s1 = if byte_len(cur) > budget { n } else { merge_start(parts.drop_last(), budget) };
        let cur1 = if byte_len(cur) > budget { Seq::<char>::empty() } else { cur };
        if byte_len(cur1) + byte_len(part) >= budget {
            n + 1
        } else if cur1.len() == 0 {
            if part.len() == 0 { n + 1 } else { n }
        } else {
            s1
        }
    }
}

proof fn lemma_whole_parts_extend(c: Seq<char>, ps: Seq<Seq<char>>, p: Seq<char>)
    requires
        whole_parts(c, ps),
    ensures
        whole_parts(c, ps.push(p)),
{
    let (a, b) = choose|a: int, b: int|
        0 <= a < b <= ps.len() && (c == join_with(ps.subrange(a, b), seq![' ']) || c == seq![' '] + join_with(
            ps.subrange(a, b),
            seq![' '],
        ));
    assert(ps.push(p).subrange(a, b) =~= ps.subrange(a, b));
}

proof fn lemma_merge_shape(parts: Seq<Seq<char>>, budget: nat)
    ensures
        ({
            let (done, cur) = merge_state(parts, budget);
            let s = merge_start(parts, budget);
            &&& 0 <= s <= parts.len()
            &&& s == parts.len() ==> cur.len() == 0
            &&& s < parts.len() ==> cur.len() > 0 && cur == join_with(parts.subrange(s, parts.len() as int), seq![' '])
            &&& forall|i: int| 0 <= i < done.len() ==> #[trigger] whole_parts(done[i], parts)
        }),
    decreases parts.len(),
{
    if parts.len() > 0 {
        let tp = parts.drop_last();
        lemma_merge_shape(tp, budget);
        let (done, cur) = merge_state(tp, budget);
        let s = merge_start(tp, budget);
        let n = tp.len() as int;
        let part = parts.last();
        assert(parts =~= tp.push(part));
        assert forall|i: int| 0 <= i < done.len() implies #[trigger] whole_parts(done[i], parts) by {
            lemma_whole_parts_extend(done[i], tp, part);
        }
        assert(parts.subrange(n, n + 1) =~= seq![part]);
        if s < n {
            assert(tp.subrange(s, n) =~= parts.subrange(s, n));
            let sub = parts.subrange(s, n + 1);
            assert(sub.drop_last() =~= parts.subrange(s, n));
            assert(sub.last() == part);
        }
        if byte_len(cur) > budget {
            assert(cur.len() > 0) by {
                if cur.len() == 0 {
                    assert(vstd::utf8::encode_utf8(cur) =~= Seq::<u8>::empty());
                }
            }
            assert(whole_parts(cur, parts));
            assert(byte_len(Seq::<char>::empty()) == 0) by {
                assert(vstd::utf8::encode_utf8(Seq::<char>::empty()) =~= Seq::<u8>::empty());
            }
            assert(seq![' '] + part =~= seq![' '] + join_with(parts.subrange(n, n + 1), seq![' ']));
            assert(Seq::<char>::empty() + seq![' '] + part =~= seq![' '] + part);
            let d1 = done.push(cur);
            assert forall|i: int| 0 <= i < d1.len() implies #[trigger] whole_parts(d1[i], parts) by {
                if i < done.len() {
                    assert(d1[i] == done[i]);
                }
            }
            if byte_len(Seq::<char>::empty()) + byte_len(part) >= budget {
                assert(whole_parts(Seq::<char>::empty() + seq![' '] + part, parts));
                let d2 = d1.push(Seq::<char>::empty() + seq![' '] + part);
                assert forall|i: int| 0 <= i < d2.len() implies #[trigger] whole_parts(d2[i], parts) by {
                    if i < d1.len() {
                        assert(d2[i] == d1[i]);
                    }
                }
            }
        } else {
            if byte_len(cur) + byte_len(part) >= budget {
                let c = cur + seq![' '] + part;
                if cur.len() == 0 {
                    assert(c =~= seq![' '] + join_with(parts.subrange(n, n + 1), seq![' ']));
                } else {
                    assert(c =~= join_with(parts.subrange(s, n + 1), seq![' ']));
                }
                assert(whole_parts(c, parts));
                let d1 = done.push(c);
                assert forall|i: int| 0 <= i < d1.len() implies #[trigger] whole_parts(d1[i], parts) by {
                    if i < done.len() {
                        assert(d1[i] == done[i]);
                    }
                }
            } else if cur.len() > 0 {
                assert(cur + seq![' '] + part =~= join_with(parts.subrange(s, n + 1), seq![' ']));
            }
        }
    }
}

/// Every chunk of the merge is a run of consecutive whole parts, joined by
/// single spaces and possibly preceded by one: no part is ever cut, so a
/// section between two separators lies whole inside one chunk.
pub proof fn lemma_merged_whole_parts(parts: Seq<Seq<char>>, budget: nat)
    ensures
        forall|i: int|
            0 <= i < merged(parts, budget).len() ==> #[trigger] whole_parts(merged(parts, budget)[i], parts),
{
    lemma_merge_shape(parts, budget);
    let (done, cur) = merge_state(parts, budget);
    if cur.len() > 0 {
        let s = merge_start(parts, budget);
        assert(whole_parts(cur, parts));
        let r = done.push(cur);
        assert forall|i: int| 0 <= i < r.len() implies #[trigger] whole_parts(r[i], parts) by {
            if i < done.len() {
                assert(r[i] == done[i]);
            }
        }
    }
}

} // verus!
