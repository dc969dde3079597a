//! The pull-request diff splitter.
//!
//! Each document holds a multi-file unified diff, parsed by the caller into
//! one patch per file, each printed back as diff text. Patches of skipped or
//! deleted files are dropped; the others are batched, whole, into chunks
//! bounded by a byte budget. A patch is never cut, so a chunk may exceed the
//! budget when a single patch does.

use vstd::prelude::*;
use crate::text::{byte_len, views, str_byte_len, append_str, append_char};
use crate::document::{Document, Documents};
use crate::error::SplitError;
use crate::splitter::{doc_pairs, all_wf};

verus! {

/// Whether `pattern` is a valid glob pattern.
pub uninterp spec fn glob_compiles(pattern: Seq<char>) -> bool;

/// Whether `path` matches the glob `pattern`, for a valid pattern.
pub uninterp spec fn glob_matches(pattern: Seq<char>, path: Seq<char>) -> bool;

/// The error `glob::Pattern::new` returns for an invalid pattern.
#[verifier::external_type_specification]
#[verifier::external_body]
pub struct ExPatternError(glob::PatternError);

/// Relies on `glob::Pattern::new`: whether a pattern compiles depends on the
/// pattern alone.
#[verifier::external_body]
pub(crate) fn check_glob(pattern: &str) -> (r: Result<(), glob::PatternError>)
    ensures
        r is Ok <==> glob_compiles(pattern@),
{
    glob::Pattern::new(pattern).map(|_| ())
}

/// Relies on `glob::Pattern::new` to compile `pattern` and on
/// `glob::Pattern::matches` to test `path` with the default match options.
#[verifier::external_body]
pub(crate) fn glob_match(pattern: &str, path: &str) -> (r: Result<bool, glob::PatternError>)
    ensures
        r is Ok <==> glob_compiles(pattern@),
        r is Ok ==> r->Ok_0 == glob_matches(pattern@, path@),
{
    let compiled = glob::Pattern::new(pattern)?;
    Ok(compiled.matches(path))
}

/// Whether every skip rule is a valid glob.
pub open spec fn all_compile(skips: Seq<Seq<char>>) -> bool {
    forall|k: int| 0 <= k < skips.len() ==> glob_compiles(#[trigger] skips[k])
}

/// One file's patch: its old and new paths and its text as a diff.
#[derive(Debug)]
pub struct FilePatch {
    pub old_path: String,
    pub new_path: String,
    pub text: String,
}

impl View for FilePatch {
    type V = (Seq<char>, Seq<char>, Seq<char>);

    open spec fn view(&self) -> (Seq<char>, Seq<char>, Seq<char>) {
        (self.old_path@, self.new_path@, self.text@)
    }
}

pub open spec fn patch_views(v: Seq<FilePatch>) -> Seq<(Seq<char>, Seq<char>, Seq<char>)> {
    v.map_values(|p: FilePatch| p@)
}

/// A document's diff, already parsed into its file patches.
#[derive(Debug)]
pub struct ParsedDiff {
    pub path: String,
    pub patches: Vec<FilePatch>,
}

impl View for ParsedDiff {
    type V = (Seq<char>, Seq<(Seq<char>, Seq<char>, Seq<char>)>);

    open spec fn view(&self) -> (Seq<char>, Seq<(Seq<char>, Seq<char>, Seq<char>)>) {
        (self.path@, patch_views(self.patches@))
    }
}

pub open spec fn diff_views(v: Seq<ParsedDiff>) -> Seq<(Seq<char>, Seq<(Seq<char>, Seq<char>, Seq<char>)>)> {
    v.map_values(|d: ParsedDiff| d@)
}

/// The new path that a patch of a deleted file carries.
pub open spec fn deleted_path() -> Seq<char> {
    seq!['/', 'd', 'e', 'v', '/', 'n', 'u', 'l', 'l']
}

/// Whether a patch is skipped: some rule matches its old or its new path.
pub open spec fn is_skip(skips: Seq<Seq<char>>, old_path: Seq<char>, new_path: Seq<char>) -> bool
    decreases skips.len(),
{
    skips.len() > 0 && (glob_matches(skips[0], old_path) || glob_matches(skips[0], new_path) || is_skip(
        skips.drop_first(),
        old_path,
        new_path,
    ))
}

/// A patch kept for output, with the path of the document it came from.
#[derive(Debug)]
pub struct DiffUnit {
    pub doc_path: String,
    pub patch: FilePatch,
}

impl View for DiffUnit {
    type V = (Seq<char>, (Seq<char>, Seq<char>, Seq<char>));

    open spec fn view(&self) -> (Seq<char>, (Seq<char>, Seq<char>, Seq<char>)) {
        (self.doc_path@, self.patch@)
    }
}

pub open spec fn unit_views(v: Seq<DiffUnit>) -> Seq<(Seq<char>, (Seq<char>, Seq<char>, Seq<char>))> {
    v.map_values(|u: DiffUnit| u@)
}

/// The patches of one document that are kept, in order, each with the
/// document's path: those neither skipped nor deleted.
pub open spec fn retain_patches(
    doc_path: Seq<char>,
    patches: Seq<(Seq<char>, Seq<char>, Seq<char>)>,
    skips: Seq<Seq<char>>,
) -> Seq<(Seq<char>, (Seq<char>, Seq<char>, Seq<char>))>
    decreases patches.len(),
{
    if patches.len() == 0 {
        seq![]
    } else {
        let before = retain_patches(doc_path, patches.drop_last(), skips);
        let p = patches.last();
        if is_skip(skips, p.0, p.1) || p.1 == deleted_path() {
            before
        } else {
            before.push((doc_path, p))
        }
    }
}

/// The kept patches of all documents, in order.
pub open spec fn retained_units(
    docs: Seq<(Seq<char>, Seq<(Seq<char>, Seq<char>, Seq<char>)>)>,
    skips: Seq<Seq<char>>,
) -> Seq<(Seq<char>, (Seq<char>, Seq<char>, Seq<char>))>
    decreases docs.len(),
{
    if docs.len() == 0 {
        seq![]
    } else {
        retained_units(docs.drop_last(), skips) + retain_patches(docs.last().0, docs.last().1, skips)
    }
}

/// Document path and patch text of each kept patch.
pub open spec fn unit_texts(units: Seq<(Seq<char>, (Seq<char>, Seq<char>, Seq<char>))>) -> Seq<(Seq<char>, Seq<char>)> {
    units.map_values(|u: (Seq<char>, (Seq<char>, Seq<char>, Seq<char>))| (u.0, u.1.2))
}

/// Chunks flushed so far and the accumulator after batching `units` in order:
/// a patch that fits is appended after a newline; one that does not flushes
/// the accumulator, tagged with the patch's document path, and starts anew.
pub open spec fn batch_state(units: Seq<(Seq<char>, Seq<char>)>, budget: nat) -> (Seq<(Seq<char>, Seq<char>)>, Seq<char>)
    decreases units.len(),
{
    if units.len() == 0 {
        (seq![], seq![])
    } else {
        let (out, acc) = batch_state(units.drop_last(), budget);
        let (path, text) = units.last();
        if byte_len(acc) + byte_len(text) <= budget {
            (out, acc + seq!['\n'] + text)
        } else if acc.len() > 0 {
            (out.push((path, acc)), text)
        } else {
            (out, text)
        }
    }
}

/// The batched chunks; a non-empty rest is tagged with `last_path`.
pub open spec fn batched(units: Seq<(Seq<char>, Seq<char>)>, budget: nat, last_path: Seq<char>) -> Seq<(Seq<char>, Seq<char>)> {
    let (out, acc) = batch_state(units, budget);
    if acc.len() > 0 {
        out.push((last_path, acc))
    } else {
        out
    }
}

/// Path of the last document, or the empty path when there is none.
pub open spec fn last_path(docs: Seq<(Seq<char>, Seq<(Seq<char>, Seq<char>, Seq<char>)>)>) -> Seq<char> {
    if docs.len() > 0 {
        docs.last().0
    } else {
        seq![]
    }
}

/// The chunks that the diff splitter makes of `docs`; `None` when a skip rule
/// is not a valid glob, whatever the documents.
pub open spec fn diff_split(docs: Seq<(Seq<char>, Seq<(Seq<char>, Seq<char>, Seq<char>)>)>, skips: Seq<Seq<char>>, budget: nat) -> Option<Seq<(Seq<char>, Seq<char>)>> {
    if all_compile(skips) {
        Some(batched(unit_texts(retained_units(docs, skips)), budget, last_path(docs)))
    } else {
        None
    }
}

/// Decides whether a patch is skipped by one of the rules, all valid.
fn is_skipped(skips: &Vec<String>, old_path: &str, new_path: &str) -> (r: bool)
    requires
        all_compile(views(skips@)),
    ensures
        r == is_skip(views(skips@), old_path@, new_path@),
{
    let mut i: usize = 0;
    proof {
        assert(views(skips@).subrange(0, skips@.len() as int) =~= views(skips@));
    }
    while i < skips.len()
        invariant
            i <= skips@.len(),
            all_compile(views(skips@)),
            is_skip(views(skips@), old_path@, new_path@) == is_skip(
                views(skips@).subrange(i as int, skips@.len() as int),
                old_path@,
                new_path@,
            ),
        decreases skips@.len() - i,
    {
        let ghost rest = views(skips@).subrange(i as int, skips@.len() as int);
        proof {
            assert(rest[0] == skips@[i as int]@);
            assert(rest.drop_first() =~= views(skips@).subrange(i as int + 1, skips@.len() as int));
            assert(glob_compiles(views(skips@)[i as int]));
        }
        let rule = skips[i].as_str();
        let on_old = match glob_match(rule, old_path) {
            Ok(b) => b,
            Err(_) => {
                proof {
                    assert(false);
                }
                true
            },
        };
        if on_old {
            return true;
        }
        let on_new = match glob_match(rule, new_path) {
            Ok(b) => b,
            Err(_) => {
                proof {
                    assert(false);
                }
                true
            },
        };
        if on_new {
            return true;
        }
        i = i + 1;
    }
    proof {
        assert(views(skips@).subrange(i as int, skips@.len() as int).len() == 0);
    }
    false
}

/// The first skip rule that is not a valid glob, if any.
fn first_invalid_glob(skips: &Vec<String>) -> (r: Option<usize>)
    ensures
        r is None <==> all_compile(views(skips@)),
        r is Some ==> r->Some_0 < skips@.len() && !glob_compiles(skips@[r->Some_0 as int]@)
            && forall|k: int| 0 <= k < r->Some_0 ==> glob_compiles(#[trigger] skips@[k]@),
{
    let mut i: usize = 0;
    while i < skips.len()
        invariant
            i <= skips@.len(),
            forall|k: int| 0 <= k < i ==> glob_compiles(#[trigger] skips@[k]@),
        decreases skips@.len() - i,
    {
        if check_glob(skips[i].as_str()).is_err() {
            proof {
                assert(!glob_compiles(views(skips@)[i as int]));
            }
            return Some(i);
        }
        i = i + 1;
    }
    proof {
        assert forall|k: int| 0 <= k < views(skips@).len() implies glob_compiles(#[trigger] views(skips@)[k]) by {
            assert(views(skips@)[k] == skips@[k]@);
        }
    }
    None
}

fn copy_patch(p: &FilePatch) -> (r: FilePatch)
    ensures
        r@ == p@,
{
    FilePatch { old_path: p.old_path.clone(), new_path: p.new_path.clone(), text: p.text.clone() }
}

/// Keeps, in order, the patches of every document that are neither skipped
/// nor deleted; every skip rule is a valid glob.
pub fn collect_units(skips: &Vec<String>, documents: &Vec<ParsedDiff>) -> (r: Vec<DiffUnit>)
    requires
        all_compile(views(skips@)),
    ensures
        unit_views(r@) == retained_units(diff_views(documents@), views(skips@)),
{
    let ghost dv = diff_views(documents@);
    let mut units: Vec<DiffUnit> = Vec::new();
    let n = documents.len();
    let mut i: usize = 0;
    let deleted = "/dev/null";
    proof {
        reveal_strlit("/dev/null");
        assert(deleted@ =~= deleted_path());
        assert(dv.subrange(0, 0) =~= Seq::<(Seq<char>, Seq<(Seq<char>, Seq<char>, Seq<char>)>)>::empty());
        assert(unit_views(units@) =~= Seq::<(Seq<char>, (Seq<char>, Seq<char>, Seq<char>))>::empty());
    }
    while i < n
        invariant
            n == documents@.len(),
            dv == diff_views(documents@),
            i <= n,
            all_compile(views(skips@)),
            retained_units(dv.subrange(0, i as int), views(skips@)) == unit_views(units@),
            deleted@ == deleted_path(),
        decreases n - i,
    {
        let document = &documents[i];
        let ghost docs_pre = dv.subrange(0, i as int + 1);
        proof {
            assert(docs_pre.drop_last() =~= dv.subrange(0, i as int));
            assert(docs_pre.last() == document@);
        }
        let patches = &document.patches;
        let ghost before = unit_views(units@);
        let ghost pv = patch_views(patches@);
        let mut j: usize = 0;
        proof {
            assert(pv.subrange(0, 0) =~= Seq::<(Seq<char>, Seq<char>, Seq<char>)>::empty());
            assert(unit_views(units@) =~= before + Seq::<(Seq<char>, (Seq<char>, Seq<char>, Seq<char>))>::empty());
        }
        while j < patches.len()
            invariant
                j <= patches@.len(),
                pv == patch_views(patches@),
                document@.1 == pv,
                all_compile(views(skips@)),
                unit_views(units@) == before + retain_patches(document.path@, pv.subrange(0, j as int), views(skips@)),
                deleted@ == deleted_path(),
            decreases patches@.len() - j,
        {
            let patch = &patches[j];
            proof {
                let pre = pv.subrange(0, j as int + 1);
                assert(pre.drop_last() =~= pv.subrange(0, j as int));
                assert(pre.last() == patch@);
            }
            let skip = is_skipped(skips, patch.old_path.as_str(), patch.new_path.as_str());
            let is_deleted = patch.new_path == deleted.to_owned();
            if !skip && !is_deleted {
                let ghost prev = units@;
                let u = DiffUnit { doc_path: document.path.clone(), patch: copy_patch(patch) };
                units.push(u);
                proof {
                    assert(unit_views(units@) =~= unit_views(prev).push(u@));
                }
            }
            j = j + 1;
        }
        proof {
            assert(pv.subrange(0, j as int) =~= pv);
            assert(retained_units(docs_pre, views(skips@)) == unit_views(units@));
        }
        i = i + 1;
    }
    proof {
        assert(dv.subrange(0, n as int) =~= dv);
    }
    units
}

/// Batches the kept patches, whole, into chunks of about `chunk_size` bytes;
/// the last chunk is tagged with `last_path`.
pub fn batch_units(units: &Vec<DiffUnit>, chunk_size: usize, last_path: &str) -> (r: Documents)
    ensures
        doc_pairs(r@) == batched(unit_texts(unit_views(units@)), chunk_size as nat, last_path@),
        all_wf(r@),
{
    let ghost texts = unit_texts(unit_views(units@));
    let mut out = Documents::create();
    let mut acc = String::new();
    let mut i: usize = 0;
    proof {
        assert(texts.subrange(0, 0) =~= Seq::<(Seq<char>, Seq<char>)>::empty());
        assert(doc_pairs(out@) =~= Seq::<(Seq<char>, Seq<char>)>::empty());
    }
    while i < units.len()
        invariant
            i <= units@.len(),
            texts == unit_texts(unit_views(units@)),
            (doc_pairs(out@), acc@) == batch_state(texts.subrange(0, i as int), chunk_size as nat),
            all_wf(out@),
        decreases units@.len() - i,
    {
        let unit = &units[i];
        proof {
            let pre = texts.subrange(0, i as int + 1);
            assert(pre.drop_last() =~= texts.subrange(0, i as int));
            assert(pre.last() == (unit.doc_path@, unit.patch.text@));
        }
        let acc_len = str_byte_len(acc.as_str());
        let text_len = str_byte_len(unit.patch.text.as_str());
        if text_len <= chunk_size && acc_len <= chunk_size - text_len {
            append_char(&mut acc, '\n');
            append_str(&mut acc, unit.patch.text.as_str());
        } else {
            if !acc.as_str().is_empty() {
                let ghost prev = out@;
                let d = Document::create(unit.doc_path.as_str(), acc.as_str());
                out.push(d);
                proof {
                    assert(doc_pairs(out@) =~= doc_pairs(prev).push((unit.doc_path@, acc@)));
                    assert forall|k: int| 0 <= k < out@.len() implies #[trigger] out@[k].wf() by {
                        if k < prev.len() {
                            assert(out@[k] == prev[k]);
                        }
                    }
                }
            }
            acc = unit.patch.text.clone();
        }
        i = i + 1;
    }
    proof {
        assert(texts.subrange(0, i as int) =~= texts);
    }
    if !acc.as_str().is_empty() {
        let ghost prev = out@;
        let d = Document::create(last_path, acc.as_str());
        out.push(d);
        proof {
            assert(doc_pairs(out@) =~= doc_pairs(prev).push((last_path@, acc@)));
            assert forall|k: int| 0 <= k < out@.len() implies #[trigger] out@[k].wf() by {
                if k < prev.len() {
                    assert(out@[k] == prev[k]);
                }
            }
        }
    }
    out
}

/// Splits pull-request diffs into chunks made of whole file patches.
pub struct GithubPRDiffSplitter {
    pub splitter_chunk_size: usize,
    pub skips: Vec<String>,
}

impl GithubPRDiffSplitter {
    pub fn create() -> (r: GithubPRDiffSplitter)
        ensures
            r.splitter_chunk_size == 2000,
            r.skips@.len() == 0,
    {
        GithubPRDiffSplitter { splitter_chunk_size: 2000, skips: Vec::new() }
    }

    pub fn with_chunk_size(self, chunk_size: usize) -> (r: GithubPRDiffSplitter)
        ensures
            r.splitter_chunk_size == chunk_size,
            r.skips == self.skips,
    {
        GithubPRDiffSplitter { splitter_chunk_size: chunk_size, skips: self.skips }
    }

    pub fn with_skips(self, skips: Vec<String>) -> (r: GithubPRDiffSplitter)
        ensures
            r.splitter_chunk_size == self.splitter_chunk_size,
            r.skips == skips,
    {
        GithubPRDiffSplitter { splitter_chunk_size: self.splitter_chunk_size, skips }
    }

    /// The diff splitter cuts at patch boundaries, never at text separators.
    pub fn separators(&self) -> (r: Vec<String>)
        ensures
            r@.len() == 0,
    {
        Vec::new()
    }

    /// Batches the kept patches of parsed diffs; each chunk is tagged with the
    /// path of the document being read when it was flushed, the last with the
    /// last document's path.
    pub fn split_documents(&self, documents: &Vec<ParsedDiff>) -> (r: Result<Documents, SplitError>)
        ensures
            r is Ok <==> diff_split(diff_views(documents@), views(self.skips@), self.splitter_chunk_size as nat) is Some,
            r is Ok ==> diff_split(diff_views(documents@), views(self.skips@), self.splitter_chunk_size as nat) == Some(doc_pairs(r->Ok_0@)),
            r is Ok ==> all_wf(r->Ok_0@),
            r is Err ==> exists|k: int|
                0 <= k < self.skips@.len() && !glob_compiles(#[trigger] self.skips@[k]@)
                    && r->Err_0 == (SplitError::InvalidGlob { pattern: self.skips@[k] })
                    && forall|j: int| 0 <= j < k ==> glob_compiles(#[trigger] self.skips@[j]@),
    {
        if let Some(k) = first_invalid_glob(&self.skips) {
            return Err(SplitError::InvalidGlob { pattern: self.skips[k].clone() });
        }
        let units = collect_units(&self.skips, documents);
        let n = documents.len();
        let path = if n > 0 {
            documents[n - 1].path.clone()
        } else {
            String::new()
        };
        proof {
            assert(path@ == last_path(diff_views(documents@)));
        }
        Ok(batch_units(&units, self.splitter_chunk_size, path.as_str()))
    }
}

/// Patch texts joined by newlines.
pub open spec fn join_lines(ts: Seq<Seq<char>>) -> Seq<char>
    decreases ts.len(),
{
    if ts.len() == 0 {
        seq![]
    } else if ts.len() == 1 {
        ts[0]
    } else {
        join_lines(ts.drop_last()) + seq!['\n'] + ts.last()
    }
}

/// `c` is a run of consecutive whole patches of `ts`, joined by newlines and
/// possibly preceded by one.
pub open spec fn whole_patches(c: Seq<char>, ts: Seq<Seq<char>>) -> bool {
    exists|a: int, b: int|
        0 <= a < b <= ts.len() && (c == join_lines(ts.subrange(a, b)) || c == seq!['\n'] + join_lines(
            ts.subrange(a, b),
        ))
}

pub open spec fn texts_of(units: Seq<(Seq<char>, Seq<char>)>) -> Seq<Seq<char>> {
    units.map_values(|u: (Seq<char>, Seq<char>)| u.1)
}

/// Where the accumulator's run of patches starts, and whether it opens with a newline.
spec fn batch_start(units: Seq<(Seq<char>, Seq<char>)>, budget: nat) -> (int, bool)
    decreases units.len(),
{
    if units.len() == 0 {
        (0, false)
    } else {
        let (out, acc) = batch_state(units.drop_last(), budget);
        let (s, lead) = batch_start(units.drop_last(), budget);
        let n = units.len() - 1;
        if byte_len(acc) + byte_len(units.last().1) <= budget {
            if s == n {
                (n, true)
            } else {
                (s, lead)
            }
        } else {
            (n, false)
        }
    }
}

spec fn lead_of(lead: bool) -> Seq<char> {
    if lead {
        seq!['\n']
    } else {
        seq![]
    }
}

proof fn lemma_whole_patches_extend(c: Seq<char>, ts: Seq<Seq<char>>, t: Seq<char>)
    requires
        whole_patches(c, ts),
    ensures
        whole_patches(c, ts.push(t)),
{
    let (a, b) = choose|a: int, b: int|
        0 <= a < b <= ts.len() && (c == join_lines(ts.subrange(a, b)) || c == seq!['\n'] + join_lines(
            ts.subrange(a, b),
        ));
    assert(ts.push(t).subrange(a, b) =~= ts.subrange(a, b));
}

proof fn lemma_batch_shape(units: Seq<(Seq<char>, Seq<char>)>, budget: nat)
    ensures
        ({
            let (out, acc) = batch_state(units, budget);
            let (s, lead) = batch_start(units, budget);
            let ts = texts_of(units);
            &&& 0 <= s <= units.len()
            &&& s == units.len() ==> !lead
            &&& acc == lead_of(lead) + join_lines(ts.subrange(s, units.len() as int))
            &&& forall|i: int| 0 <= i < out.len() ==> #[trigger] whole_patches(out[i].1, ts)
        }),
    decreases units.len(),
{
    let ts = texts_of(units);
    if units.len() == 0 {
        assert(ts.subrange(0, 0) =~= Seq::<Seq<char>>::empty());
        assert(lead_of(false) + join_lines(Seq::<Seq<char>>::empty()) =~= Seq::<char>::empty());
    } else {
        let pre = units.drop_last();
        lemma_batch_shape(pre, budget);
        let (out, acc) = batch_state(pre, budget);
        let (s, lead) = batch_start(pre, budget);
        let n = units.len() - 1;
        let t = units.last().1;
        let tp = texts_of(pre);
        assert(tp =~= ts.drop_last());
        assert(ts =~= tp.push(t));
        assert(ts[n] == t);
        assert forall|i: int| 0 <= i < out.len() implies #[trigger] whole_patches(out[i].1, ts) by {
            assert(whole_patches(out[i].1, tp));
            lemma_whole_patches_extend(out[i].1, tp, t);
        }
        assert(ts.subrange(n, n + 1) =~= seq![t]);
        if byte_len(acc) + byte_len(t) <= budget {
            if s == n {
                assert(tp.subrange(n, n) =~= Seq::<Seq<char>>::empty());
                assert(acc =~= Seq::<char>::empty());
                assert(acc + seq!['\n'] + t =~= lead_of(true) + join_lines(ts.subrange(n, n + 1)));
            } else {
                let sub = ts.subrange(s, n + 1);
                assert(sub.drop_last() =~= tp.subrange(s, n));
                assert(sub.last() == t);
                assert(acc + seq!['\n'] + t =~= lead_of(lead) + join_lines(sub));
            }
        } else {
            assert(t =~= lead_of(false) + join_lines(ts.subrange(n, n + 1)));
            if acc.len() > 0 {
                assert(s < n);
                assert(tp.subrange(s, n) =~= ts.subrange(s, n));
                let c = acc;
                assert(c == join_lines(ts.subrange(s, n)) || c == seq!['\n'] + join_lines(ts.subrange(s, n)));
                assert(whole_patches(c, ts));
                let out2 = out.push((units.last().0, acc));
                assert forall|i: int| 0 <= i < out2.len() implies #[trigger] whole_patches(out2[i].1, ts) by {
                    if i < out.len() {
                        assert(out2[i] == out[i]);
                    }
                }
            }
        }
    }
}

/// Every chunk made by batching is a run of consecutive whole patches: no
/// patch is ever cut between two chunks.
pub proof fn lemma_batches_hold_whole_patches(units: Seq<(Seq<char>, Seq<char>)>, budget: nat, last_path: Seq<char>)
    ensures
        forall|i: int|
            0 <= i < batched(units, budget, last_path).len() ==> #[trigger] whole_patches(
                batched(units, budget, last_path)[i].1,
                texts_of(units),
            ),
{
    lemma_batch_shape(units, budget);
    let (out, acc) = batch_state(units, budget);
    let (s, lead) = batch_start(units, budget);
    let ts = texts_of(units);
    let n = units.len() as int;
    if acc.len() > 0 {
        if s == n {
            assert(ts.subrange(n, n) =~= Seq::<Seq<char>>::empty());
            assert(acc =~= Seq::<char>::empty());
        }
        assert(whole_patches(acc, ts));
        let r = out.push((last_path, acc));
        assert forall|i: int| 0 <= i < r.len() implies #[trigger] whole_patches(r[i].1, ts) by {
            if i < out.len() {
                assert(r[i] == out[i]);
            }
        }
    }
}

/// Every chunk that the diff splitter returns is a run of consecutive whole
/// kept patches, in their order.
pub proof fn lemma_diff_chunks_hold_whole_patches(
    docs: Seq<(Seq<char>, Seq<(Seq<char>, Seq<char>, Seq<char>)>)>,
    skips: Seq<Seq<char>>,
    budget: nat,
)
    requires
        diff_split(docs, skips, budget) is Some,
    ensures
        forall|i: int|
            0 <= i < diff_split(docs, skips, budget)->Some_0.len() ==> #[trigger] whole_patches(
                diff_split(docs, skips, budget)->Some_0[i].1,
                texts_of(unit_texts(retained_units(docs, skips))),
            ),
{
    lemma_batches_hold_whole_patches(unit_texts(retained_units(docs, skips)), budget, last_path(docs));
}

/// A patch that is not skipped matches no rule on either path.
proof fn lemma_kept_matches_no_rule(skips: Seq<Seq<char>>, old_path: Seq<char>, new_path: Seq<char>)
    requires
        !is_skip(skips, old_path, new_path),
    ensures
        forall|k: int|
            0 <= k < skips.len() ==> !glob_matches(#[trigger] skips[k], old_path) && !glob_matches(skips[k], new_path),
    decreases skips.len(),
{
    if skips.len() > 0 {
        lemma_kept_matches_no_rule(skips.drop_first(), old_path, new_path);
        assert forall|k: int| 0 <= k < skips.len() implies !glob_matches(#[trigger] skips[k], old_path)
            && !glob_matches(skips[k], new_path) by {
            if k > 0 {
                assert(skips[k] == skips.drop_first()[k - 1]);
            }
        }
    }
}

pub open spec fn kept_ok(u: (Seq<char>, (Seq<char>, Seq<char>, Seq<char>)), skips: Seq<Seq<char>>) -> bool {
    &&& u.1.1 != deleted_path()
    &&& forall|k: int|
        0 <= k < skips.len() ==> !glob_matches(#[trigger] skips[k], u.1.0) && !glob_matches(skips[k], u.1.1)
}

proof fn lemma_retain_kept_ok(doc_path: Seq<char>, patches: Seq<(Seq<char>, Seq<char>, Seq<char>)>, skips: Seq<Seq<char>>)
    ensures
        forall|i: int|
            0 <= i < retain_patches(doc_path, patches, skips).len() ==> kept_ok(
                #[trigger] retain_patches(doc_path, patches, skips)[i],
                skips,
            ),
    decreases patches.len(),
{
    if patches.len() > 0 {
        lemma_retain_kept_ok(doc_path, patches.drop_last(), skips);
        let p = patches.last();
        if !is_skip(skips, p.0, p.1) {
            lemma_kept_matches_no_rule(skips, p.0, p.1);
        }
        let before = retain_patches(doc_path, patches.drop_last(), skips);
        let r = retain_patches(doc_path, patches, skips);
        assert forall|i: int| 0 <= i < r.len() implies kept_ok(#[trigger] r[i], skips) by {
            if i < before.len() {
                assert(r[i] == before[i]);
            }
        }
    }
}

/// No patch that the diff splitter keeps has an old or new path matching a
/// skip rule, nor is it the patch of a deleted file.
pub proof fn lemma_kept_patches_not_skipped(docs: Seq<(Seq<char>, Seq<(Seq<char>, Seq<char>, Seq<char>)>)>, skips: Seq<Seq<char>>)
    ensures
        forall|i: int|
            0 <= i < retained_units(docs, skips).len() ==> kept_ok(#[trigger] retained_units(docs, skips)[i], skips),
    decreases docs.len(),
{
    if docs.len() > 0 {
        lemma_kept_patches_not_skipped(docs.drop_last(), skips);
        let before = retained_units(docs.drop_last(), skips);
        lemma_retain_kept_ok(docs.last().0, docs.last().1, skips);
        let kept = retain_patches(docs.last().0, docs.last().1, skips);
        let r = retained_units(docs, skips);
        assert(r == before + kept);
        assert forall|i: int| 0 <= i < r.len() implies kept_ok(#[trigger] r[i], skips) by {
            if i < before.len() {
                assert(r[i] == before[i]);
            } else {
                assert(r[i] == kept[i - before.len()]);
            }
        }
    }
}

} // verus!
