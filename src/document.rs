//! The chunk model: a `Document` with its provenance path, its content and the
//! MD5 fingerprint of that content, and `Documents`, an ordered collection.

use vstd::prelude::*;
use crate::text::{byte_len, is_lower_hex};

verus! {

/// Lower-case hex MD5 digest of a text, as `format!("{:x}", md5::compute(..))` prints it.
pub uninterp spec fn md5_hex(content: Seq<char>) -> Seq<char>;

/// Relies on `md5::compute` and the `LowerHex` impl of `md5::Digest`: the digest
/// depends on the content alone, and its 16 bytes print as two lower-case hex
/// digits each.
#[verifier::external_body]
fn md5_hex_of(content: &str) -> (r: String)
    ensures
        r@ == md5_hex(content@),
        r@.len() == 32,
        forall|i: int| 0 <= i < r@.len() ==> is_lower_hex(#[trigger] r@[i]),
{
    format!("{:x}", md5::compute(content))
}

#[derive(Debug, Clone, PartialEq, Eq)]
pub struct Document {
    pub path: String,
    pub content: String,
    pub content_md5: String,
}

impl Document {
    /// The fingerprint is the digest of the content.
    pub open spec fn wf(&self) -> bool {
        self.content_md5@ == md5_hex(self.content@)
    }

    pub fn create(path: &str, content: &str) -> (r: Document)
        ensures
            r.path@ == path@,
            r.content@ == content@,
            r.content_md5@ == md5_hex(content@),
            r.content_md5@.len() == 32,
            forall|i: int| 0 <= i < 32 ==> is_lower_hex(#[trigger] r.content_md5@[i]),
            r.wf(),
    {
        Document {
            path: path.to_owned(),
            content: content.to_owned(),
            content_md5: md5_hex_of(content),
        }
    }

    /// Number of bytes of the content.
    pub fn size(&self) -> (r: usize)
        ensures
            r == byte_len(self.content@),
    {
        crate::text::str_byte_len(self.content.as_str())
    }

    /// A copy with the same fields.
    pub fn duplicate(&self) -> (r: Document)
        ensures
            r == *self,
    {
        Document {
            path: self.path.clone(),
            content: self.content.clone(),
            content_md5: self.content_md5.clone(),
        }
    }
}

/// Two documents made from the same content carry the same fingerprint.
pub proof fn lemma_same_content_same_hash(a: Document, b: Document)
    requires
        a.wf(),
        b.wf(),
        a.content@ == b.content@,
    ensures
        a.content_md5@ == b.content_md5@,
{
}

/// Sum of the byte sizes of the documents' contents.
pub open spec fn total_size(docs: Seq<Document>) -> nat
    decreases docs.len(),
{
    if docs.len() == 0 {
        0
    } else {
        total_size(docs.drop_last()) + byte_len(docs.last().content@)
    }
}

/// An ordered collection of documents.
#[derive(Debug)]
pub struct Documents {
    documents: Vec<Document>,
}

impl View for Documents {
    type V = Seq<Document>;

    closed spec fn view(&self) -> Seq<Document> {
        self.documents@
    }
}

/// A point-in-time copy of a collection, handed out one document at a time.
#[derive(Debug)]
pub struct DocumentsIter {
    documents: Vec<Document>,
    index: usize,
}

impl DocumentsIter {
    /// The documents not handed out yet.
    pub closed spec fn remaining(&self) -> Seq<Document> {
        self.documents@.subrange(self.index as int, self.documents@.len() as int)
    }

    pub closed spec fn wf(&self) -> bool {
        self.index <= self.documents@.len()
    }

    pub fn next(&mut self) -> (r: Option<Document>)
        requires
            old(self).wf(),
        ensures
            final(self).wf(),
            old(self).remaining().len() == 0 ==> r is None && final(self).remaining().len() == 0,
            old(self).remaining().len() > 0 ==> r == Some(old(self).remaining()[0])
                && final(self).remaining() == old(self).remaining().drop_first(),
    {
        if self.index < self.documents.len() {
            let d = self.documents[self.index].duplicate();
            self.index = self.index + 1;
            proof {
                assert(self.remaining() =~= old(self).remaining().drop_first());
            }
            Some(d)
        } else {
            None
        }
    }
}

fn copy_documents(v: &Vec<Document>) -> (r: Vec<Document>)
    ensures
        r@ == v@,
{
    let mut out: Vec<Document> = Vec::new();
    let mut i: usize = 0;
    while i < v.len()
        invariant
            i <= v@.len(),
            out@ == v@.subrange(0, i as int),
        decreases v@.len() - i,
    {
        out.push(v[i].duplicate());
        i = i + 1;
        proof {
            assert(out@ =~= v@.subrange(0, i as int));
        }
    }
    proof {
        assert(out@ =~= v@);
    }
    out
}

impl Documents {
    pub fn create() -> (r: Documents)
        ensures
            r@ == Seq::<Document>::empty(),
    {
        Documents { documents: Vec::new() }
    }

    pub fn from_vec(documents: Vec<Document>) -> (r: Documents)
        ensures
            r@ == documents@,
    {
        Documents { documents }
    }

    pub fn push(&mut self, document: Document)
        ensures
            final(self)@ == old(self)@.push(document),
    {
        self.documents.push(document);
    }

    /// Appends a copy of every document of `other`, in order.
    pub fn extend(&mut self, other: &Documents)
        ensures
            final(self)@ == old(self)@ + other@,
    {
        let mut i: usize = 0;
        while i < other.documents.len()
            invariant
                i <= other@.len(),
                self@ == old(self)@ + other@.subrange(0, i as int),
            decreases other@.len() - i,
        {
            self.documents.push(other.documents[i].duplicate());
            i = i + 1;
            proof {
                assert(self@ =~= old(self)@ + other@.subrange(0, i as int));
            }
        }
        proof {
            assert(other@.subrange(0, other@.len() as int) =~= other@);
        }
    }

    /// A snapshot of the documents.
    pub fn documents(&self) -> (r: Vec<Document>)
        ensures
            r@ == self@,
    {
        copy_documents(&self.documents)
    }

    /// Total byte size of all contents.
    pub fn size(&self) -> (r: usize)
        requires
            total_size(self@) <= usize::MAX,
        ensures
            r == total_size(self@),
    {
        let mut sum: usize = 0;
        let mut i: usize = 0;
        while i < self.documents.len()
            invariant
                i <= self@.len(),
                sum == total_size(self@.subrange(0, i as int)),
                total_size(self@) <= usize::MAX,
            decreases self@.len() - i,
        {
            proof {
                let s = self@.subrange(0, i as int + 1);
                assert(s.drop_last() =~= self@.subrange(0, i as int));
                lemma_total_size_prefix(self@, i as int + 1);
            }
            sum = sum + self.documents[i].size();
            i = i + 1;
        }
        proof {
            assert(self@.subrange(0, i as int) =~= self@);
        }
        sum
    }

    pub fn len(&self) -> (r: usize)
        ensures
            r == self@.len(),
    {
        self.documents.len()
    }

    pub fn is_empty(&self) -> (r: bool)
        ensures
            r == (self@.len() == 0),
    {
        self.documents.len() == 0
    }

    /// Iterates over a snapshot taken now; later pushes do not show in it.
    pub fn iter(&self) -> (r: DocumentsIter)
        ensures
            r.wf(),
            r.remaining() == self@,
    {
        let it = DocumentsIter { documents: copy_documents(&self.documents), index: 0 };
        proof {
            assert(it.remaining() =~= self@);
        }
        it
    }

    pub fn first(&self) -> (r: Option<Document>)
        ensures
            self@.len() == 0 ==> r is None,
            self@.len() > 0 ==> r == Some(self@[0]),
    {
        if self.documents.len() == 0 {
            None
        } else {
            Some(self.documents[0].duplicate())
        }
    }
}

impl From<Vec<Document>> for Documents {
    fn from(documents: Vec<Document>) -> (r: Documents) {
        Documents { documents }
    }
}

impl vstd::std_specs::convert::FromSpecImpl<Vec<Document>> for Documents {
    open spec fn obeys_from_spec() -> bool {
        true
    }

    closed spec fn from_spec(documents: Vec<Document>) -> Documents {
        Documents { documents }
    }
}

/// The size of a prefix is at most the size of the whole.
proof fn lemma_total_size_prefix(docs: Seq<Document>, n: int)
    requires
        0 <= n <= docs.len(),
    ensures
        total_size(docs.subrange(0, n)) <= total_size(docs),
    decreases docs.len(),
{
    if n < docs.len() {
        assert(docs.drop_last().subrange(0, n) =~= docs.subrange(0, n));
        lemma_total_size_prefix(docs.drop_last(), n);
    } else {
        assert(docs.subrange(0, n) =~= docs);
    }
}

} // verus!
