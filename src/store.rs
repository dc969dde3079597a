//! The SQL text of a vector store table: schema creation, batched inserts of
//! chunks with their embeddings, and the nearest-chunk query.
//!
//! Embeddings and the similarity threshold arrive as SQL literals already
//! printed by the caller; ids are random.

use vstd::prelude::*;
use crate::text::{views, append_str, append_char, is_lower_hex};
use crate::document::Document;
use crate::prompt::{join_with, replace_all, replace_str};

verus! {

/// The printed form of a UUID: 36 characters, hyphens at positions 8, 13, 18
/// and 23, lower-case hex digits elsewhere.
pub open spec fn uuid_shaped(s: Seq<char>) -> bool {
    &&& s.len() == 36
    &&& forall|i: int|
        0 <= i < 36 ==> if i == 8 || i == 13 || i == 18 || i == 23 {
            #[trigger] s[i] == '-'
        } else {
            is_lower_hex(s[i])
        }
}

/// Relies on `uuid::Uuid::new_v4` and its `Display` impl, which prints the
/// hyphenated lower-case form: a random id.
#[verifier::external_body]
fn random_id() -> (r: String)
    ensures
        uuid_shaped(r@),
{
    uuid::Uuid::new_v4().to_string()
}

/// `n` fresh random ids.
pub fn fresh_ids(n: usize) -> (r: Vec<String>)
    ensures
        r@.len() == n,
        forall|i: int| 0 <= i < n ==> uuid_shaped(#[trigger] r@[i]@),
{
    let mut ids: Vec<String> = Vec::new();
    let mut i: usize = 0;
    while i < n
        invariant
            i <= n,
            ids@.len() == i,
            forall|k: int| 0 <= k < i ==> uuid_shaped(#[trigger] ids@[k]@),
        decreases n - i,
    {
        ids.push(random_id());
        i = i + 1;
    }
    ids
}

/// A string literal's content with each backslash doubled and each single
/// quote preceded by a backslash.
pub open spec fn escape_sql(s: Seq<char>) -> Seq<char> {
    replace_all(replace_all(s, seq!['\\'], seq!['\\', '\\']), seq!['\''], seq!['\\', '\''])
}

/// Escapes `s` for use inside a single-quoted SQL string literal.
pub fn escape_sql_string(s: &str) -> (r: String)
    ensures
        r@ == escape_sql(s@),
{
    proof {
        reveal_strlit("\\");
        reveal_strlit("\\\\");
        reveal_strlit("'");
        reveal_strlit("\\'");
        assert("\\"@ =~= seq!['\\']);
        assert("\\\\"@ =~= seq!['\\', '\\']);
        assert("'"@ =~= seq!['\'']);
        assert("\\'"@ =~= seq!['\\', '\'']);
    }
    let once = replace_str(s, "\\", "\\\\");
    replace_str(once.as_str(), "'", "\\'")
}

#[derive(Debug, Clone, PartialEq, Eq)]
pub enum StoreError {
    /// The numbers of ids, chunks and embeddings differ.
    LengthMismatch,
}

/// Where a vector store keeps its rows.
#[derive(Debug)]
pub struct StoreTable {
    pub database: String,
    pub table: String,
}

/// The query that asks the warehouse for the embedding of `input`.
pub fn ai_embedding_sql(input: &str) -> (r: String)
    ensures
        r@ == "SELECT ai_embedding_vector('"@ + escape_sql(input@) + "')"@,
{
    let mut sql = "SELECT ai_embedding_vector('".to_owned();
    let escaped = escape_sql_string(input);
    append_str(&mut sql, escaped.as_str());
    append_str(&mut sql, "')");
    sql
}

/// The query that asks the warehouse to complete `input`.
pub fn ai_completion_sql(input: &str) -> (r: String)
    ensures
        r@ == "SELECT ai_text_completion('"@ + escape_sql(input@) + "')"@,
{
    let mut sql = "SELECT ai_text_completion('".to_owned();
    let escaped = escape_sql_string(input);
    append_str(&mut sql, escaped.as_str());
    append_str(&mut sql, "')");
    sql
}

/// The decimal digit for `d` below ten.
pub open spec fn digit_char(d: nat) -> char {
    if d == 0 { '0' } else if d == 1 { '1' } else if d == 2 { '2' } else if d == 3 { '3' }
    else if d == 4 { '4' } else if d == 5 { '5' } else if d == 6 { '6' } else if d == 7 { '7' }
    else if d == 8 { '8' } else { '9' }
}

/// `n` written in decimal, without leading zeros.
pub open spec fn decimal(n: nat) -> Seq<char>
    decreases n,
{
    if n < 10 {
        seq![digit_char(n)]
    } else {
        decimal(n / 10) + seq![digit_char(n % 10)]
    }
}

fn digit(d: usize) -> (r: char)
    requires
        d < 10,
    ensures
        r == digit_char(d as nat),
{
    if d == 0 { '0' } else if d == 1 { '1' } else if d == 2 { '2' } else if d == 3 { '3' }
    else if d == 4 { '4' } else if d == 5 { '5' } else if d == 6 { '6' } else if d == 7 { '7' }
    else if d == 8 { '8' } else { '9' }
}

/// Appends `n` in decimal.
pub fn push_decimal(out: &mut String, n: usize)
    ensures
        final(out)@ == old(out)@ + decimal(n as nat),
    decreases n,
{
    if n >= 10 {
        push_decimal(out, n / 10);
    }
    append_char(out, digit(n % 10));
    proof {
        if n >= 10 {
            assert(out@ =~= old(out)@ + decimal(n as nat));
        } else {
            assert(out@ =~= old(out)@ + decimal(n as nat));
        }
    }
}

/// One row of an insert: id, escaped path, escaped content, fingerprint and
/// embedding.
pub open spec fn row_text(id: Seq<char>, doc: Document, embedding: Seq<char>) -> Seq<char> {
    "('"@ + id + "', '"@ + escape_sql(doc.path@) + "', '"@ + escape_sql(doc.content@) + "', '"@
        + doc.content_md5@ + "', "@ + embedding + ")"@
}

/// The rows of an insert, one per chunk, the i-th id and embedding with the
/// i-th chunk.
pub open spec fn rows_text(ids: Seq<Seq<char>>, docs: Seq<Document>, embeddings: Seq<Seq<char>>) -> Seq<Seq<char>>
    recommends
        ids.len() == docs.len() && docs.len() == embeddings.len(),
{
    Seq::new(docs.len(), |i: int| row_text(ids[i], docs[i], embeddings[i]))
}

impl StoreTable {
    pub fn create() -> (r: StoreTable)
        ensures
            r.database@ == "embedding_store"@,
            r.table@ == "llmchain_collection"@,
    {
        StoreTable { database: "embedding_store".to_owned(), table: "llmchain_collection".to_owned() }
    }

    pub fn with_database(self, database: &str) -> (r: StoreTable)
        ensures
            r.database@ == database@,
            r.table == self.table,
    {
        StoreTable { database: database.to_owned(), table: self.table }
    }

    pub fn with_table(self, table: &str) -> (r: StoreTable)
        ensures
            r.database == self.database,
            r.table@ == table@,
    {
        StoreTable { database: self.database, table: table.to_owned() }
    }

    pub fn create_database_sql(&self) -> (r: String)
        ensures
            r@ == "CREATE DATABASE IF NOT EXISTS "@ + self.database@,
    {
        let mut sql = "CREATE DATABASE IF NOT EXISTS ".to_owned();
        append_str(&mut sql, self.database.as_str());
        sql
    }

    pub fn create_table_sql(&self) -> (r: String)
        ensures
            r@ == "CREATE TABLE IF NOT EXISTS "@ + self.database@ + "."@ + self.table@
                + " (uuid VARCHAR, path VARCHAR, content VARCHAR, content_md5 VARCHAR, embedding ARRAY(float32))"@,
    {
        let mut sql = "CREATE TABLE IF NOT EXISTS ".to_owned();
        append_str(&mut sql, self.database.as_str());
        append_str(&mut sql, ".");
        append_str(&mut sql, self.table.as_str());
        append_str(&mut sql, " (uuid VARCHAR, path VARCHAR, content VARCHAR, content_md5 VARCHAR, embedding ARRAY(float32))");
        sql
    }

    /// The insert of `docs`, the i-th with the i-th id and embedding literal;
    /// refused when the three lengths differ.
    pub fn insert_sql(&self, ids: &Vec<String>, docs: &Vec<Document>, embeddings: &Vec<String>) -> (r: Result<String, StoreError>)
        ensures
            (ids@.len() == docs@.len() && docs@.len() == embeddings@.len()) <==> r is Ok,
            r is Ok ==> r->Ok_0@ == "INSERT INTO "@ + self.database@ + "."@ + self.table@
                + " (uuid, path, content, content_md5, embedding) VALUES "@ + " "@
                + join_with(rows_text(views(ids@), docs@, views(embeddings@)), ","@),
    {
        if ids.len() != docs.len() || docs.len() != embeddings.len() {
            return Err(StoreError::LengthMismatch);
        }
        let mut rows: Vec<String> = Vec::new();
        let mut i: usize = 0;
        while i < docs.len()
            invariant
                i <= docs@.len(),
                ids@.len() == docs@.len(),
                docs@.len() == embeddings@.len(),
                views(rows@) == rows_text(views(ids@), docs@, views(embeddings@)).subrange(0, i as int),
            decreases docs@.len() - i,
        {
            let doc = &docs[i];
            let mut row = "('".to_owned();
            append_str(&mut row, ids[i].as_str());
            append_str(&mut row, "', '");
            let path = escape_sql_string(doc.path.as_str());
            append_str(&mut row, path.as_str());
            append_str(&mut row, "', '");
            let content = escape_sql_string(doc.content.as_str());
            append_str(&mut row, content.as_str());
            append_str(&mut row, "', '");
            append_str(&mut row, doc.content_md5.as_str());
            append_str(&mut row, "', ");
            append_str(&mut row, embeddings[i].as_str());
            append_str(&mut row, ")");
            let ghost prev = rows@;
            proof {
                assert(row@ =~= row_text(ids@[i as int]@, docs@[i as int], embeddings@[i as int]@));
            }
            rows.push(row);
            i = i + 1;
            proof {
                assert(rows@ == prev.push(row));
                assert(views(rows@) =~= views(prev).push(row@));
                assert(views(rows@) =~= rows_text(views(ids@), docs@, views(embeddings@)).subrange(0, i as int));
            }
        }
        proof {
            assert(rows_text(views(ids@), docs@, views(embeddings@)).subrange(0, i as int) =~= rows_text(views(ids@), docs@, views(embeddings@)));
        }
        let values = crate::prompt::join_strings(&rows, ",");
        let mut sql = "INSERT INTO ".to_owned();
        append_str(&mut sql, self.database.as_str());
        append_str(&mut sql, ".");
        append_str(&mut sql, self.table.as_str());
        append_str(&mut sql, " (uuid, path, content, content_md5, embedding) VALUES ");
        append_str(&mut sql, " ");
        append_str(&mut sql, values.as_str());
        Ok(sql)
    }

    /// The query for the `k` stored chunks most similar to the query
    /// embedding, scored `1 - cosine_distance`, above `min_similarity`, best
    /// first.
    pub fn similarity_sql(&self, query_embedding: &str, min_similarity: &str, k: usize) -> (r: String)
        ensures
            r@ == "SELECT path, content, content_md5, (1- cosine_distance("@ + query_embedding@
                + ", embedding)) AS similarity FROM "@ + self.database@ + "."@ + self.table@
                + " WHERE length(embedding) > 0 AND length(content) > 0 AND similarity > "@
                + min_similarity@ + " ORDER BY similarity DESC LIMIT "@ + decimal(k as nat),
    {
        let mut sql = "SELECT path, content, content_md5, (1- cosine_distance(".to_owned();
        append_str(&mut sql, query_embedding);
        append_str(&mut sql, ", embedding)) AS similarity FROM ");
        append_str(&mut sql, self.database.as_str());
        append_str(&mut sql, ".");
        append_str(&mut sql, self.table.as_str());
        append_str(&mut sql, " WHERE length(embedding) > 0 AND length(content) > 0 AND similarity > ");
        append_str(&mut sql, min_similarity);
        append_str(&mut sql, " ORDER BY similarity DESC LIMIT ");
        push_decimal(&mut sql, k);
        sql
    }
}

} // verus!
