use llmchain::document::Document;
use llmchain::store::{escape_sql_string, fresh_ids, StoreError, StoreTable};

#[test]
fn schema_statements() {
    let t = StoreTable::create();
    assert_eq!(t.create_database_sql(), "CREATE DATABASE IF NOT EXISTS embedding_store");
    assert_eq!(
        t.create_table_sql(),
        "CREATE TABLE IF NOT EXISTS embedding_store.llmchain_collection (uuid VARCHAR, path VARCHAR, content VARCHAR, content_md5 VARCHAR, embedding ARRAY(float32))"
    );
    let t = t.with_database("db").with_table("t");
    assert_eq!(t.create_database_sql(), "CREATE DATABASE IF NOT EXISTS db");
}

#[test]
fn escaping() {
    assert_eq!(escape_sql_string("it's"), "it\\'s");
    assert_eq!(escape_sql_string("a\\b"), "a\\\\b");
    assert_eq!(escape_sql_string("\\'"), "\\\\\\'");
    assert_eq!(escape_sql_string("plain"), "plain");
}

#[test]
fn insert_pairs_rows_in_order() {
    let t = StoreTable::create().with_database("db").with_table("t");
    let docs = vec![Document::create("1.md", "hello"), Document::create("2.md", "it's")];
    let ids = vec!["id1".to_string(), "id2".to_string()];
    let embs = vec!["[1.0]".to_string(), "[2.0]".to_string()];
    let sql = t.insert_sql(&ids, &docs, &embs).unwrap();
    assert_eq!(
        sql,
        format!(
            "INSERT INTO db.t (uuid, path, content, content_md5, embedding) VALUES  ('id1', '1.md', 'hello', '{}', [1.0]),('id2', '2.md', 'it\\'s', '{}', [2.0])",
            docs[0].content_md5, docs[1].content_md5
        )
    );
    assert_eq!(t.insert_sql(&ids, &docs, &vec!["[1.0]".to_string()]), Err(StoreError::LengthMismatch));
}

#[test]
fn similarity_query() {
    let t = StoreTable::create();
    assert_eq!(
        t.similarity_sql("[0.5, 0.25]", "0.5", 12),
        "SELECT path, content, content_md5, (1- cosine_distance([0.5, 0.25], embedding)) AS similarity FROM embedding_store.llmchain_collection WHERE length(embedding) > 0 AND length(content) > 0 AND similarity > 0.5 ORDER BY similarity DESC LIMIT 12"
    );
    assert!(t.similarity_sql("[]", "0.5", 0).ends_with("LIMIT 0"));
    assert!(t.similarity_sql("[]", "0.5", 1234567).ends_with("LIMIT 1234567"));
}

#[test]
fn ids_are_fresh() {
    let ids = fresh_ids(3);
    assert_eq!(ids.len(), 3);
    assert_ne!(ids[0], ids[1]);
    for id in &ids {
        assert_eq!(id.len(), 36);
        for (i, c) in id.chars().enumerate() {
            if [8, 13, 18, 23].contains(&i) {
                assert_eq!(c, '-');
            } else {
                assert!(c.is_ascii_digit() || ('a'..='f').contains(&c));
            }
        }
    }
}
