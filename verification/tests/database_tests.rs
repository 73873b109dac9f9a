use root_core::database::{
    active_paths_statement, folder_by_path_statement, folder_exists_statement, remove_document_statement,
    remove_folder_statement, save_document_statement, status_statement, upsert_folder_statement,
    ACTIVE_PATHS_SQL, DELETE_DOCUMENT_SQL, DELETE_FOLDER_SQL, FOLDER_BY_PATH_SQL, FOLDER_EXISTS_SQL,
    SET_STATUS_SQL, UPSERT_DOCUMENT_SQL, UPSERT_FOLDER_SQL,
};
use root_core::database::first_folder;
use root_core::database::{
    add_folder, escape_like, get_active_paths_for_folder, like_pattern, mark_document_status,
    prepare_schema, query_documents, query_documents_like, remove_document, remove_folder,
    save_document, get_folders, document_from_row, document_params, DocumentRecord, PathSet,
};
use root_core::database::{documents_statement, search_statement, ALL_DOCUMENTS_SQL, DOCUMENTS_IN_FOLDER_SQL, SEARCH_ALL_SQL, SEARCH_IN_FOLDER_SQL};
use root_core::sql::{push_decimal, DbError, SqlParam, SqlValue};
use rusqlite::Connection;

fn test_conn() -> Connection {
    let conn = Connection::open_in_memory().unwrap();
    conn.execute_batch("PRAGMA foreign_keys = ON;").unwrap();
    conn.execute_batch(
        "CREATE TABLE watched_folders (
            id INTEGER PRIMARY KEY AUTOINCREMENT,
            path TEXT NOT NULL UNIQUE,
            created_at INTEGER NOT NULL,
            updated_at INTEGER NOT NULL
        );
        CREATE TABLE documents (
            id INTEGER PRIMARY KEY AUTOINCREMENT,
            watched_folder_id INTEGER NOT NULL,
            path TEXT NOT NULL UNIQUE,
            filename TEXT NOT NULL,
            extension TEXT NOT NULL,
            size INTEGER NOT NULL,
            created_at INTEGER NOT NULL,
            modified_at INTEGER NOT NULL,
            indexed_at INTEGER NOT NULL,
            status TEXT NOT NULL DEFAULT 'ACTIVE',
            FOREIGN KEY(watched_folder_id) REFERENCES watched_folders(id) ON DELETE CASCADE
        );",
    )
    .unwrap();
    conn
}

fn insert_folder(conn: &Connection, path: &str) -> i64 {
    conn.execute(
        "INSERT INTO watched_folders (path, created_at, updated_at) VALUES (?1, 0, 0)",
        [path],
    )
    .unwrap();
    conn.last_insert_rowid()
}

fn make_doc(folder_id: i64, path: &str) -> DocumentRecord {
    DocumentRecord {
        id: 0,
        watched_folder_id: folder_id,
        path: path.to_string(),
        filename: "file.pdf".to_string(),
        extension: "pdf".to_string(),
        size: 512,
        created_at: 100,
        modified_at: 200,
        indexed_at: 300,
        status: "ACTIVE".to_string(),
    }
}

fn count_documents(conn: &Connection) -> i64 {
    conn.query_row("SELECT COUNT(*) FROM documents", [], |r| r.get(0)).unwrap()
}

#[test]
fn test_save_document_inserts() {
    let conn = test_conn();
    let fid = insert_folder(&conn, "/tmp/f");
    let doc = make_doc(fid, "/tmp/f/a.pdf");
    save_document(&conn, &doc).unwrap();
    let count: i64 = conn
        .query_row("SELECT COUNT(*) FROM documents", [], |r| r.get(0))
        .unwrap();
    assert_eq!(count, 1);
}

#[test]
fn test_save_document_upsert_same_path() {
    let conn = test_conn();
    let fid = insert_folder(&conn, "/tmp/f");
    let mut doc = make_doc(fid, "/tmp/f/a.pdf");
    save_document(&conn, &doc).unwrap();
    doc.size = 9999;
    doc.modified_at = 999;
    save_document(&conn, &doc).unwrap();
    let count: i64 = conn
        .query_row("SELECT COUNT(*) FROM documents", [], |r| r.get(0))
        .unwrap();
    assert_eq!(count, 1);
    let (size, modified): (i64, i64) = conn
        .query_row(
            "SELECT size, modified_at FROM documents WHERE path = '/tmp/f/a.pdf'",
            [],
            |r| Ok((r.get(0)?, r.get(1)?)),
        )
        .unwrap();
    assert_eq!(size, 9999);
    assert_eq!(modified, 999);
}

#[test]
fn test_mark_document_status_missing() {
    let conn = test_conn();
    let fid = insert_folder(&conn, "/tmp/f");
    save_document(&conn, &make_doc(fid, "/tmp/f/a.pdf")).unwrap();
    mark_document_status(&conn, "/tmp/f/a.pdf", "MISSING").unwrap();
    let status: String = conn
        .query_row(
            "SELECT status FROM documents WHERE path = '/tmp/f/a.pdf'",
            [],
            |r| r.get(0),
        )
        .unwrap();
    assert_eq!(status, "MISSING");
}

#[test]
fn test_get_active_paths_excludes_missing() {
    let conn = test_conn();
    let fid = insert_folder(&conn, "/tmp/f");
    save_document(&conn, &make_doc(fid, "/tmp/f/a.pdf")).unwrap();
    save_document(&conn, &make_doc(fid, "/tmp/f/b.pdf")).unwrap();
    mark_document_status(&conn, "/tmp/f/b.pdf", "MISSING").unwrap();
    let active = get_active_paths_for_folder(&conn, fid).unwrap();
    assert!(active.contains("/tmp/f/a.pdf"));
    assert!(!active.contains("/tmp/f/b.pdf"));
}

#[test]
fn test_remove_folder_cascades_documents() {
    let conn = test_conn();
    let fid = insert_folder(&conn, "/tmp/f");
    save_document(&conn, &make_doc(fid, "/tmp/f/a.pdf")).unwrap();
    remove_folder(&conn, fid).unwrap();
    let count: i64 = conn
        .query_row("SELECT COUNT(*) FROM documents", [], |r| r.get(0))
        .unwrap();
    assert_eq!(count, 0);
}

#[test]
fn test_query_documents_like_case_insensitive() {
    let conn = test_conn();
    let fid = insert_folder(&conn, "/tmp/f");
    let mut doc = make_doc(fid, "/tmp/f/Report_2024.pdf");
    doc.filename = "Report_2024.pdf".to_string();
    save_document(&conn, &doc).unwrap();
    let results = query_documents_like(&conn, "report", Some(fid)).unwrap();
    assert_eq!(results.len(), 1);
    let results_upper = query_documents_like(&conn, "REPORT", Some(fid)).unwrap();
    assert_eq!(results_upper.len(), 1);
}

#[test]
fn test_query_documents_excludes_missing() {
    let conn = test_conn();
    let fid = insert_folder(&conn, "/tmp/f");
    save_document(&conn, &make_doc(fid, "/tmp/f/a.pdf")).unwrap();
    save_document(&conn, &make_doc(fid, "/tmp/f/b.pdf")).unwrap();
    mark_document_status(&conn, "/tmp/f/b.pdf", "MISSING").unwrap();
    let docs = query_documents(&conn, Some(fid)).unwrap();
    assert_eq!(docs.len(), 1);
    assert_eq!(docs[0].path, "/tmp/f/a.pdf");
}

#[test]
fn test_add_folder_idempotent() {
    let conn = test_conn();
    let f1 = add_folder(&conn, "/tmp/f").unwrap();
    let f2 = add_folder(&conn, "/tmp/f").unwrap();
    assert_eq!(f1.id, f2.id);
}

#[test]
fn test_query_like_escapes_special_characters() {
    let conn = test_conn();
    let fid = insert_folder(&conn, "/tmp/f");
    let mut doc = make_doc(fid, "/tmp/f/100%_done.pdf");
    doc.filename = "100%_done.pdf".to_string();
    save_document(&conn, &doc).unwrap();
    let results = query_documents_like(&conn, "100%", Some(fid)).unwrap();
    assert_eq!(results.len(), 1);
    assert_eq!(results[0].filename, "100%_done.pdf");
}

// ── Further scenarios ────────────────────────────────────────────────────────

#[test]
fn escape_like_prefixes_each_special_character() {
    assert_eq!(escape_like("a%b_c\\d"), "a\\%b\\_c\\\\d");
    assert_eq!(escape_like("plain"), "plain");
    assert_eq!(escape_like(""), "");
}

#[test]
fn like_pattern_lowercases_and_wraps_in_wildcards() {
    assert_eq!(like_pattern("Report"), "%report%");
    assert_eq!(like_pattern("100%"), "%100\\%%");
    assert_eq!(like_pattern("ÄBC"), "%äbc%");
}

#[test]
fn query_like_wildcard_characters_match_literally() {
    let conn = test_conn();
    let fid = insert_folder(&conn, "/tmp/f");
    let mut a = make_doc(fid, "/tmp/f/a_b.pdf");
    a.filename = "a_b.pdf".to_string();
    let mut b = make_doc(fid, "/tmp/f/axb.pdf");
    b.filename = "axb.pdf".to_string();
    save_document(&conn, &a).unwrap();
    save_document(&conn, &b).unwrap();
    let results = query_documents_like(&conn, "a_b", None).unwrap();
    assert_eq!(results.len(), 1);
    assert_eq!(results[0].filename, "a_b.pdf");
}

#[test]
fn query_documents_orders_by_most_recent_modification() {
    let conn = test_conn();
    let fid = insert_folder(&conn, "/tmp/f");
    let mut old = make_doc(fid, "/tmp/f/old.pdf");
    old.modified_at = 10;
    let mut new = make_doc(fid, "/tmp/f/new.pdf");
    new.modified_at = 20;
    save_document(&conn, &old).unwrap();
    save_document(&conn, &new).unwrap();
    let docs = query_documents(&conn, None).unwrap();
    assert_eq!(docs.len(), 2);
    assert_eq!(docs[0].path, "/tmp/f/new.pdf");
    assert_eq!(docs[1].path, "/tmp/f/old.pdf");
}

#[test]
fn saved_document_reads_back_unchanged() {
    let conn = test_conn();
    let fid = insert_folder(&conn, "/tmp/f");
    let mut doc = make_doc(fid, "/tmp/f/big.pdf");
    doc.size = u64::MAX;
    save_document(&conn, &doc).unwrap();
    let docs = query_documents(&conn, Some(fid)).unwrap();
    assert_eq!(docs.len(), 1);
    assert_eq!(docs[0].size, u64::MAX);
    assert_eq!(docs[0].filename, "file.pdf");
    assert_eq!(docs[0].created_at, 100);
    assert_eq!(docs[0].indexed_at, 300);
    assert_eq!(docs[0].status, "ACTIVE");
    assert!(docs[0].id > 0);
}

#[test]
fn upsert_keeps_creation_time_and_folder() {
    let conn = test_conn();
    let fid = insert_folder(&conn, "/tmp/f");
    let fid2 = insert_folder(&conn, "/tmp/g");
    let mut doc = make_doc(fid, "/tmp/f/a.pdf");
    save_document(&conn, &doc).unwrap();
    doc.created_at = 5;
    doc.watched_folder_id = fid2;
    save_document(&conn, &doc).unwrap();
    let docs = query_documents(&conn, Some(fid)).unwrap();
    assert_eq!(docs.len(), 1);
    assert_eq!(docs[0].created_at, 100);
}

#[test]
fn remove_document_deletes_row() {
    let conn = test_conn();
    let fid = insert_folder(&conn, "/tmp/f");
    save_document(&conn, &make_doc(fid, "/tmp/f/a.pdf")).unwrap();
    let id = query_documents(&conn, Some(fid)).unwrap()[0].id;
    remove_document(&conn, id).unwrap();
    assert_eq!(count_documents(&conn), 0);
}

#[test]
fn remove_unknown_folder_is_not_an_error() {
    let conn = test_conn();
    assert!(remove_folder(&conn, 42).is_ok());
}

#[test]
fn get_folders_lists_by_id() {
    let conn = test_conn();
    let a = add_folder(&conn, "/tmp/a").unwrap();
    let b = add_folder(&conn, "/tmp/b").unwrap();
    let folders = get_folders(&conn).unwrap();
    assert_eq!(folders.len(), 2);
    assert_eq!(folders[0].id, a.id);
    assert_eq!(folders[0].path, "/tmp/a");
    assert_eq!(folders[1].id, b.id);
}

#[test]
fn prepare_schema_creates_tables_once() {
    let conn = Connection::open_in_memory().unwrap();
    prepare_schema(&conn).unwrap();
    prepare_schema(&conn).unwrap();
    let f = add_folder(&conn, "/tmp/x").unwrap();
    assert_eq!(f.path, "/tmp/x");
}

#[test]
fn save_document_without_folder_fails_with_foreign_keys() {
    let conn = test_conn();
    let result = save_document(&conn, &make_doc(77, "/tmp/nowhere/a.pdf"));
    assert!(matches!(result, Err(DbError::Sql(_))));
}

#[test]
fn document_row_with_wrong_column_type_is_rejected() {
    let row = vec![
        SqlValue::Integer(1),
        SqlValue::Text("oops".to_string()),
        SqlValue::Text("/p".to_string()),
    ];
    match document_from_row(&row) {
        Err(DbError::Column { index }) => assert_eq!(index, 1),
        other => panic!("unexpected {other:?}"),
    }
}

#[test]
fn document_params_store_size_as_signed_integer() {
    let mut doc = make_doc(3, "/tmp/f/a.pdf");
    doc.size = u64::MAX;
    let params = document_params(&doc);
    assert_eq!(params.len(), 9);
    match &params[4] {
        SqlParam::Integer(v) => assert_eq!(*v, -1),
        other => panic!("unexpected {other:?}"),
    }
    match &params[0] {
        SqlParam::Integer(v) => assert_eq!(*v, 3),
        other => panic!("unexpected {other:?}"),
    }
}

#[test]
fn path_set_ignores_duplicates() {
    let mut set = PathSet::new();
    assert!(set.insert("/a".to_string()));
    assert!(!set.insert("/a".to_string()));
    assert!(set.insert("/b".to_string()));
    assert_eq!(set.len(), 2);
    assert!(set.contains("/b"));
    assert!(!set.contains("/c"));
}

#[test]
fn document_listing_statement_binds_the_folder() {
    let (sql, params) = documents_statement(Some(4));
    assert_eq!(sql, DOCUMENTS_IN_FOLDER_SQL);
    assert!(matches!(&params[..], [SqlParam::Integer(4)]));
    let (sql, params) = documents_statement(None);
    assert_eq!(sql, ALL_DOCUMENTS_SQL);
    assert!(params.is_empty());
}

#[test]
fn search_statement_binds_the_escaped_query() {
    let (sql, params) = search_statement("50%_a", Some(2));
    assert_eq!(sql, SEARCH_IN_FOLDER_SQL);
    match &params[..] {
        [SqlParam::Integer(2), SqlParam::Text(p)] => assert_eq!(p, "%50\\%\\_a%"),
        other => panic!("unexpected {other:?}"),
    }
    let (sql, params) = search_statement("x", None);
    assert_eq!(sql, SEARCH_ALL_SQL);
    match &params[..] {
        [SqlParam::Text(p)] => assert_eq!(p, "%x%"),
        other => panic!("unexpected {other:?}"),
    }
}

#[test]
fn error_messages_name_what_went_wrong() {
    assert_eq!(DbError::Column { index: 12 }.message(), "Invalid column value at index: 12");
    assert_eq!(DbError::Column { index: 0 }.message(), "Invalid column value at index: 0");
    assert_eq!(DbError::NoRows.message(), "Query returned no rows");
    assert_eq!(DbError::TooManyRows.message(), "Query returned too many rows");
    let conn = Connection::open_in_memory().unwrap();
    let err = get_folders(&conn).unwrap_err();
    assert!(err.message().contains("no such table"));
}

#[test]
fn decimal_digits_are_written_in_order() {
    let mut s = String::from("n=");
    push_decimal(&mut s, 1_234_509);
    assert_eq!(s, "n=1234509");
    let mut z = String::new();
    push_decimal(&mut z, 0);
    assert_eq!(z, "0");
}

#[test]
fn write_statements_bind_their_values_in_order() {
    let (sql, p) = status_statement("/d/a.pdf", "MISSING");
    assert_eq!(sql, SET_STATUS_SQL);
    assert!(matches!(&p[..], [SqlParam::Text(s), SqlParam::Text(q)] if s == "MISSING" && q == "/d/a.pdf"));
    let (sql, p) = remove_document_statement(7);
    assert_eq!(sql, DELETE_DOCUMENT_SQL);
    assert!(matches!(&p[..], [SqlParam::Integer(7)]));
    let (sql, p) = remove_folder_statement(8);
    assert_eq!(sql, DELETE_FOLDER_SQL);
    assert!(matches!(&p[..], [SqlParam::Integer(8)]));
    let (sql, p) = active_paths_statement(9);
    assert_eq!(sql, ACTIVE_PATHS_SQL);
    assert!(matches!(&p[..], [SqlParam::Integer(9)]));
    let (sql, p) = folder_exists_statement(10);
    assert_eq!(sql, FOLDER_EXISTS_SQL);
    assert!(matches!(&p[..], [SqlParam::Integer(10)]));
    let (sql, p) = folder_by_path_statement("/d");
    assert_eq!(sql, FOLDER_BY_PATH_SQL);
    assert!(matches!(&p[..], [SqlParam::Text(s)] if s == "/d"));
    let (sql, p) = upsert_folder_statement("/d", 5);
    assert_eq!(sql, UPSERT_FOLDER_SQL);
    assert!(matches!(&p[..], [SqlParam::Text(s), SqlParam::Integer(5), SqlParam::Integer(5)] if s == "/d"));
    let doc = DocumentRecord {
        id: 0,
        watched_folder_id: 3,
        path: "/d/a.pdf".to_string(),
        filename: "a.pdf".to_string(),
        extension: "pdf".to_string(),
        size: 1,
        created_at: 2,
        modified_at: 3,
        indexed_at: 4,
        status: "ACTIVE".to_string(),
    };
    let (sql, p) = save_document_statement(&doc);
    assert_eq!(sql, UPSERT_DOCUMENT_SQL);
    assert_eq!(p.len(), 9);
    assert!(matches!(&p[0], SqlParam::Integer(3)));
}

#[test]
fn first_folder_needs_a_row() {
    assert!(matches!(first_folder(&vec![]), Err(DbError::NoRows)));
    let row = vec![
        SqlValue::Integer(4),
        SqlValue::Text("/d".to_string()),
        SqlValue::Integer(1),
        SqlValue::Integer(2),
    ];
    let f = first_folder(&vec![row]).unwrap();
    assert_eq!(f.id, 4);
    assert_eq!(f.path, "/d");
    let bad = vec![SqlValue::Integer(4), SqlValue::Null, SqlValue::Integer(1), SqlValue::Integer(2)];
    assert!(matches!(first_folder(&vec![bad]), Err(DbError::Column { index: 1 })));
}
