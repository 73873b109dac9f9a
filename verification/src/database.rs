//! The document database: watched folders and the documents found in them.
//! The statements are this library's own; rows are encoded into parameters
//! and decoded from values by verified functions.

use vstd::prelude::*;

pub use crate::clock::current_timestamp;

use rusqlite::Connection;

use crate::paths::copy_string;
use crate::sql::{execute, execute_batch, fetch_rows, DbError, SqlParam, SqlParamView, SqlValue};
use crate::text::{chars_of, push_char, same_text, to_lowercase, unicode_lowercase};

verus! {

/// A folder whose documents are indexed.
#[derive(Clone, Debug)]
pub struct WatchedFolder {
    pub id: i64,
    pub path: String,
    pub created_at: i64,
    pub updated_at: i64,
}

pub struct WatchedFolderView {
    pub id: i64,
    pub path: Seq<char>,
    pub created_at: i64,
    pub updated_at: i64,
}

impl View for WatchedFolder {
    type V = WatchedFolderView;

    open spec fn view(&self) -> WatchedFolderView {
        WatchedFolderView {
            id: self.id,
            path: self.path@,
            created_at: self.created_at,
            updated_at: self.updated_at,
        }
    }
}

/// A document found in a watched folder. `status` is `"ACTIVE"`,
/// `"MISSING"` or `"IGNORED"`.
#[derive(Clone, Debug)]
pub struct DocumentRecord {
    pub id: i64,
    pub watched_folder_id: i64,
    pub path: String,
    pub filename: String,
    pub extension: String,
    pub size: u64,
    pub created_at: i64,
    pub modified_at: i64,
    pub indexed_at: i64,
    pub status: String,
}

pub struct DocumentView {
    pub id: i64,
    pub watched_folder_id: i64,
    pub path: Seq<char>,
    pub filename: Seq<char>,
    pub extension: Seq<char>,
    pub size: u64,
    pub created_at: i64,
    pub modified_at: i64,
    pub indexed_at: i64,
    pub status: Seq<char>,
}

impl View for DocumentRecord {
    type V = DocumentView;

    open spec fn view(&self) -> DocumentView {
        DocumentView {
            id: self.id,
            watched_folder_id: self.watched_folder_id,
            path: self.path@,
            filename: self.filename@,
            extension: self.extension@,
            size: self.size,
            created_at: self.created_at,
            modified_at: self.modified_at,
            indexed_at: self.indexed_at,
            status: self.status@,
        }
    }
}

pub const STATUS_ACTIVE: &'static str = "ACTIVE";

pub const STATUS_MISSING: &'static str = "MISSING";

pub const PRAGMAS_SQL: &'static str = "
        PRAGMA journal_mode = WAL;
        PRAGMA foreign_keys = ON;
        ";

pub const SCHEMA_SQL: &'static str = "
        CREATE TABLE IF NOT EXISTS watched_folders (
            id INTEGER PRIMARY KEY AUTOINCREMENT,
            path TEXT NOT NULL UNIQUE,
            created_at INTEGER NOT NULL,
            updated_at INTEGER NOT NULL
        );

        CREATE TABLE IF NOT EXISTS documents (
            id INTEGER PRIMARY KEY AUTOINCREMENT,
            watched_folder_id INTEGER NOT NULL,
            path TEXT NOT NULL UNIQUE,
            filename TEXT NOT NULL,
            extension TEXT NOT NULL,
            size INTEGER NOT NULL,
            created_at INTEGER NOT NULL,
            modified_at INTEGER NOT NULL,
            indexed_at INTEGER NOT NULL,
            status TEXT NOT NULL DEFAULT 'ACTIVE',
            FOREIGN KEY(watched_folder_id) REFERENCES watched_folders(id) ON DELETE CASCADE
        );

        CREATE INDEX IF NOT EXISTS idx_documents_watched_folder ON documents(watched_folder_id);
        CREATE INDEX IF NOT EXISTS idx_documents_filename       ON documents(filename ASC);
        CREATE INDEX IF NOT EXISTS idx_documents_status        ON documents(status);

        DROP TABLE IF EXISTS app_settings;
        ";

pub const UPSERT_FOLDER_SQL: &'static str =
    "INSERT INTO watched_folders (path, created_at, updated_at) VALUES (?1, ?2, ?3)
         ON CONFLICT(path) DO UPDATE SET updated_at = ?3";

pub const FOLDER_BY_PATH_SQL: &'static str =
    "SELECT id, path, created_at, updated_at FROM watched_folders WHERE path = ?1";

pub const ALL_FOLDERS_SQL: &'static str =
    "SELECT id, path, created_at, updated_at FROM watched_folders ORDER BY id ASC";

pub const DELETE_FOLDER_SQL: &'static str = "DELETE FROM watched_folders WHERE id = ?1";

pub const UPSERT_DOCUMENT_SQL: &'static str = "INSERT INTO documents
            (watched_folder_id, path, filename, extension, size, created_at, modified_at, indexed_at, status)
         VALUES
            (?1, ?2, ?3, ?4, ?5, ?6, ?7, ?8, ?9)
         ON CONFLICT(path) DO UPDATE SET
            filename    = ?3,
            extension   = ?4,
            size        = ?5,
            modified_at = ?7,
            indexed_at  = ?8,
            status      = ?9";

pub const ACTIVE_PATHS_SQL: &'static str =
    "SELECT path, watched_folder_id, status FROM documents WHERE watched_folder_id = ?1 AND status = 'ACTIVE'";

pub const SET_STATUS_SQL: &'static str = "UPDATE documents SET status = ?1 WHERE path = ?2";

pub const DELETE_DOCUMENT_SQL: &'static str = "DELETE FROM documents WHERE id = ?1";

pub const DOCUMENTS_IN_FOLDER_SQL: &'static str =
    "SELECT id, watched_folder_id, path, filename, extension, size,
                        created_at, modified_at, indexed_at, status
                 FROM documents
                 WHERE watched_folder_id = ?1 AND status = 'ACTIVE'
                 ORDER BY modified_at DESC";

pub const ALL_DOCUMENTS_SQL: &'static str =
    "SELECT id, watched_folder_id, path, filename, extension, size,
                        created_at, modified_at, indexed_at, status
                 FROM documents
                 WHERE status = 'ACTIVE'
                 ORDER BY modified_at DESC";

pub const SEARCH_IN_FOLDER_SQL: &'static str =
    "SELECT id, watched_folder_id, path, filename, extension, size,
                        created_at, modified_at, indexed_at, status
                 FROM documents
                 WHERE watched_folder_id = ?1
                   AND LOWER(filename) LIKE ?2 ESCAPE '\\'
                   AND status = 'ACTIVE'
                 ORDER BY modified_at DESC";

pub const SEARCH_ALL_SQL: &'static str =
    "SELECT id, watched_folder_id, path, filename, extension, size,
                        created_at, modified_at, indexed_at, status
                 FROM documents
                 WHERE LOWER(filename) LIKE ?1 ESCAPE '\\'
                   AND status = 'ACTIVE'
                 ORDER BY modified_at DESC";

pub const FOLDER_EXISTS_SQL: &'static str =
    "SELECT EXISTS(SELECT 1 FROM watched_folders WHERE id = ?1)";

pub const ALL_FOLDER_PATHS_SQL: &'static str = "SELECT id, path FROM watched_folders";

pub const BEGIN_SQL: &'static str = "BEGIN IMMEDIATE";

pub const COMMIT_SQL: &'static str = "COMMIT";

pub const ROLLBACK_SQL: &'static str = "ROLLBACK";

// ─── Decoding values ────────────────────────────────────────────────────────

/// The integer in column `i` of `row`, if it holds one.
pub open spec fn int_at(row: Seq<SqlValue>, i: int) -> Option<i64> {
    if 0 <= i < row.len() {
        match row[i] {
            SqlValue::Integer(v) => Some(v),
            _ => None,
        }
    } else {
        None
    }
}

/// The text in column `i` of `row`, if it holds one.
pub open spec fn text_at(row: Seq<SqlValue>, i: int) -> Option<Seq<char>> {
    if 0 <= i < row.len() {
        match row[i] {
            SqlValue::Text(s) => Some(s@),
            _ => None,
        }
    } else {
        None
    }
}

pub fn integer_column(row: &Vec<SqlValue>, i: usize) -> (r: Result<i64, DbError>)
    ensures
        match r {
            Ok(v) => int_at(row@, i as int) == Some(v),
            Err(e) => int_at(row@, i as int) is None && e == (DbError::Column { index: i }),
        },
{
    if i < row.len() {
        match &row[i] {
            SqlValue::Integer(v) => Ok(*v),
            _ => Err(DbError::Column { index: i }),
        }
    } else {
        Err(DbError::Column { index: i })
    }
}

pub fn text_column(row: &Vec<SqlValue>, i: usize) -> (r: Result<String, DbError>)
    ensures
        match r {
            Ok(s) => text_at(row@, i as int) == Some(s@),
            Err(e) => text_at(row@, i as int) is None && e == (DbError::Column { index: i }),
        },
{
    if i < row.len() {
        match &row[i] {
            SqlValue::Text(s) => Ok(copy_string(s)),
            _ => Err(DbError::Column { index: i }),
        }
    } else {
        Err(DbError::Column { index: i })
    }
}

/// The first of the columns `0..n` of `row` that does not hold a value of
/// the kind `kinds` asks for (`true`: integer, `false`: text).
pub open spec fn first_bad_column(row: Seq<SqlValue>, kinds: Seq<bool>, n: int) -> Option<int>
    decreases n,
{
    if n <= 0 {
        None
    } else {
        match first_bad_column(row, kinds, n - 1) {
            Some(c) => Some(c),
            None => {
                let ok = if kinds[n - 1] {
                    int_at(row, n - 1) is Some
                } else {
                    text_at(row, n - 1) is Some
                };
                if ok {
                    None
                } else {
                    Some(n - 1)
                }
            },
        }
    }
}

/// Column kinds of a folder row: id, path, created_at, updated_at.
pub open spec fn folder_kinds() -> Seq<bool> {
    seq![true, false, true, true]
}

/// Column kinds of a document row.
pub open spec fn document_kinds() -> Seq<bool> {
    seq![true, true, false, false, false, true, true, true, true, false]
}

/// The folder a row describes, or the first column that cannot be read.
pub open spec fn spec_folder_from_row(row: Seq<SqlValue>) -> Result<WatchedFolderView, usize> {
    match first_bad_column(row, folder_kinds(), 4) {
        Some(c) => Err(c as usize),
        None => Ok(
            WatchedFolderView {
                id: int_at(row, 0)->0,
                path: text_at(row, 1)->0,
                created_at: int_at(row, 2)->0,
                updated_at: int_at(row, 3)->0,
            },
        ),
    }
}

/// The document a row describes, or the first column that cannot be read.
/// The size is stored as a signed integer and read back as unsigned.
pub open spec fn spec_document_from_row(row: Seq<SqlValue>) -> Result<DocumentView, usize> {
    match first_bad_column(row, document_kinds(), 10) {
        Some(c) => Err(c as usize),
        None => Ok(
            DocumentView {
                id: int_at(row, 0)->0,
                watched_folder_id: int_at(row, 1)->0,
                path: text_at(row, 2)->0,
                filename: text_at(row, 3)->0,
                extension: text_at(row, 4)->0,
                size: int_at(row, 5)->0 as u64,
                created_at: int_at(row, 6)->0,
                modified_at: int_at(row, 7)->0,
                indexed_at: int_at(row, 8)->0,
                status: text_at(row, 9)->0,
            },
        ),
    }
}

/// Decodes a row of `ALL_FOLDERS_SQL` or `FOLDER_BY_PATH_SQL`.
pub fn folder_from_row(row: &Vec<SqlValue>) -> (r: Result<WatchedFolder, DbError>)
    ensures
        match (r, spec_folder_from_row(row@)) {
            (Ok(f), Ok(v)) => f@ == v,
            (Err(e), Err(c)) => e == (DbError::Column { index: c }),
            _ => false,
        },
{
    reveal_with_fuel(first_bad_column, 5);
    let id = integer_column(row, 0)?;
    let path = text_column(row, 1)?;
    let created_at = integer_column(row, 2)?;
    let updated_at = integer_column(row, 3)?;
    Ok(WatchedFolder { id, path, created_at, updated_at })
}

/// Decodes a row of the document queries.
pub fn document_from_row(row: &Vec<SqlValue>) -> (r: Result<DocumentRecord, DbError>)
    ensures
        match (r, spec_document_from_row(row@)) {
            (Ok(d), Ok(v)) => d@ == v,
            (Err(e), Err(c)) => e == (DbError::Column { index: c }),
            _ => false,
        },
{
    reveal_with_fuel(first_bad_column, 11);
    let id = integer_column(row, 0)?;
    let watched_folder_id = integer_column(row, 1)?;
    let path = text_column(row, 2)?;
    let filename = text_column(row, 3)?;
    let extension = text_column(row, 4)?;
    let size = integer_column(row, 5)?;
    let created_at = integer_column(row, 6)?;
    let modified_at = integer_column(row, 7)?;
    let indexed_at = integer_column(row, 8)?;
    let status = text_column(row, 9)?;
    Ok(
        DocumentRecord {
            id,
            watched_folder_id,
            path,
            filename,
            extension,
            size: size as u64,
            created_at,
            modified_at,
            indexed_at,
            status,
        },
    )
}

/// Decodes every row, stopping at the first that cannot be decoded.
pub open spec fn spec_documents_from_rows(rows: Seq<Vec<SqlValue>>) -> Result<Seq<DocumentView>, usize>
    decreases rows.len(),
{
    if rows.len() == 0 {
        Ok(Seq::empty())
    } else {
        match spec_documents_from_rows(rows.drop_last()) {
            Err(c) => Err(c),
            Ok(docs) => match spec_document_from_row(rows.last()@) {
                Err(c) => Err(c),
                Ok(d) => Ok(docs.push(d)),
            },
        }
    }
}

pub fn documents_from_rows(rows: &Vec<Vec<SqlValue>>) -> (r: Result<Vec<DocumentRecord>, DbError>)
    ensures
        match (r, spec_documents_from_rows(rows@)) {
            (Ok(docs), Ok(v)) => docs@.map_values(|d: DocumentRecord| d@) == v,
            (Err(e), Err(c)) => e == (DbError::Column { index: c }),
            _ => false,
        },
{
    let mut docs: Vec<DocumentRecord> = Vec::new();
    let mut i: usize = 0;
    assert(rows@.take(0) =~= Seq::<Vec<SqlValue>>::empty());
    assert(docs@.map_values(|d: DocumentRecord| d@) =~= Seq::<DocumentView>::empty());
    while i < rows.len()
        invariant
            i <= rows.len(),
            spec_documents_from_rows(rows@.take(i as int)) == Ok::<Seq<DocumentView>, usize>(
                docs@.map_values(|d: DocumentRecord| d@),
            ),
        decreases rows.len() - i,
    {
        assert(rows@.take(i + 1).drop_last() =~= rows@.take(i as int));
        assert(rows@.take(i + 1).last() == rows@[i as int]);
        match document_from_row(&rows[i]) {
            Ok(d) => {
                let ghost before = docs@;
                docs.push(d);
                assert(docs@.map_values(|d: DocumentRecord| d@) =~= before.map_values(
                    |d: DocumentRecord| d@,
                ).push(d@));
            },
            Err(e) => {
                proof {
                    lemma_documents_error_persists(rows@, i as int + 1);
                }
                return Err(e);
            },
        }
        i = i + 1;
    }
    assert(rows@.take(rows.len() as int) =~= rows@);
    Ok(docs)
}

proof fn lemma_documents_error_persists(rows: Seq<Vec<SqlValue>>, n: int)
    requires
        0 <= n <= rows.len(),
        spec_documents_from_rows(rows.take(n)) is Err,
    ensures
        spec_documents_from_rows(rows) == spec_documents_from_rows(rows.take(n)),
    decreases rows.len() - n,
{
    if n < rows.len() {
        assert(rows.take(n + 1).drop_last() =~= rows.take(n));
        lemma_documents_error_persists(rows, n + 1);
    } else {
        assert(rows.take(n) =~= rows);
    }
}

/// A listed document is active and, when a folder is given, belongs to it.
pub open spec fn in_scope(d: DocumentView, folder_id: Option<i64>) -> bool {
    &&& d.status == STATUS_ACTIVE@
    &&& match folder_id {
        Some(fid) => d.watched_folder_id == fid,
        None => true,
    }
}

proof fn lemma_documents_row_by_row(rows: Seq<Vec<SqlValue>>, v: Seq<DocumentView>)
    requires
        spec_documents_from_rows(rows) == Ok::<Seq<DocumentView>, usize>(v),
    ensures
        v.len() == rows.len(),
        forall|i: int| 0 <= i < rows.len() ==> spec_document_from_row(#[trigger] rows[i]@) == Ok::<DocumentView, usize>(v[i]),
    decreases rows.len(),
{
    if rows.len() > 0 {
        let init = rows.drop_last();
        let vi = v.drop_last();
        let r0 = spec_documents_from_rows(init);
        assert(r0 is Ok);
        let d0 = r0->Ok_0;
        let dl = spec_document_from_row(rows.last()@)->Ok_0;
        assert(v == d0.push(dl));
        assert(d0 =~= vi);
        lemma_documents_row_by_row(init, vi);
        assert forall|i: int| 0 <= i < rows.len() implies spec_document_from_row(#[trigger] rows[i]@)
            == Ok::<DocumentView, usize>(v[i]) by {
            if i < init.len() {
                assert(rows[i] == init[i]);
            }
        }
    }
}

/// The documents of `docs` that are in scope, in order; `rows` are the rows
/// they were decoded from.
fn keep_in_scope(docs: Vec<DocumentRecord>, folder_id: Option<i64>, Ghost(rows): Ghost<Seq<Vec<SqlValue>>>) -> (r: Vec<
    DocumentRecord,
>)
    requires
        spec_documents_from_rows(rows) == Ok::<Seq<DocumentView>, usize>(docs@.map_values(|d: DocumentRecord| d@)),
    ensures
        r@.map_values(|d: DocumentRecord| d@) == docs@.map_values(|d: DocumentRecord| d@).filter(
            |d: DocumentView| in_scope(d, folder_id),
        ),
        forall|i: int| 0 <= i < r.len() ==> in_scope(#[trigger] r@[i]@, folder_id),
        exists|kept: Seq<Vec<SqlValue>>|
            spec_documents_from_rows(kept) == Ok::<Seq<DocumentView>, usize>(r@.map_values(|d: DocumentRecord| d@)),
{
    proof {
        lemma_documents_row_by_row(rows, docs@.map_values(|d: DocumentRecord| d@));
        reveal(Seq::filter);
    }
    let ghost all = docs@.map_values(|d: DocumentRecord| d@);
    let ghost pred = |d: DocumentView| in_scope(d, folder_id);
    let mut out: Vec<DocumentRecord> = Vec::new();
    let ghost mut kept: Seq<Vec<SqlValue>> = Seq::empty();
    let mut i: usize = 0;
    assert(all.take(0) =~= Seq::<DocumentView>::empty());
    assert(out@.map_values(|d: DocumentRecord| d@) =~= Seq::<DocumentView>::empty());
    while i < docs.len()
        invariant
            i <= docs.len(),
            all.len() == rows.len(),
            all.len() == docs.len(),
            all == docs@.map_values(|d: DocumentRecord| d@),
            pred == (|d: DocumentView| in_scope(d, folder_id)),
            forall|k: int| 0 <= k < rows.len() ==> spec_document_from_row(#[trigger] rows[k]@)
                == Ok::<DocumentView, usize>(all[k]),
            out@.map_values(|d: DocumentRecord| d@) == all.take(i as int).filter(pred),
            forall|k: int| 0 <= k < out.len() ==> in_scope(#[trigger] out@[k]@, folder_id),
            spec_documents_from_rows(kept) == Ok::<Seq<DocumentView>, usize>(out@.map_values(|d: DocumentRecord| d@)),
        decreases docs.len() - i,
    {
        proof {
            reveal(Seq::filter);
        }
        let d = &docs[i];
        assert(all.take(i + 1).drop_last() =~= all.take(i as int));
        assert(all.take(i + 1).last() == d@);
        let keep = match folder_id {
            Some(fid) => d.watched_folder_id == fid,
            None => true,
        } && same_text(d.status.as_str(), STATUS_ACTIVE);
        if keep {
            let ghost before = out@;
            out.push(copy_document(d));
            proof {
                assert(out@.map_values(|d: DocumentRecord| d@) =~= before.map_values(|d: DocumentRecord| d@).push(
                    all[i as int],
                ));
                assert(spec_document_from_row(rows[i as int]@) == Ok::<DocumentView, usize>(all[i as int]));
                assert(kept.push(rows[i as int]).drop_last() =~= kept);
                kept = kept.push(rows[i as int]);
            }
        }
        i = i + 1;
    }
    assert(all.take(docs.len() as int) =~= all);
    out
}

/// A copy of a document record.
fn copy_document(d: &DocumentRecord) -> (r: DocumentRecord)
    ensures
        r@ == d@,
{
    DocumentRecord {
        id: d.id,
        watched_folder_id: d.watched_folder_id,
        path: copy_string(&d.path),
        filename: copy_string(&d.filename),
        extension: copy_string(&d.extension),
        size: d.size,
        created_at: d.created_at,
        modified_at: d.modified_at,
        indexed_at: d.indexed_at,
        status: copy_string(&d.status),
    }
}

// ─── Parameters ──────────────────────────────────────────────────────────────

pub open spec fn params_view(params: Seq<SqlParam>) -> Seq<SqlParamView> {
    params.map_values(|p: SqlParam| p@)
}

fn text_param(s: &str) -> (p: SqlParam)
    ensures
        p@ == SqlParamView::Text(s@),
{
    SqlParam::Text(String::from_str(s))
}

/// Parameters of `UPSERT_FOLDER_SQL`: the path, then the time twice.
pub fn folder_params(folder_path: &str, now: i64) -> (params: Vec<SqlParam>)
    ensures
        params_view(params@) == seq![
            SqlParamView::Text(folder_path@),
            SqlParamView::Integer(now),
            SqlParamView::Integer(now),
        ],
{
    let params = vec![text_param(folder_path), SqlParam::Integer(now), SqlParam::Integer(now)];
    assert(params_view(params@) =~= seq![
        SqlParamView::Text(folder_path@),
        SqlParamView::Integer(now),
        SqlParamView::Integer(now),
    ]);
    params
}

/// Parameters of `UPSERT_DOCUMENT_SQL`, in column order; the size is stored
/// as a signed integer.
pub open spec fn spec_document_params(doc: DocumentView) -> Seq<SqlParamView> {
    seq![
        SqlParamView::Integer(doc.watched_folder_id),
        SqlParamView::Text(doc.path),
        SqlParamView::Text(doc.filename),
        SqlParamView::Text(doc.extension),
        SqlParamView::Integer(doc.size as i64),
        SqlParamView::Integer(doc.created_at),
        SqlParamView::Integer(doc.modified_at),
        SqlParamView::Integer(doc.indexed_at),
        SqlParamView::Text(doc.status),
    ]
}

pub fn document_params(doc: &DocumentRecord) -> (params: Vec<SqlParam>)
    ensures
        params_view(params@) == spec_document_params(doc@),
{
    let params = vec![
        SqlParam::Integer(doc.watched_folder_id),
        text_param(doc.path.as_str()),
        text_param(doc.filename.as_str()),
        text_param(doc.extension.as_str()),
        SqlParam::Integer(doc.size as i64),
        SqlParam::Integer(doc.created_at),
        SqlParam::Integer(doc.modified_at),
        SqlParam::Integer(doc.indexed_at),
        text_param(doc.status.as_str()),
    ];
    assert(params_view(params@) =~= spec_document_params(doc@));
    params
}

/// A statement and its parameters, as the text of the statement and the
/// values the parameters stand for.
pub open spec fn statement_view(st: (&'static str, Vec<SqlParam>)) -> (Seq<char>, Seq<SqlParamView>) {
    (st.0@, params_view(st.1@))
}

pub open spec fn statements_view(sts: Seq<(&'static str, Vec<SqlParam>)>) -> Seq<(Seq<char>, Seq<SqlParamView>)> {
    sts.map_values(|st: (&'static str, Vec<SqlParam>)| statement_view(st))
}

fn integer_statement(sql: &'static str, value: i64) -> (r: (&'static str, Vec<SqlParam>))
    ensures
        statement_view(r) == (sql@, seq![SqlParamView::Integer(value)]),
{
    let params = vec![SqlParam::Integer(value)];
    assert(params_view(params@) =~= seq![SqlParamView::Integer(value)]);
    (sql, params)
}

/// The statement that records a watched folder (or refreshes it), with the
/// time `now`.
pub fn upsert_folder_statement(folder_path: &str, now: i64) -> (r: (&'static str, Vec<SqlParam>))
    ensures
        statement_view(r) == (
            UPSERT_FOLDER_SQL@,
            seq![SqlParamView::Text(folder_path@), SqlParamView::Integer(now), SqlParamView::Integer(now)],
        ),
{
    (UPSERT_FOLDER_SQL, folder_params(folder_path, now))
}

/// The statement that reads back the watched folder with this path.
pub fn folder_by_path_statement(folder_path: &str) -> (r: (&'static str, Vec<SqlParam>))
    ensures
        statement_view(r) == (FOLDER_BY_PATH_SQL@, seq![SqlParamView::Text(folder_path@)]),
{
    let params = vec![text_param(folder_path)];
    assert(params_view(params@) =~= seq![SqlParamView::Text(folder_path@)]);
    (FOLDER_BY_PATH_SQL, params)
}

/// The statement that deletes the watched folder with this id.
pub fn remove_folder_statement(folder_id: i64) -> (r: (&'static str, Vec<SqlParam>))
    ensures
        statement_view(r) == (DELETE_FOLDER_SQL@, seq![SqlParamView::Integer(folder_id)]),
{
    integer_statement(DELETE_FOLDER_SQL, folder_id)
}

/// The statement that saves a document.
pub fn save_document_statement(doc: &DocumentRecord) -> (r: (&'static str, Vec<SqlParam>))
    ensures
        statement_view(r) == (UPSERT_DOCUMENT_SQL@, spec_document_params(doc@)),
{
    (UPSERT_DOCUMENT_SQL, document_params(doc))
}

/// The statement that lists the active paths of the folder with this id.
pub fn active_paths_statement(folder_id: i64) -> (r: (&'static str, Vec<SqlParam>))
    ensures
        statement_view(r) == (ACTIVE_PATHS_SQL@, seq![SqlParamView::Integer(folder_id)]),
{
    integer_statement(ACTIVE_PATHS_SQL, folder_id)
}

/// The statement that sets the status of the document at `doc_path`.
pub fn status_statement(doc_path: &str, status: &str) -> (r: (&'static str, Vec<SqlParam>))
    ensures
        statement_view(r) == (SET_STATUS_SQL@, seq![SqlParamView::Text(status@), SqlParamView::Text(doc_path@)]),
{
    let params = vec![text_param(status), text_param(doc_path)];
    assert(params_view(params@) =~= seq![SqlParamView::Text(status@), SqlParamView::Text(doc_path@)]);
    (SET_STATUS_SQL, params)
}

/// The statement that deletes the document with this id.
pub fn remove_document_statement(doc_id: i64) -> (r: (&'static str, Vec<SqlParam>))
    ensures
        statement_view(r) == (DELETE_DOCUMENT_SQL@, seq![SqlParamView::Integer(doc_id)]),
{
    integer_statement(DELETE_DOCUMENT_SQL, doc_id)
}

/// The statement that asks whether a watched folder with this id exists.
pub fn folder_exists_statement(folder_id: i64) -> (r: (&'static str, Vec<SqlParam>))
    ensures
        statement_view(r) == (FOLDER_EXISTS_SQL@, seq![SqlParamView::Integer(folder_id)]),
{
    integer_statement(FOLDER_EXISTS_SQL, folder_id)
}

/// Runs the statements one after the other, stopping at the first that
/// fails.
pub fn execute_all(conn: &Connection, statements: &Vec<(&'static str, Vec<SqlParam>)>) -> (r: Result<(), DbError>)
    ensures
        r is Err ==> r->Err_0 is Sql,
{
    let mut i: usize = 0;
    while i < statements.len()
        invariant
            i <= statements.len(),
        decreases statements.len() - i,
    {
        let st = &statements[i];
        execute(conn, st.0, &st.1)?;
        i = i + 1;
    }
    Ok(())
}

/// A value read back holds what a parameter wrote.
pub open spec fn value_matches(v: SqlValue, p: SqlParamView) -> bool {
    match (v, p) {
        (SqlValue::Integer(a), SqlParamView::Integer(b)) => a == b,
        (SqlValue::Text(a), SqlParamView::Text(b)) => a@ == b,
        _ => false,
    }
}

/// A row that holds a document's id and, after it, exactly what
/// `document_params` wrote decodes to that document: in particular the size,
/// stored as a signed integer, is read back unchanged.
pub proof fn lemma_document_row_roundtrip(row: Seq<SqlValue>, id: i64, doc: DocumentView)
    requires
        row.len() == 10,
        int_at(row, 0) == Some(id),
        forall|k: int| 1 <= k < 10 ==> value_matches(#[trigger] row[k], spec_document_params(doc)[k - 1]),
    ensures
        spec_document_from_row(row) == Ok::<DocumentView, usize>(DocumentView { id, ..doc }),
{
    reveal_with_fuel(first_bad_column, 11);
    assert(value_matches(row[1], spec_document_params(doc)[0]));
    assert(value_matches(row[2], spec_document_params(doc)[1]));
    assert(value_matches(row[3], spec_document_params(doc)[2]));
    assert(value_matches(row[4], spec_document_params(doc)[3]));
    assert(value_matches(row[5], spec_document_params(doc)[4]));
    assert(value_matches(row[6], spec_document_params(doc)[5]));
    assert(value_matches(row[7], spec_document_params(doc)[6]));
    assert(value_matches(row[8], spec_document_params(doc)[7]));
    assert(value_matches(row[9], spec_document_params(doc)[8]));
    let s = doc.size;
    assert(((s as i64) as u64) == s) by (bit_vector);
}

// ─── Path sets ───────────────────────────────────────────────────────────────

/// A set of document paths, kept in the order they were first added.
#[derive(Debug)]
pub struct PathSet {
    paths: Vec<String>,
}

impl View for PathSet {
    type V = Seq<Seq<char>>;

    closed spec fn view(&self) -> Seq<Seq<char>> {
        self.paths@.map_values(|s: String| s@)
    }
}

impl PathSet {
    #[verifier::type_invariant]
    spec fn inv(&self) -> bool {
        self@.no_duplicates()
    }

    pub fn new() -> (s: PathSet)
        ensures
            s@ == Seq::<Seq<char>>::empty(),
    {
        let s = PathSet { paths: Vec::new() };
        assert(s@ =~= Seq::<Seq<char>>::empty());
        s
    }

    pub fn len(&self) -> (n: usize)
        ensures
            n == self@.len(),
    {
        self.paths.len()
    }

    pub fn is_empty(&self) -> (b: bool)
        ensures
            b == (self@.len() == 0),
    {
        self.paths.len() == 0
    }

    pub fn get(&self, i: usize) -> (p: &str)
        requires
            i < self@.len(),
        ensures
            p@ == self@[i as int],
    {
        self.paths[i].as_str()
    }

    pub fn contains(&self, p: &str) -> (b: bool)
        ensures
            b == self@.contains(p@),
    {
        let mut i: usize = 0;
        while i < self.paths.len()
            invariant
                i <= self.paths.len(),
                forall|j: int| 0 <= j < i ==> #[trigger] self@[j] != p@,
            decreases self.paths.len() - i,
        {
            if crate::text::same_text(self.paths[i].as_str(), p) {
                assert(self@[i as int] == p@);
                return true;
            }
            i = i + 1;
        }
        false
    }

    /// Adds `p` unless it is already there; returns whether it was added.
    pub fn insert(&mut self, p: String) -> (added: bool)
        ensures
            added == !old(self)@.contains(p@),
            added ==> final(self)@ == old(self)@.push(p@),
            !added ==> final(self)@ == old(self)@,
    {
        proof {
            use_type_invariant(&*self);
        }
        if self.contains(p.as_str()) {
            return false;
        }
        let ghost before = self@;
        let ghost pv = p@;
        let mut paths: Vec<String> = Vec::new();
        std::mem::swap(&mut paths, &mut self.paths);
        paths.push(p);
        proof {
            assert(paths@.map_values(|s: String| s@) =~= before.push(pv));
            assert forall|a: int, b: int|
                0 <= a < b < before.push(pv).len() implies before.push(pv)[a] != before.push(pv)[b] by {
                if b == before.len() {
                    assert(before.contains(before[a]));
                }
            }
        }
        self.paths = paths;
        true
    }

    /// The set of the paths of `docs`.
    pub fn from_documents(docs: &[DocumentRecord]) -> (s: PathSet)
        ensures
            forall|p: Seq<char>| s@.contains(p) <==> has_path(docs@, docs@.len() as int, p),
    {
        let mut s = PathSet::new();
        let mut i: usize = 0;
        while i < docs.len()
            invariant
                i <= docs.len(),
                forall|p: Seq<char>| s@.contains(p) <==> has_path(docs@, i as int, p),
            decreases docs.len() - i,
        {
            let ghost before = s@;
            let ghost q = docs@[i as int].path@;
            s.insert(copy_string(&docs[i].path));
            proof {
                assert forall|p: Seq<char>| s@.contains(p) <==> has_path(docs@, i + 1, p) by {
                    if s@.contains(p) {
                        if p == q {
                            assert(docs@[i as int].path@ == p);
                        } else {
                            assert(before.contains(p)) by {
                                if s@ == before.push(q) {
                                    let k = choose|k: int| 0 <= k < s@.len() && s@[k] == p;
                                    assert(before[k] == p);
                                }
                            }
                        }
                    }
                    if has_path(docs@, i + 1, p) {
                        if p == q {
                            if s@ == before.push(q) {
                                assert(s@[before.len() as int] == q);
                            }
                        } else {
                            let k = choose|k: int| 0 <= k < i + 1 && (#[trigger] docs@[k]).path@ == p;
                            assert(k < i);
                            assert(before.contains(p));
                            let m = choose|m: int| 0 <= m < before.len() && before[m] == p;
                            if s@ == before.push(q) {
                                assert(s@[m] == p);
                            }
                        }
                    }
                }
            }
            i = i + 1;
        }
        s
    }
}

/// Some document among the first `n` of `docs` has the path `p`.
pub open spec fn has_path(docs: Seq<DocumentRecord>, n: int, p: Seq<char>) -> bool {
    exists|k: int| 0 <= k < n && (#[trigger] docs[k]).path@ == p
}

// ─── Search patterns ─────────────────────────────────────────────────────────

/// How one character is written in a LIKE pattern that escapes with `\`.
pub open spec fn escape_like_char(c: char) -> Seq<char> {
    if c == '\\' || c == '%' || c == '_' {
        seq!['\\', c]
    } else {
        seq![c]
    }
}

/// `s` with `\`, `%` and `_` each preceded by `\`, so that the pattern
/// matches `s` literally.
pub open spec fn spec_escape_like(s: Seq<char>) -> Seq<char>
    decreases s.len(),
{
    if s.len() == 0 {
        Seq::empty()
    } else {
        spec_escape_like(s.drop_last()) + escape_like_char(s.last())
    }
}

/// The search pattern for a query: its Unicode lower case, escaped, between
/// two `%` wildcards.
pub open spec fn spec_like_pattern(query: Seq<char>) -> Seq<char> {
    seq!['%'] + spec_escape_like(unicode_lowercase(query)) + seq!['%']
}

/// Escapes `s` for a LIKE pattern whose escape character is `\`.
pub fn escape_like(s: &str) -> (r: String)
    ensures
        r@ == spec_escape_like(s@),
{
    let cs = chars_of(s);
    let mut out = String::new();
    let mut i: usize = 0;
    while i < cs.len()
        invariant
            cs@ == s@,
            i <= cs.len(),
            out@ == spec_escape_like(s@.take(i as int)),
        decreases cs.len() - i,
    {
        let c = cs[i];
        assert(s@.take(i + 1).drop_last() =~= s@.take(i as int));
        if c == '\\' || c == '%' || c == '_' {
            push_char(&mut out, '\\');
        }
        push_char(&mut out, c);
        assert(out@ =~= spec_escape_like(s@.take(i + 1)));
        i = i + 1;
    }
    assert(s@.take(cs.len() as int) =~= s@);
    out
}

/// The pattern `query_documents_like` searches file names with.
pub fn like_pattern(query: &str) -> (r: String)
    ensures
        r@ == spec_like_pattern(query@),
{
    let lower = to_lowercase(query);
    let escaped = escape_like(lower.as_str());
    let mut out = String::new();
    push_char(&mut out, '%');
    out.append(escaped.as_str());
    push_char(&mut out, '%');
    assert(out@ =~= spec_like_pattern(query@));
    out
}

/// Reads a LIKE pattern (escape character `\`) as literal text: `None` when
/// it holds an unescaped wildcard or ends in a lone `\`.
pub open spec fn spec_unescape_like(p: Seq<char>) -> Option<Seq<char>>
    decreases p.len(),
{
    if p.len() == 0 {
        Some(Seq::empty())
    } else if p[0] == '\\' {
        if p.len() < 2 {
            None
        } else {
            match spec_unescape_like(p.subrange(2, p.len() as int)) {
                Some(rest) => Some(seq![p[1]] + rest),
                None => None,
            }
        }
    } else if p[0] == '%' || p[0] == '_' {
        None
    } else {
        match spec_unescape_like(p.drop_first()) {
            Some(rest) => Some(seq![p[0]] + rest),
            None => None,
        }
    }
}

proof fn lemma_escape_like_append(a: Seq<char>, b: Seq<char>)
    ensures
        spec_escape_like(a + b) == spec_escape_like(a) + spec_escape_like(b),
    decreases b.len(),
{
    if b.len() == 0 {
        assert(a + b =~= a);
        assert(spec_escape_like(a) + spec_escape_like(b) =~= spec_escape_like(a));
    } else {
        assert((a + b).drop_last() =~= a + b.drop_last());
        assert((a + b).last() == b.last());
        lemma_escape_like_append(a, b.drop_last());
        assert(spec_escape_like(a + b) =~= spec_escape_like(a) + spec_escape_like(b));
    }
}

/// An escaped text holds no wildcard of its own: read back as a pattern, it
/// is exactly the text that was escaped. A search therefore matches the
/// query's characters literally, `%`, `_` and `\` included.
pub proof fn lemma_escape_like_is_literal(s: Seq<char>)
    ensures
        spec_unescape_like(spec_escape_like(s)) == Some(s),
    decreases s.len(),
{
    if s.len() == 0 {
    } else {
        let c = s[0];
        let rest = s.drop_first();
        assert(s =~= seq![c] + rest);
        lemma_escape_like_append(seq![c], rest);
        assert(seq![c].drop_last() =~= Seq::<char>::empty());
        assert(seq![c].last() == c);
        reveal_with_fuel(spec_escape_like, 2);
        assert(spec_escape_like(seq![c]) =~= escape_like_char(c));
        lemma_escape_like_is_literal(rest);
        let e = spec_escape_like(s);
        assert(e =~= escape_like_char(c) + spec_escape_like(rest));
        if c == '\\' || c == '%' || c == '_' {
            assert(e.subrange(2, e.len() as int) =~= spec_escape_like(rest));
            assert(seq![e[1]] + rest =~= s);
        } else {
            assert(e.drop_first() =~= spec_escape_like(rest));
            assert(seq![e[0]] + rest =~= s);
        }
    }
}

// ─── Operations ─────────────────────────────────────────────────────────────

/// Switches the connection to write-ahead logging with foreign keys
/// enforced, and creates the tables and indexes that do not exist yet.
pub fn prepare_schema(conn: &Connection) -> (r: Result<(), DbError>)
    ensures
        r is Err ==> r->Err_0 is Sql,
{
    execute_batch(conn, PRAGMAS_SQL)?;
    execute_batch(conn, SCHEMA_SQL)
}

/// Decodes every folder row, stopping at the first that cannot be decoded.
pub open spec fn spec_folders_from_rows(rows: Seq<Vec<SqlValue>>) -> Result<Seq<WatchedFolderView>, usize>
    decreases rows.len(),
{
    if rows.len() == 0 {
        Ok(Seq::empty())
    } else {
        match spec_folders_from_rows(rows.drop_last()) {
            Err(c) => Err(c),
            Ok(fs) => match spec_folder_from_row(rows.last()@) {
                Err(c) => Err(c),
                Ok(f) => Ok(fs.push(f)),
            },
        }
    }
}

proof fn lemma_folders_error_persists(rows: Seq<Vec<SqlValue>>, n: int)
    requires
        0 <= n <= rows.len(),
        spec_folders_from_rows(rows.take(n)) is Err,
    ensures
        spec_folders_from_rows(rows) == spec_folders_from_rows(rows.take(n)),
    decreases rows.len() - n,
{
    if n < rows.len() {
        assert(rows.take(n + 1).drop_last() =~= rows.take(n));
        lemma_folders_error_persists(rows, n + 1);
    } else {
        assert(rows.take(n) =~= rows);
    }
}

pub fn folders_from_rows(rows: &Vec<Vec<SqlValue>>) -> (r: Result<Vec<WatchedFolder>, DbError>)
    ensures
        match (r, spec_folders_from_rows(rows@)) {
            (Ok(fs), Ok(v)) => fs@.map_values(|f: WatchedFolder| f@) == v,
            (Err(e), Err(c)) => e == (DbError::Column { index: c }),
            _ => false,
        },
{
    let mut out: Vec<WatchedFolder> = Vec::new();
    let mut i: usize = 0;
    assert(rows@.take(0) =~= Seq::<Vec<SqlValue>>::empty());
    assert(out@.map_values(|f: WatchedFolder| f@) =~= Seq::<WatchedFolderView>::empty());
    while i < rows.len()
        invariant
            i <= rows.len(),
            spec_folders_from_rows(rows@.take(i as int)) == Ok::<Seq<WatchedFolderView>, usize>(
                out@.map_values(|f: WatchedFolder| f@),
            ),
        decreases rows.len() - i,
    {
        assert(rows@.take(i + 1).drop_last() =~= rows@.take(i as int));
        assert(rows@.take(i + 1).last() == rows@[i as int]);
        match folder_from_row(&rows[i]) {
            Ok(f) => {
                let ghost before = out@;
                out.push(f);
                assert(out@.map_values(|f: WatchedFolder| f@) =~= before.map_values(
                    |f: WatchedFolder| f@,
                ).push(f@));
            },
            Err(e) => {
                proof {
                    lemma_folders_error_persists(rows@, i as int + 1);
                }
                return Err(e);
            },
        }
        i = i + 1;
    }
    assert(rows@.take(rows.len() as int) =~= rows@);
    Ok(out)
}

/// Records `folder_path` as watched (or, if it already is, refreshes its
/// `updated_at`) and returns its row.
pub fn add_folder(conn: &Connection, folder_path: &str) -> (r: Result<WatchedFolder, DbError>)
    ensures
        r matches Ok(f) ==> exists|row: Seq<SqlValue>| spec_folder_from_row(row) == Ok::<WatchedFolderView, usize>(f@),
        r matches Err(e) ==> e is Sql || e is TooManyRows || e is NoRows || e is Column,
{
    let now = current_timestamp();
    let (upsert, params) = upsert_folder_statement(folder_path, now);
    execute(conn, upsert, &params)?;
    let (select, params) = folder_by_path_statement(folder_path);
    let rows = fetch_rows(conn, select, &params)?;
    let r = first_folder(&rows);
    proof {
        if rows.len() > 0 {
            assert(r matches Ok(f) ==> spec_folder_from_row(rows@[0]@) == Ok::<WatchedFolderView, usize>(f@));
        }
    }
    r
}

/// The folder in the first row: `NoRows` when there is none, otherwise that
/// row decoded.
pub fn first_folder(rows: &Vec<Vec<SqlValue>>) -> (r: Result<WatchedFolder, DbError>)
    ensures
        rows.len() == 0 ==> r matches Err(DbError::NoRows),
        rows.len() > 0 ==> match (r, spec_folder_from_row(rows@[0]@)) {
            (Ok(f), Ok(v)) => f@ == v,
            (Err(e), Err(c)) => e == (DbError::Column { index: c }),
            _ => false,
        },
{
    if rows.len() == 0 {
        return Err(DbError::NoRows);
    }
    folder_from_row(&rows[0])
}

/// Every watched folder, by increasing id.
pub fn get_folders(conn: &Connection) -> (r: Result<Vec<WatchedFolder>, DbError>)
    ensures
        r matches Ok(fs) ==> exists|rows: Seq<Vec<SqlValue>>|
            spec_folders_from_rows(rows) == Ok::<Seq<WatchedFolderView>, usize>(
                fs@.map_values(|f: WatchedFolder| f@),
            ),
        r matches Err(e) ==> e is Sql || e is TooManyRows || e is Column,
{
    let rows = fetch_rows(conn, ALL_FOLDERS_SQL, &Vec::new())?;
    folders_from_rows(&rows)
}

/// The first of `folders` with this id.
pub fn find_folder(folders: &Vec<WatchedFolder>, folder_id: i64) -> (r: Option<&WatchedFolder>)
    ensures
        match r {
            None => forall|i: int| 0 <= i < folders.len() ==> (#[trigger] folders@[i]).id != folder_id,
            Some(f) => exists|i: int|
                0 <= i < folders.len() && f == (#[trigger] folders@[i]) && f.id == folder_id && forall|j: int|
                    0 <= j < i ==> (#[trigger] folders@[j]).id != folder_id,
        },
{
    let mut i: usize = 0;
    while i < folders.len()
        invariant
            i <= folders.len(),
            forall|j: int| 0 <= j < i ==> (#[trigger] folders@[j]).id != folder_id,
        decreases folders.len() - i,
    {
        if folders[i].id == folder_id {
            return Some(&folders[i]);
        }
        i = i + 1;
    }
    None
}

/// Deletes the folder with this id; its documents go with it through the
/// foreign key. Deleting an id that does not exist is not an error.
pub fn remove_folder(conn: &Connection, folder_id: i64) -> (r: Result<(), DbError>)
    ensures
        r is Err ==> r->Err_0 is Sql,
{
    let (sql, params) = remove_folder_statement(folder_id);
    execute(conn, sql, &params)?;
    Ok(())
}

/// Inserts the document, or, when a document with its path exists, updates
/// its name, extension, size, times and status (keeping its folder, id and
/// creation time).
pub fn save_document(conn: &Connection, doc: &DocumentRecord) -> (r: Result<(), DbError>)
    ensures
        r is Err ==> r->Err_0 is Sql,
{
    let (sql, params) = save_document_statement(doc);
    execute(conn, sql, &params)?;
    Ok(())
}

/// The path in the single column of each row, or the first row whose column
/// 0 holds no text.
pub open spec fn spec_paths_from_rows(rows: Seq<Vec<SqlValue>>) -> Result<Seq<Seq<char>>, usize>
    decreases rows.len(),
{
    if rows.len() == 0 {
        Ok(Seq::empty())
    } else {
        match spec_paths_from_rows(rows.drop_last()) {
            Err(c) => Err(c),
            Ok(ps) => match text_at(rows.last()@, 0) {
                None => Err(0),
                Some(p) => Ok(ps.push(p)),
            },
        }
    }
}

proof fn lemma_paths_error_persists(rows: Seq<Vec<SqlValue>>, n: int)
    requires
        0 <= n <= rows.len(),
        spec_paths_from_rows(rows.take(n)) is Err,
    ensures
        spec_paths_from_rows(rows) == spec_paths_from_rows(rows.take(n)),
    decreases rows.len() - n,
{
    if n < rows.len() {
        assert(rows.take(n + 1).drop_last() =~= rows.take(n));
        lemma_paths_error_persists(rows, n + 1);
    } else {
        assert(rows.take(n) =~= rows);
    }
}

proof fn lemma_push_to_set(s: Seq<Seq<char>>, x: Seq<char>)
    ensures
        s.push(x).to_set() == s.to_set().insert(x),
{
    assert forall|a: Seq<char>| s.push(x).to_set().contains(a) == s.to_set().insert(x).contains(a) by {
        if s.push(x).contains(a) {
            let k = choose|k: int| 0 <= k < s.push(x).len() && s.push(x)[k] == a;
            if k < s.len() {
                assert(s[k] == a);
            }
        }
        if s.contains(a) {
            let k = choose|k: int| 0 <= k < s.len() && s[k] == a;
            assert(s.push(x)[k] == a);
        }
        if a == x {
            assert(s.push(x)[s.len() as int] == x);
        }
    }
    assert(s.push(x).to_set() =~= s.to_set().insert(x));
}

/// The rows decode to paths whose set is `set`.
pub open spec fn rows_give_paths(rows: Seq<Vec<SqlValue>>, set: Set<Seq<char>>) -> bool {
    spec_paths_from_rows(rows) matches Ok(ps) && ps.to_set() == set
}

/// The row, as `ACTIVE_PATHS_SQL` reads it (path, folder, status), is that
/// of an active document of folder `folder_id`.
pub open spec fn active_row_of(row: Seq<SqlValue>, folder_id: i64) -> bool {
    int_at(row, 1) == Some(folder_id) && text_at(row, 2) == Some(STATUS_ACTIVE@)
}

/// Every path the rows give is the path (column 0) of one of them.
pub proof fn lemma_paths_come_from_rows(rows: Seq<Vec<SqlValue>>, ps: Seq<Seq<char>>)
    requires
        spec_paths_from_rows(rows) == Ok::<Seq<Seq<char>>, usize>(ps),
    ensures
        ps.len() == rows.len(),
        forall|i: int| 0 <= i < rows.len() ==> text_at(#[trigger] rows[i]@, 0) == Some(ps[i]),
    decreases rows.len(),
{
    if rows.len() > 0 {
        let init = rows.drop_last();
        let r0 = spec_paths_from_rows(init);
        assert(r0 is Ok);
        let p0 = r0->Ok_0;
        assert(ps == p0.push(text_at(rows.last()@, 0)->0));
        lemma_paths_come_from_rows(init, p0);
        assert forall|i: int| 0 <= i < rows.len() implies text_at(#[trigger] rows[i]@, 0) == Some(ps[i]) by {
            if i < init.len() {
                assert(rows[i] == init[i]);
            }
        }
    }
}

/// Whether every row is that of an active document of folder `folder_id`.
fn all_active_rows_of(rows: &Vec<Vec<SqlValue>>, folder_id: i64) -> (r: bool)
    ensures
        r == forall|i: int| 0 <= i < rows.len() ==> active_row_of(#[trigger] rows@[i]@, folder_id),
{
    let mut i: usize = 0;
    while i < rows.len()
        invariant
            i <= rows.len(),
            forall|k: int| 0 <= k < i ==> active_row_of(#[trigger] rows@[k]@, folder_id),
        decreases rows.len() - i,
    {
        let row = &rows[i];
        let in_folder = match integer_column(row, 1) {
            Ok(v) => v == folder_id,
            Err(_) => false,
        };
        let active = match text_column(row, 2) {
            Ok(t) => same_text(t.as_str(), STATUS_ACTIVE),
            Err(_) => false,
        };
        if !(in_folder && active) {
            assert(!active_row_of(rows@[i as int]@, folder_id));
            return false;
        }
        i = i + 1;
    }
    true
}

/// Collects the paths of the rows into a set.
pub fn paths_from_rows(rows: &Vec<Vec<SqlValue>>) -> (r: Result<PathSet, DbError>)
    ensures
        match (r, spec_paths_from_rows(rows@)) {
            (Ok(set), Ok(ps)) => set@.to_set() == ps.to_set() && set@.no_duplicates(),
            (Err(e), Err(c)) => e == (DbError::Column { index: c }),
            _ => false,
        },
{
    let mut set = PathSet::new();
    let mut i: usize = 0;
    let ghost mut ps: Seq<Seq<char>> = Seq::empty();
    assert(rows@.take(0) =~= Seq::<Vec<SqlValue>>::empty());
    assert(set@.to_set() =~= ps.to_set());
    while i < rows.len()
        invariant
            i <= rows.len(),
            spec_paths_from_rows(rows@.take(i as int)) == Ok::<Seq<Seq<char>>, usize>(ps),
            set@.to_set() == ps.to_set(),
        decreases rows.len() - i,
    {
        assert(rows@.take(i + 1).drop_last() =~= rows@.take(i as int));
        assert(rows@.take(i + 1).last() == rows@[i as int]);
        match text_column(&rows[i], 0) {
            Ok(p) => {
                let ghost before = set@;
                let ghost pv = p@;
                let added = set.insert(p);
                proof {
                    lemma_push_to_set(ps, pv);
                    lemma_push_to_set(before, pv);
                    if !added {
                        assert(before.to_set().contains(pv));
                        assert(before.to_set().insert(pv) =~= before.to_set());
                    }
                    ps = ps.push(pv);
                }
            },
            Err(e) => {
                proof {
                    lemma_paths_error_persists(rows@, i as int + 1);
                }
                return Err(e);
            },
        }
        i = i + 1;
    }
    assert(rows@.take(rows.len() as int) =~= rows@);
    proof {
        use_type_invariant(&set);
    }
    Ok(set)
}

/// The paths of the folder's documents whose status is `ACTIVE`: every row
/// they come from is checked to be an active document of that folder.
pub fn get_active_paths_for_folder(conn: &Connection, folder_id: i64) -> (r: Result<PathSet, DbError>)
    ensures
        r matches Ok(set) ==> set@.no_duplicates() && exists|rows: Seq<Vec<SqlValue>>|
            rows_give_paths(rows, set@.to_set()) && forall|i: int|
                0 <= i < rows.len() ==> active_row_of(#[trigger] rows[i]@, folder_id),
        r matches Err(e) ==> e is Sql || e is TooManyRows || e is Column,
{
    let (sql, params) = active_paths_statement(folder_id);
    let rows = fetch_rows(conn, sql, &params)?;
    let set = paths_from_rows(&rows)?;
    if !all_active_rows_of(&rows, folder_id) {
        return Err(DbError::Column { index: 1 });
    }
    assert(rows_give_paths(rows@, set@.to_set()));
    Ok(set)
}

/// Sets the status of the document with this path.
pub fn mark_document_status(conn: &Connection, doc_path: &str, status: &str) -> (r: Result<(), DbError>)
    ensures
        r is Err ==> r->Err_0 is Sql,
{
    let (sql, params) = status_statement(doc_path, status);
    execute(conn, sql, &params)?;
    Ok(())
}

/// Deletes the document with this id (its file on disk is not touched).
pub fn remove_document(conn: &Connection, doc_id: i64) -> (r: Result<(), DbError>)
    ensures
        r is Err ==> r->Err_0 is Sql,
{
    let (sql, params) = remove_document_statement(doc_id);
    execute(conn, sql, &params)?;
    Ok(())
}

/// The statement that lists the active documents of one folder, or of all
/// folders, and its parameters.
pub fn documents_statement(folder_id: Option<i64>) -> (r: (&'static str, Vec<SqlParam>))
    ensures
        r.0@ == match folder_id {
            Some(_) => DOCUMENTS_IN_FOLDER_SQL@,
            None => ALL_DOCUMENTS_SQL@,
        },
        params_view(r.1@) == match folder_id {
            Some(fid) => seq![SqlParamView::Integer(fid)],
            None => Seq::<SqlParamView>::empty(),
        },
{
    let r = match folder_id {
        Some(fid) => (DOCUMENTS_IN_FOLDER_SQL, vec![SqlParam::Integer(fid)]),
        None => (ALL_DOCUMENTS_SQL, Vec::new()),
    };
    assert(params_view(r.1@) =~= match folder_id {
        Some(fid) => seq![SqlParamView::Integer(fid)],
        None => Seq::<SqlParamView>::empty(),
    });
    r
}

/// The active documents of one folder, or of all folders, most recently
/// modified first, as `documents_statement` lists them. Every document
/// returned is active and, when a folder is given, belongs to it.
pub fn query_documents(conn: &Connection, folder_id: Option<i64>) -> (r: Result<Vec<DocumentRecord>, DbError>)
    ensures
        r matches Ok(docs) ==> exists|rows: Seq<Vec<SqlValue>>|
            spec_documents_from_rows(rows) == Ok::<Seq<DocumentView>, usize>(
                docs@.map_values(|d: DocumentRecord| d@),
            ),
        r matches Err(e) ==> e is Sql || e is TooManyRows || e is Column,
        r matches Ok(docs) ==> forall|i: int| 0 <= i < docs.len() ==> in_scope(#[trigger] docs@[i]@, folder_id),
{
    let (sql, params) = documents_statement(folder_id);
    let rows = fetch_rows(conn, sql, &params)?;
    let docs = documents_from_rows(&rows)?;
    Ok(keep_in_scope(docs, folder_id, Ghost(rows@)))
}

/// The parameters of a search: the folder (when there is one), then the
/// pattern.
pub fn search_params(pattern: &str, folder_id: Option<i64>) -> (params: Vec<SqlParam>)
    ensures
        params_view(params@) == match folder_id {
            Some(fid) => seq![SqlParamView::Integer(fid), SqlParamView::Text(pattern@)],
            None => seq![SqlParamView::Text(pattern@)],
        },
{
    let params = match folder_id {
        Some(fid) => vec![SqlParam::Integer(fid), text_param(pattern)],
        None => vec![text_param(pattern)],
    };
    assert(params_view(params@) =~= match folder_id {
        Some(fid) => seq![SqlParamView::Integer(fid), SqlParamView::Text(pattern@)],
        None => seq![SqlParamView::Text(pattern@)],
    });
    params
}

/// The statement that searches the active documents (of one folder, or of
/// all) for `query` taken literally, and its parameters: the folder when
/// there is one, then the query as a `LIKE` pattern.
pub fn search_statement(query: &str, folder_id: Option<i64>) -> (r: (&'static str, Vec<SqlParam>))
    ensures
        r.0@ == match folder_id {
            Some(_) => SEARCH_IN_FOLDER_SQL@,
            None => SEARCH_ALL_SQL@,
        },
        params_view(r.1@) == match folder_id {
            Some(fid) => seq![SqlParamView::Integer(fid), SqlParamView::Text(spec_like_pattern(query@))],
            None => seq![SqlParamView::Text(spec_like_pattern(query@))],
        },
{
    let pattern = like_pattern(query);
    let params = search_params(pattern.as_str(), folder_id);
    let sql = match folder_id {
        Some(_) => SEARCH_IN_FOLDER_SQL,
        None => SEARCH_ALL_SQL,
    };
    (sql, params)
}

/// The active documents (of one folder, or of all) whose lower-case file
/// name contains the lower-case query literally, most recently modified
/// first, as `search_statement` finds them. Every document returned is
/// active and, when a folder is given, belongs to it.
pub fn query_documents_like(conn: &Connection, query: &str, folder_id: Option<i64>) -> (r: Result<
    Vec<DocumentRecord>,
    DbError,
>)
    ensures
        r matches Ok(docs) ==> exists|rows: Seq<Vec<SqlValue>>|
            spec_documents_from_rows(rows) == Ok::<Seq<DocumentView>, usize>(
                docs@.map_values(|d: DocumentRecord| d@),
            ),
        r matches Err(e) ==> e is Sql || e is TooManyRows || e is Column,
        r matches Ok(docs) ==> forall|i: int| 0 <= i < docs.len() ==> in_scope(#[trigger] docs@[i]@, folder_id),
{
    let (sql, params) = search_statement(query, folder_id);
    let rows = fetch_rows(conn, sql, &params)?;
    let docs = documents_from_rows(&rows)?;
    Ok(keep_in_scope(docs, folder_id, Ghost(rows@)))
}

} // verus!
