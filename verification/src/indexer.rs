//! The index worker's logic: the commands it receives, how a file becomes a
//! document record, which watched folder owns a path, and how a folder is
//! reconciled with what a scan found on disk.

use vstd::prelude::*;

pub use crate::paths::{find_owning_folder, is_path_under_folder};

use rusqlite::Connection;
use std::sync::mpsc::SyncSender;

use crate::clock::current_timestamp;
use crate::database::{
    active_row_of, execute_all, rows_give_paths, spec_paths_from_rows, lemma_paths_come_from_rows, folder_exists_statement, get_active_paths_for_folder, int_at, integer_column, text_at,
    mark_document_status, remove_document, save_document, save_document_statement, spec_document_params,
    statements_view, status_statement, text_column, DocumentRecord, DocumentView, PathSet,
    ALL_FOLDER_PATHS_SQL, BEGIN_SQL, COMMIT_SQL, ROLLBACK_SQL, SET_STATUS_SQL, STATUS_ACTIVE,
    STATUS_MISSING, UPSERT_DOCUMENT_SQL,
};
use crate::filesystem::{is_supported_doc, spec_is_supported_doc};
use crate::paths::{is_under, parsed_path, spec_extension, DocPath, DocPathView};
use crate::sql::{execute_batch, fetch_rows, sql_error_message, DbError, SqlParam, SqlParamView, SqlValue};
use crate::filesystem::ScanProgress;
use crate::text::{push_char, to_lowercase, unicode_lowercase};

verus! {

#[verifier::external_type_specification]
#[verifier::external_body]
#[verifier::reject_recursive_types(T)]
pub struct ExSyncSender<T>(SyncSender<T>);

/// `SyncSender::clone` gives another handle on the same queue; nothing is
/// claimed of it.
pub assume_specification<T>[ <SyncSender<T> as Clone>::clone ](sender: &SyncSender<T>) -> SyncSender<T>;

/// Every change to the documents table is one of these commands.
#[derive(Debug)]
pub enum IndexCommand {
    /// Index a file reported by the watcher; its folder is looked up.
    UpsertFile { file_path: DocPath },
    /// Index a file found by a scan of a known folder.
    ScanFile { folder_id: i64, file_path: DocPath },
    /// Mark a file as missing.
    MarkMissing { file_path: DocPath },
    /// Remove a document, optionally answering on `reply`.
    RemoveDocument { doc_id: i64, reply: Option<SyncSender<Result<bool, String>>> },
    /// Reconcile a watched folder with the filesystem.
    ReconcileFolder { folder_id: i64, folder_path: String },
    /// Stop the worker.
    Shutdown,
}

pub enum CommandView {
    UpsertFile(DocPathView),
    ScanFile(i64, DocPathView),
    MarkMissing(DocPathView),
    RemoveDocument(i64),
    ReconcileFolder(i64, Seq<char>),
    Shutdown,
}

impl View for IndexCommand {
    type V = CommandView;

    open spec fn view(&self) -> CommandView {
        match self {
            IndexCommand::UpsertFile { file_path } => CommandView::UpsertFile(file_path@),
            IndexCommand::ScanFile { folder_id, file_path } => CommandView::ScanFile(*folder_id, file_path@),
            IndexCommand::MarkMissing { file_path } => CommandView::MarkMissing(file_path@),
            IndexCommand::RemoveDocument { doc_id, .. } => CommandView::RemoveDocument(*doc_id),
            IndexCommand::ReconcileFolder { folder_id, folder_path } => CommandView::ReconcileFolder(
                *folder_id,
                folder_path@,
            ),
            IndexCommand::Shutdown => CommandView::Shutdown,
        }
    }
}

/// Wraps `SyncSender::send`, which blocks while the queue is full and fails
/// once the receiver is gone; the error is rendered with `to_string`.
/// Whether it fails depends on the other end, so nothing is claimed of it.
#[verifier::external_body]
fn channel_send(tx: &SyncSender<IndexCommand>, cmd: IndexCommand) -> Result<(), String> {
    match tx.send(cmd) {
        Ok(()) => Ok(()),
        Err(e) => Err(e.to_string()),
    }
}

/// The sending end of the worker's queue.
#[derive(Clone)]
pub struct IndexSender(pub SyncSender<IndexCommand>);

pub const DISCONNECTED_PREFIX: &'static str = "IndexWorker disconnected: ";

impl IndexSender {
    /// Sends a command, waiting while the queue is full; never drops one.
    /// Fails, with a message that says the worker is disconnected, once the
    /// worker has gone away.
    pub fn send(&self, cmd: IndexCommand) -> (r: Result<(), String>)
        ensures
            r matches Err(m) ==> exists|detail: Seq<char>| m@ == DISCONNECTED_PREFIX@ + detail,
    {
        match channel_send(&self.0, cmd) {
            Ok(()) => Ok(()),
            Err(detail) => {
                let mut m = String::from_str(DISCONNECTED_PREFIX);
                m.append(detail.as_str());
                assert(m@ == DISCONNECTED_PREFIX@ + detail@);
                Err(m)
            },
        }
    }
}

/// Counts of what a reconciliation did.
#[derive(Clone, Copy, Debug, PartialEq, Eq)]
pub struct ReconcileStats {
    pub inserted: u32,
    pub updated: u32,
    pub marked_missing: u32,
}

impl Default for ReconcileStats {
    fn default() -> (s: Self)
        ensures
            s.inserted == 0 && s.updated == 0 && s.marked_missing == 0,
    {
        ReconcileStats { inserted: 0, updated: 0, marked_missing: 0 }
    }
}

/// A scan reports progress after every 50 files.
pub fn should_report_progress(scanned: u64) -> (r: bool)
    ensures
        r == (scanned % 50 == 0),
{
    scanned % 50 == 0
}

/// The moments of a folder scan that the user interface hears of.
#[derive(Clone, Copy, Debug, PartialEq, Eq)]
pub enum ScanEvent {
    /// The scan begins.
    Started,
    /// The folder does not exist or is not a directory.
    NotAccessible,
    /// The `scanned`-th document was found (at the file being reported).
    Found { scanned: u64 },
    /// More documents were found than a reconciliation can count.
    TooManyFiles,
    /// The database could not be reached.
    DatabaseUnavailable,
    /// Writing the reconciliation failed.
    WriteFailed,
    /// The scan is over, with `scanned` documents found.
    Done { scanned: u64 },
}

pub const SCANNING_PREFIX: &'static str = "Scanning ";

pub const NOT_ACCESSIBLE_MESSAGE: &'static str = "Folder not accessible";

pub const TOO_MANY_FILES_MESSAGE: &'static str = "Too many files to reconcile";

pub const DATABASE_UNAVAILABLE_MESSAGE: &'static str = "Database error during reconcile";

pub const WRITE_FAILED_MESSAGE: &'static str = "Database write error during reconcile";

pub const DONE_MESSAGE: &'static str = "Done";

/// What is reported at a moment of the scan of `folder_path`, as the number
/// of documents found, the text shown and whether the scan goes on; `None`
/// for a found document that is not at a multiple of 50.
pub open spec fn spec_scan_report(event: ScanEvent, folder_path: Seq<char>, file: Seq<char>) -> Option<
    (u64, Seq<char>, bool),
> {
    match event {
        ScanEvent::Started => Some((0, SCANNING_PREFIX@ + folder_path + seq!['…'], true)),
        ScanEvent::NotAccessible => Some((0, NOT_ACCESSIBLE_MESSAGE@, false)),
        ScanEvent::Found { scanned } => if scanned % 50 == 0 {
            Some((scanned, file, true))
        } else {
            None
        },
        ScanEvent::TooManyFiles => Some((0, TOO_MANY_FILES_MESSAGE@, false)),
        ScanEvent::DatabaseUnavailable => Some((0, DATABASE_UNAVAILABLE_MESSAGE@, false)),
        ScanEvent::WriteFailed => Some((0, WRITE_FAILED_MESSAGE@, false)),
        ScanEvent::Done { scanned } => Some((scanned, DONE_MESSAGE@, false)),
    }
}

/// The progress reported at a moment of the scan of `folder_path`, where
/// `file` is the file being reported when a document is found.
pub fn scan_report(event: ScanEvent, folder_path: &str, file: &str) -> (r: Option<ScanProgress>)
    ensures
        match (r, spec_scan_report(event, folder_path@, file@)) {
            (Some(p), Some((processed, text, scanning))) => p.processed == processed && p.total == 0
                && p.current_file@ == text && p.is_scanning == scanning,
            (None, None) => true,
            _ => false,
        },
{
    match event {
        ScanEvent::Started => {
            let mut text = String::from_str(SCANNING_PREFIX);
            text.append(folder_path);
            push_char(&mut text, '…');
            Some(ScanProgress::new(0, text.as_str(), true))
        },
        ScanEvent::NotAccessible => Some(ScanProgress::new(0, NOT_ACCESSIBLE_MESSAGE, false)),
        ScanEvent::Found { scanned } => {
            if should_report_progress(scanned) {
                Some(ScanProgress::new(scanned, file, true))
            } else {
                None
            }
        },
        ScanEvent::TooManyFiles => Some(ScanProgress::new(0, TOO_MANY_FILES_MESSAGE, false)),
        ScanEvent::DatabaseUnavailable => Some(ScanProgress::new(0, DATABASE_UNAVAILABLE_MESSAGE, false)),
        ScanEvent::WriteFailed => Some(ScanProgress::new(0, WRITE_FAILED_MESSAGE, false)),
        ScanEvent::Done { scanned } => Some(ScanProgress::new(scanned, DONE_MESSAGE, false)),
    }
}

// ─── Document records ────────────────────────────────────────────────────────

/// What the filesystem reports of a file: its size, and its creation and
/// modification times in whole seconds since the epoch when it can tell.
#[derive(Clone, Copy, Debug)]
pub struct FileMetadata {
    pub size: u64,
    pub created_secs: Option<u64>,
    pub modified_secs: Option<u64>,
}

/// A time read from the filesystem, or `now` when there was none.
pub open spec fn time_or(secs: Option<u64>, now: i64) -> i64 {
    match secs {
        Some(s) => s as i64,
        None => now,
    }
}

/// The record of a file found at `path` in folder `folder_id`, indexed at
/// time `now`: `None` when the path has no file name. The extension is the
/// Unicode lower case of the path's extension (empty when it has none).
pub open spec fn spec_document_record(folder_id: i64, path: DocPathView, meta: FileMetadata, now: i64) -> Option<DocumentView> {
    match path.file_name {
        None => None,
        Some(name) => Some(
            DocumentView {
                id: 0,
                watched_folder_id: folder_id,
                path: path.text,
                filename: name,
                extension: unicode_lowercase(
                    match spec_extension(path.file_name) {
                        Some(e) => e,
                        None => Seq::empty(),
                    },
                ),
                size: meta.size,
                created_at: time_or(meta.created_secs, now),
                modified_at: time_or(meta.modified_secs, now),
                indexed_at: now,
                status: STATUS_ACTIVE@,
            },
        ),
    }
}

fn time_or_now(secs: Option<u64>, now: i64) -> (t: i64)
    ensures
        t == time_or(secs, now),
{
    match secs {
        Some(s) => s as i64,
        None => now,
    }
}

/// The record of a file, indexed at time `now`.
pub fn document_record_at(folder_id: i64, path: &DocPath, meta: &FileMetadata, now: i64) -> (r: Option<DocumentRecord>)
    ensures
        match (r, spec_document_record(folder_id, path@, *meta, now)) {
            (Some(d), Some(v)) => d@ == v,
            (None, None) => true,
            _ => false,
        },
{
    let filename = match path.file_name() {
        Some(n) => String::from_str(n),
        None => return None,
    };
    let extension = match path.extension() {
        Some(e) => to_lowercase(e.as_str()),
        None => to_lowercase(""),
    };
    proof {
        reveal_strlit("");
        assert(""@ =~= Seq::<char>::empty());
    }
    Some(
        DocumentRecord {
            id: 0,
            watched_folder_id: folder_id,
            path: String::from_str(path.as_str()),
            filename,
            extension,
            size: meta.size,
            created_at: time_or_now(meta.created_secs, now),
            modified_at: time_or_now(meta.modified_secs, now),
            indexed_at: now,
            status: String::from_str(STATUS_ACTIVE),
        },
    )
}

/// The record of a file whose metadata could be read (`None` when it could
/// not), indexed now.
pub fn build_document_record(folder_id: i64, path: &DocPath, meta: Option<&FileMetadata>) -> (r: Option<DocumentRecord>)
    ensures
        r is Some <==> (meta is Some && path@.file_name is Some),
        r matches Some(d) ==> exists|now: i64|
            spec_document_record(folder_id, path@, *meta->0, now) == Some(d@),
{
    match meta {
        None => None,
        Some(m) => document_record_at(folder_id, path, m, current_timestamp()),
    }
}

// ─── Owning folder of a watcher event ────────────────────────────────────────

/// A watched folder as stored: its id and its path.
pub struct FolderCandidate {
    pub id: i64,
    pub path: DocPath,
}

/// Some candidate folder contains `path`.
pub open spec fn has_owner(candidates: Seq<FolderCandidate>, path: DocPathView) -> bool {
    exists|i: int| 0 <= i < candidates.len() && is_under(path.components, (#[trigger] candidates[i]).path@.components)
}

/// Candidate `i` is the owner of `path`: it contains the path, no candidate
/// that contains it has more components, and every earlier one that contains
/// it has fewer.
pub open spec fn is_chosen_owner(candidates: Seq<FolderCandidate>, path: DocPathView, i: int) -> bool {
    &&& 0 <= i < candidates.len()
    &&& is_under(path.components, candidates[i].path@.components)
    &&& forall|j: int|
        0 <= j < candidates.len() && is_under(path.components, (#[trigger] candidates[j]).path@.components)
            ==> candidates[j].path@.components.len() <= candidates[i].path@.components.len()
    &&& forall|j: int|
        0 <= j < i && is_under(path.components, (#[trigger] candidates[j]).path@.components)
            ==> candidates[j].path@.components.len() < candidates[i].path@.components.len()
}

/// At most one candidate is the owner of a path.
pub proof fn lemma_chosen_owner_unique(candidates: Seq<FolderCandidate>, path: DocPathView, i: int, k: int)
    requires
        is_chosen_owner(candidates, path, i),
        is_chosen_owner(candidates, path, k),
    ensures
        i == k,
{
    if i < k {
        assert(is_under(path.components, candidates[i].path@.components));
    } else if k < i {
        assert(is_under(path.components, candidates[k].path@.components));
    }
}

/// Among the candidate folders, the id of the one that contains `path` with
/// the most components; when several tie, the first of them.
pub fn pick_owning_folder_id(candidates: &Vec<FolderCandidate>, path: &DocPath) -> (r: Option<i64>)
    ensures
        r is None <==> !has_owner(candidates@, path@),
        r matches Some(id) ==> exists|i: int| #[trigger] is_chosen_owner(candidates@, path@, i) && candidates@[i].id == id,
{
    let mut best: Option<usize> = None;
    let mut i: usize = 0;
    while i < candidates.len()
        invariant
            i <= candidates.len(),
            match best {
                None => forall|j: int|
                    0 <= j < i ==> !is_under(path@.components, (#[trigger] candidates@[j]).path@.components),
                Some(b) => {
                    &&& b < i
                    &&& is_under(path@.components, candidates@[b as int].path@.components)
                    &&& forall|j: int|
                        0 <= j < i && is_under(path@.components, (#[trigger] candidates@[j]).path@.components)
                            ==> candidates@[j].path@.components.len() <= candidates@[b as int].path@.components.len()
                    &&& forall|j: int|
                        0 <= j < b && is_under(path@.components, (#[trigger] candidates@[j]).path@.components)
                            ==> candidates@[j].path@.components.len() < candidates@[b as int].path@.components.len()
                },
            },
        decreases candidates.len() - i,
    {
        let c = &candidates[i];
        if is_path_under_folder(path, &c.path) {
            match best {
                None => {
                    best = Some(i);
                },
                Some(b) => {
                    if c.path.depth() > candidates[b].path.depth() {
                        best = Some(i);
                    }
                },
            }
        }
        i = i + 1;
    }
    match best {
        None => None,
        Some(b) => {
            assert(is_chosen_owner(candidates@, path@, b as int));
            Some(candidates[b].id)
        },
    }
}

/// The id and path of each row that holds an integer id in column 0 and a
/// text path in column 1, in order; other rows are passed over.
pub open spec fn candidate_entries(rows: Seq<Vec<SqlValue>>) -> Seq<(i64, DocPathView)>
    decreases rows.len(),
{
    if rows.len() == 0 {
        Seq::empty()
    } else {
        let init = candidate_entries(rows.drop_last());
        let row = rows.last()@;
        match (int_at(row, 0), text_at(row, 1)) {
            (Some(id), Some(p)) => init.push((id, parsed_path(p))),
            _ => init,
        }
    }
}

pub open spec fn candidates_view(cands: Seq<FolderCandidate>) -> Seq<(i64, DocPathView)> {
    cands.map_values(|c: FolderCandidate| (c.id, c.path@))
}

/// The folders listed by the rows of `ALL_FOLDER_PATHS_SQL`, passing over
/// rows that cannot be read.
pub fn candidates_from_rows(rows: &Vec<Vec<SqlValue>>) -> (cands: Vec<FolderCandidate>)
    ensures
        candidates_view(cands@) == candidate_entries(rows@),
{
    let mut out: Vec<FolderCandidate> = Vec::new();
    let mut i: usize = 0;
    assert(rows@.take(0) =~= Seq::<Vec<SqlValue>>::empty());
    assert(candidates_view(out@) =~= Seq::<(i64, DocPathView)>::empty());
    while i < rows.len()
        invariant
            i <= rows.len(),
            candidates_view(out@) == candidate_entries(rows@.take(i as int)),
        decreases rows.len() - i,
    {
        assert(rows@.take(i + 1).drop_last() =~= rows@.take(i as int));
        assert(rows@.take(i + 1).last() == rows@[i as int]);
        let row = &rows[i];
        match (integer_column(row, 0), text_column(row, 1)) {
            (Ok(id), Ok(p)) => {
                let ghost before = out@;
                let c = FolderCandidate { id, path: DocPath::new(p.as_str()) };
                out.push(c);
                assert(candidates_view(out@) =~= candidates_view(before).push((id, parsed_path(p@))));
            },
            _ => {},
        }
        i = i + 1;
    }
    assert(rows@.take(rows.len() as int) =~= rows@);
    out
}

/// The watched folders as the database lists them; rows that cannot be read
/// are passed over.
pub fn folder_candidates(conn: &Connection) -> (r: Result<Vec<FolderCandidate>, DbError>)
    ensures
        r matches Err(e) ==> e is Sql || e is TooManyRows,
{
    let rows = fetch_rows(conn, ALL_FOLDER_PATHS_SQL, &Vec::new())?;
    Ok(candidates_from_rows(&rows))
}

// ─── Reconciliation ──────────────────────────────────────────────────────────

/// How many of `docs` have a path among `known`.
pub open spec fn count_known(docs: Seq<DocumentRecord>, known: Seq<Seq<char>>) -> nat
    decreases docs.len(),
{
    if docs.len() == 0 {
        0
    } else {
        count_known(docs.drop_last(), known) + if known.contains(docs.last().path@) {
            1nat
        } else {
            0nat
        }
    }
}

/// The paths of `indexed` that are not among `found`, in order.
pub open spec fn not_found(indexed: Seq<Seq<char>>, found: Seq<Seq<char>>) -> Seq<Seq<char>>
    decreases indexed.len(),
{
    if indexed.len() == 0 {
        Seq::empty()
    } else if found.contains(indexed.last()) {
        not_found(indexed.drop_last(), found)
    } else {
        not_found(indexed.drop_last(), found).push(indexed.last())
    }
}

/// What reconciling a folder does: every document found on disk is saved
/// (counted as updated when its path was already active, as inserted
/// otherwise), and every active path not found on disk is marked missing.
pub struct ReconcilePlan {
    pub stats: ReconcileStats,
    pub missing: Vec<String>,
}

pub open spec fn plan_matches(
    stats: ReconcileStats,
    missing: Seq<Seq<char>>,
    active: Seq<Seq<char>>,
    docs: Seq<DocumentRecord>,
    found: Seq<Seq<char>>,
) -> bool {
    &&& stats.updated == count_known(docs, active)
    &&& stats.inserted == docs.len() - count_known(docs, active)
    &&& missing == not_found(active, found)
    &&& stats.marked_missing == missing.len()
}

proof fn lemma_count_known_bound(docs: Seq<DocumentRecord>, known: Seq<Seq<char>>)
    ensures
        count_known(docs, known) <= docs.len(),
    decreases docs.len(),
{
    if docs.len() > 0 {
        lemma_count_known_bound(docs.drop_last(), known);
    }
}

/// Works out what reconciling does, given the paths the database holds as
/// active (`active`), the documents found on disk, and the set of their
/// paths (`found`). `None` when more paths are missing than the count can
/// hold.
pub fn plan_reconcile(active: &PathSet, fs_docs: &[DocumentRecord], found: &PathSet) -> (r: Option<ReconcilePlan>)
    requires
        fs_docs.len() <= u32::MAX,
    ensures
        r is None <==> not_found(active@, found@).len() > u32::MAX,
        r matches Some(plan) ==> plan_matches(
            plan.stats,
            plan.missing@.map_values(|s: String| s@),
            active@,
            fs_docs@,
            found@,
        ),
{
    let mut updated: u32 = 0;
    let mut i: usize = 0;
    while i < fs_docs.len()
        invariant
            fs_docs.len() <= u32::MAX,
            i <= fs_docs.len(),
            updated == count_known(fs_docs@.take(i as int), active@),
            updated <= i,
        decreases fs_docs.len() - i,
    {
        assert(fs_docs@.take(i + 1).drop_last() =~= fs_docs@.take(i as int));
        assert(fs_docs@.take(i + 1).last() == fs_docs@[i as int]);
        if active.contains(fs_docs[i].path.as_str()) {
            updated = updated + 1;
        }
        i = i + 1;
    }
    assert(fs_docs@.take(fs_docs.len() as int) =~= fs_docs@);
    let inserted: u32 = (fs_docs.len() as u32) - updated;
    let mut missing: Vec<String> = Vec::new();
    let mut k: usize = 0;
    assert(active@.take(0) =~= Seq::<Seq<char>>::empty());
    assert(missing@.map_values(|s: String| s@) =~= Seq::<Seq<char>>::empty());
    while k < active.len()
        invariant
            k <= active@.len(),
            missing@.map_values(|s: String| s@) == not_found(active@.take(k as int), found@),
            missing@.len() <= k,
        decreases active@.len() - k,
    {
        let p = active.get(k);
        assert(active@.take(k + 1).drop_last() =~= active@.take(k as int));
        assert(active@.take(k + 1).last() == active@[k as int]);
        if !found.contains(p) {
            let ghost before = missing@;
            missing.push(String::from_str(p));
            assert(missing@.map_values(|s: String| s@) =~= before.map_values(|s: String| s@).push(p@));
        }
        k = k + 1;
    }
    assert(active@.take(active@.len() as int) =~= active@);
    assert(missing@.map_values(|s: String| s@).len() == missing@.len());
    if missing.len() > u32::MAX as usize {
        return None;
    }
    let marked_missing: u32 = missing.len() as u32;
    Some(ReconcilePlan { stats: ReconcileStats { inserted, updated, marked_missing }, missing })
}

/// The answer of `FOLDER_EXISTS_SQL`: whether the integer in column 0 of
/// its first row is not 0; an error when there is no row or no integer.
pub open spec fn spec_exists_answer(rows: Seq<Vec<SqlValue>>) -> Result<bool, DbError> {
    if rows.len() == 0 {
        Err(DbError::NoRows)
    } else {
        match int_at(rows[0]@, 0) {
            Some(v) => Ok(v != 0),
            None => Err(DbError::Column { index: 0 }),
        }
    }
}

/// Reads the answer of `FOLDER_EXISTS_SQL` from its rows.
pub fn exists_answer(rows: &Vec<Vec<SqlValue>>) -> (r: Result<bool, DbError>)
    ensures
        r == spec_exists_answer(rows@),
{
    if rows.len() == 0 {
        return Err(DbError::NoRows);
    }
    let v = integer_column(&rows[0], 0)?;
    Ok(v != 0)
}

/// Whether the database still lists a watched folder with this id.
fn folder_exists(conn: &Connection, folder_id: i64) -> (r: Result<bool, DbError>)
    ensures
        r matches Err(e) ==> e is Sql || e is TooManyRows || e is NoRows || e == (DbError::Column { index: 0 }),
{
    let (sql, params) = folder_exists_statement(folder_id);
    let rows = fetch_rows(conn, sql, &params)?;
    exists_answer(&rows)
}

/// What reconciling a folder comes to, once the database has said whether
/// the folder is still listed and which of its paths are active.
pub enum ReconcileStep {
    /// The folder is no longer listed: nothing is written and every count
    /// is 0.
    FolderGone,
    /// More missing paths than the count can hold.
    TooManyMissing,
    /// Save every document found and mark the plan's paths missing.
    Apply(ReconcilePlan),
}

/// Decides what reconciling does, given whether the folder is still listed,
/// its active paths, the documents found on disk and the set of their paths.
pub fn reconcile_step(listed: bool, active: &PathSet, fs_docs: &[DocumentRecord], found: &PathSet) -> (step: ReconcileStep)
    requires
        fs_docs.len() <= u32::MAX,
    ensures
        step is FolderGone <==> !listed,
        step is TooManyMissing <==> listed && not_found(active@, found@).len() > u32::MAX,
        step matches ReconcileStep::Apply(plan) ==> plan_matches(
            plan.stats,
            plan.missing@.map_values(|s: String| s@),
            active@,
            fs_docs@,
            found@,
        ),
{
    if !listed {
        ReconcileStep::FolderGone
    } else {
        match plan_reconcile(active, fs_docs, found) {
            None => ReconcileStep::TooManyMissing,
            Some(plan) => ReconcileStep::Apply(plan),
        }
    }
}

/// The writes of a reconciliation, in order: the save of each document
/// found, then the status `MISSING` for each path of `missing`.
pub open spec fn spec_reconcile_statements(docs: Seq<DocumentRecord>, missing: Seq<Seq<char>>) -> Seq<
    (Seq<char>, Seq<SqlParamView>),
> {
    docs.map_values(|d: DocumentRecord| (UPSERT_DOCUMENT_SQL@, spec_document_params(d@))) + missing.map_values(
        |p: Seq<char>| (SET_STATUS_SQL@, seq![SqlParamView::Text(STATUS_MISSING@), SqlParamView::Text(p)]),
    )
}

/// The statements that write a reconciliation: each document found is
/// saved, then each path of `missing` is marked missing.
pub fn reconcile_statements(fs_docs: &[DocumentRecord], missing: &Vec<String>) -> (r: Vec<(&'static str, Vec<SqlParam>)>)
    ensures
        statements_view(r@) == spec_reconcile_statements(fs_docs@, missing@.map_values(|s: String| s@)),
{
    let mut out: Vec<(&'static str, Vec<SqlParam>)> = Vec::new();
    let mut i: usize = 0;
    while i < fs_docs.len()
        invariant
            i <= fs_docs.len(),
            statements_view(out@) == fs_docs@.take(i as int).map_values(
                |d: DocumentRecord| (UPSERT_DOCUMENT_SQL@, spec_document_params(d@)),
            ),
        decreases fs_docs.len() - i,
    {
        let ghost before = out@;
        out.push(save_document_statement(&fs_docs[i]));
        assert(statements_view(out@) =~= statements_view(before).push(
            (UPSERT_DOCUMENT_SQL@, spec_document_params(fs_docs@[i as int]@)),
        ));
        assert(fs_docs@.take(i + 1) =~= fs_docs@.take(i as int).push(fs_docs@[i as int]));
        i = i + 1;
    }
    assert(fs_docs@.take(fs_docs.len() as int) =~= fs_docs@);
    let ghost saves = statements_view(out@);
    let mut k: usize = 0;
    while k < missing.len()
        invariant
            k <= missing.len(),
            statements_view(out@) == saves + missing@.take(k as int).map_values(|s: String| s@).map_values(
                |p: Seq<char>| (SET_STATUS_SQL@, seq![SqlParamView::Text(STATUS_MISSING@), SqlParamView::Text(p)]),
            ),
        decreases missing.len() - k,
    {
        let ghost before = out@;
        out.push(status_statement(missing[k].as_str(), STATUS_MISSING));
        assert(missing@.take(k + 1) =~= missing@.take(k as int).push(missing@[k as int]));
        assert(statements_view(out@) =~= statements_view(before).push(
            (SET_STATUS_SQL@, seq![SqlParamView::Text(STATUS_MISSING@), SqlParamView::Text(missing@[k as int]@)]),
        ));
        assert(statements_view(out@) =~= saves + missing@.take(k + 1).map_values(|s: String| s@).map_values(
            |p: Seq<char>| (SET_STATUS_SQL@, seq![SqlParamView::Text(STATUS_MISSING@), SqlParamView::Text(p)]),
        ));
        k = k + 1;
    }
    assert(missing@.take(missing.len() as int) =~= missing@);
    out
}

/// Carries out a reconciliation step: nothing is written for a folder that
/// is gone (every count is 0), too many missing paths is an error, and a plan
/// is written (the `reconcile_statements` of the documents found and the
/// plan's missing paths) in one transaction, rolled back when a write fails,
/// and gives its counts.
pub fn apply_reconcile_step(conn: &Connection, step: ReconcileStep, fs_docs: &[DocumentRecord]) -> (r: Result<
    ReconcileStats,
    DbError,
>)
    ensures
        step is FolderGone ==> r == Ok::<ReconcileStats, DbError>(
            ReconcileStats { inserted: 0, updated: 0, marked_missing: 0 },
        ),
        step is TooManyMissing ==> r matches Err(DbError::TooManyRows),
        step matches ReconcileStep::Apply(plan) ==> match r {
            Ok(stats) => stats == plan.stats,
            Err(e) => e is Sql,
        },
{
    let plan = match step {
        ReconcileStep::FolderGone => return Ok(ReconcileStats::default()),
        ReconcileStep::TooManyMissing => return Err(DbError::TooManyRows),
        ReconcileStep::Apply(plan) => plan,
    };
    execute_batch(conn, BEGIN_SQL)?;
    let statements = reconcile_statements(fs_docs, &plan.missing);
    let written = match execute_all(conn, &statements) {
        Ok(()) => execute_batch(conn, COMMIT_SQL),
        Err(e) => Err(e),
    };
    match written {
        Ok(()) => Ok(plan.stats),
        Err(e) => {
            let _ = execute_batch(conn, ROLLBACK_SQL);
            Err(e)
        },
    }
}

/// Reconciles a watched folder with the documents a scan found on disk, in
/// one transaction: saves every found document and marks missing every
/// active path that was not found. When the folder is no longer watched,
/// nothing is written and every count is 0. The counts are those of
/// `plan_reconcile` for the active paths the database held for this folder:
/// each comes from a row of an active document of `folder_id`.
pub fn reconcile_in_transaction(
    conn: &Connection,
    folder_id: i64,
    fs_docs: &[DocumentRecord],
    fs_path_set: &PathSet,
) -> (r: Result<ReconcileStats, DbError>)
    requires
        fs_docs.len() <= u32::MAX,
    ensures
        r matches Ok(stats) ==> (stats == ReconcileStats { inserted: 0, updated: 0, marked_missing: 0 })
            || exists|active: Seq<Seq<char>>, missing: Seq<Seq<char>>, rows: Seq<Vec<SqlValue>>|
            #![trigger plan_matches(stats, missing, active, fs_docs@, fs_path_set@), rows_give_paths(rows, active.to_set())]
            active.no_duplicates() && plan_matches(stats, missing, active, fs_docs@, fs_path_set@) && rows_give_paths(
                rows,
                active.to_set(),
            ) && forall|i: int| 0 <= i < rows.len() ==> active_row_of(#[trigger] rows[i]@, folder_id),
{
    let listed = folder_exists(conn, folder_id)?;
    let active = if listed {
        get_active_paths_for_folder(conn, folder_id)?
    } else {
        PathSet::new()
    };
    let step = reconcile_step(listed, &active, fs_docs, fs_path_set);
    apply_reconcile_step(conn, step, fs_docs)
}

/// Every document found is counted exactly once, as inserted or as updated.
pub proof fn lemma_reconcile_counts_every_document(
    stats: ReconcileStats,
    missing: Seq<Seq<char>>,
    active: Seq<Seq<char>>,
    docs: Seq<DocumentRecord>,
    found: Seq<Seq<char>>,
)
    requires
        plan_matches(stats, missing, active, docs, found),
    ensures
        stats.inserted + stats.updated == docs.len(),
{
    lemma_count_known_bound(docs, active);
}

proof fn lemma_not_found_contains(indexed: Seq<Seq<char>>, found: Seq<Seq<char>>, p: Seq<char>)
    ensures
        not_found(indexed, found).contains(p) <==> (indexed.contains(p) && !found.contains(p)),
    decreases indexed.len(),
{
    if indexed.len() > 0 {
        let init = indexed.drop_last();
        lemma_not_found_contains(init, found, p);
        assert(indexed =~= init.push(indexed.last()));
        if indexed.contains(p) && p != indexed.last() {
            let k = choose|k: int| 0 <= k < indexed.len() && indexed[k] == p;
            assert(init[k] == p);
        }
        if init.contains(p) {
            let k = choose|k: int| 0 <= k < init.len() && init[k] == p;
            assert(indexed[k] == p);
        }
        if p == indexed.last() {
            assert(indexed[indexed.len() - 1] == p);
        }
        let nf = not_found(init, found);
        if !found.contains(indexed.last()) {
            if nf.push(indexed.last()).contains(p) && p != indexed.last() {
                let k = choose|k: int| 0 <= k < nf.push(indexed.last()).len() && nf.push(indexed.last())[k] == p;
                assert(nf[k] == p);
            }
            if nf.contains(p) {
                let k = choose|k: int| 0 <= k < nf.len() && nf[k] == p;
                assert(nf.push(indexed.last())[k] == p);
            }
            if p == indexed.last() {
                assert(nf.push(indexed.last())[nf.len() as int] == p);
            }
        }
    }
}

/// After a reconciliation, the paths that are active (those active before
/// and those saved, less those marked missing) are exactly the paths found
/// on disk, when `found` holds the paths of the documents found.
pub proof fn lemma_reconcile_converges(
    stats: ReconcileStats,
    missing: Seq<Seq<char>>,
    active: Seq<Seq<char>>,
    docs: Seq<DocumentRecord>,
    found: Seq<Seq<char>>,
    p: Seq<char>,
)
    requires
        plan_matches(stats, missing, active, docs, found),
        forall|q: Seq<char>| found.contains(q) <==> crate::database::has_path(docs, docs.len() as int, q),
    ensures
        ((active.contains(p) || crate::database::has_path(docs, docs.len() as int, p)) && !missing.contains(p))
            <==> found.contains(p),
{
    lemma_not_found_contains(active, found, p);
}

/// The indices of `docs` whose path is among `known` (when `among` holds) or
/// is not (when it does not).
pub open spec fn doc_indices(docs: Seq<DocumentRecord>, known: Seq<Seq<char>>, among: bool) -> Set<int> {
    Set::new(|i: int| 0 <= i < docs.len() && known.contains(docs[i].path@) == among)
}

proof fn lemma_count_known_is_set_size(docs: Seq<DocumentRecord>, known: Seq<Seq<char>>)
    ensures
        doc_indices(docs, known, true).finite(),
        doc_indices(docs, known, false).finite(),
        count_known(docs, known) == doc_indices(docs, known, true).len(),
        docs.len() - count_known(docs, known) == doc_indices(docs, known, false).len(),
    decreases docs.len(),
{
    if docs.len() == 0 {
        assert(doc_indices(docs, known, true) =~= Set::empty());
        assert(doc_indices(docs, known, false) =~= Set::empty());
    } else {
        let init = docs.drop_last();
        let n = docs.len() - 1;
        lemma_count_known_is_set_size(init, known);
        lemma_count_known_bound(init, known);
        assert(!doc_indices(init, known, true).contains(n));
        assert(!doc_indices(init, known, false).contains(n));
        if known.contains(docs.last().path@) {
            assert(doc_indices(docs, known, true) =~= doc_indices(init, known, true).insert(n));
            assert(doc_indices(docs, known, false) =~= doc_indices(init, known, false));
        } else {
            assert(doc_indices(docs, known, true) =~= doc_indices(init, known, true));
            assert(doc_indices(docs, known, false) =~= doc_indices(init, known, false).insert(n));
        }
    }
}

proof fn lemma_not_found_no_duplicates(indexed: Seq<Seq<char>>, found: Seq<Seq<char>>)
    requires
        indexed.no_duplicates(),
    ensures
        not_found(indexed, found).no_duplicates(),
    decreases indexed.len(),
{
    if indexed.len() > 0 {
        let init = indexed.drop_last();
        let last = indexed.last();
        assert forall|i: int, j: int| 0 <= i < init.len() && 0 <= j < init.len() && i != j implies init[i]
            != init[j] by {
            assert(indexed[i] == init[i] && indexed[j] == init[j]);
        }
        lemma_not_found_no_duplicates(init, found);
        if !found.contains(last) {
            let nf = not_found(init, found);
            lemma_not_found_contains(init, found, last);
            if init.contains(last) {
                let k = choose|k: int| 0 <= k < init.len() && init[k] == last;
                assert(indexed[k] == indexed[indexed.len() - 1]);
            }
            assert forall|i: int, j: int|
                0 <= i < nf.push(last).len() && 0 <= j < nf.push(last).len() && i != j implies nf.push(last)[i]
                != nf.push(last)[j] by {
                if i < nf.len() && j == nf.len() {
                    assert(nf.contains(nf[i]));
                } else if j < nf.len() && i == nf.len() {
                    assert(nf.contains(nf[j]));
                }
            }
        }
    }
}

/// The counts of a reconciliation are the sizes of the sets they stand for,
/// when the active paths hold no path twice: the documents counted as
/// updated are those whose path was active, those counted as inserted the
/// others, and the paths marked missing are the active paths not found.
pub proof fn lemma_reconcile_counts_as_sets(
    stats: ReconcileStats,
    missing: Seq<Seq<char>>,
    active: Seq<Seq<char>>,
    docs: Seq<DocumentRecord>,
    found: Seq<Seq<char>>,
)
    requires
        plan_matches(stats, missing, active, docs, found),
        active.no_duplicates(),
    ensures
        stats.updated == doc_indices(docs, active, true).len(),
        stats.inserted == doc_indices(docs, active, false).len(),
        stats.marked_missing == active.to_set().filter(|p: Seq<char>| !found.contains(p)).len(),
        missing.to_set() == active.to_set().filter(|p: Seq<char>| !found.contains(p)),
{
    lemma_count_known_is_set_size(docs, active);
    lemma_not_found_no_duplicates(active, found);
    missing.unique_seq_to_set();
    assert forall|p: Seq<char>|
        missing.to_set().contains(p) <==> active.to_set().filter(|q: Seq<char>| !found.contains(q)).contains(p) by {
        lemma_not_found_contains(active, found, p);
    }
    assert(missing.to_set() =~= active.to_set().filter(|q: Seq<char>| !found.contains(q)));
}

/// A reconciliation of a folder touches only that folder's documents: when
/// the active paths are those of rows of active documents of `folder_id`,
/// every path marked missing, and every path of a document counted as
/// updated, is the path of such a row.
pub proof fn lemma_reconcile_stays_in_folder(
    stats: ReconcileStats,
    missing: Seq<Seq<char>>,
    active: Seq<Seq<char>>,
    docs: Seq<DocumentRecord>,
    found: Seq<Seq<char>>,
    rows: Seq<Vec<SqlValue>>,
    folder_id: i64,
    p: Seq<char>,
)
    requires
        plan_matches(stats, missing, active, docs, found),
        rows_give_paths(rows, active.to_set()),
        forall|i: int| 0 <= i < rows.len() ==> active_row_of(#[trigger] rows[i]@, folder_id),
    ensures
        (missing.contains(p) || (exists|k: int| #[trigger] doc_indices(docs, active, true).contains(k) && docs[k].path@ == p))
            ==> exists|i: int| 0 <= i < rows.len() && active_row_of(rows[i]@, folder_id) && text_at(#[trigger] rows[i]@, 0) == Some(p),
        missing.contains(p) ==> !found.contains(p),
{
    lemma_not_found_contains(active, found, p);
    let ps = spec_paths_from_rows(rows)->Ok_0;
    lemma_paths_come_from_rows(rows, ps);
    if active.contains(p) {
        assert(active.to_set().contains(p));
        assert(ps.to_set().contains(p));
        let i = choose|i: int| 0 <= i < ps.len() && ps[i] == p;
        assert(text_at(rows[i]@, 0) == Some(p));
    }
}

proof fn lemma_count_known_all(docs: Seq<DocumentRecord>, known: Seq<Seq<char>>)
    requires
        forall|k: int| 0 <= k < docs.len() ==> known.contains((#[trigger] docs[k]).path@),
    ensures
        count_known(docs, known) == docs.len(),
    decreases docs.len(),
{
    if docs.len() > 0 {
        assert(docs.last() == docs[docs.len() - 1]);
        lemma_count_known_all(docs.drop_last(), known);
    }
}

/// Reconciling again with the same findings, once the database holds them
/// as active, inserts nothing and marks nothing missing: every document is
/// counted as updated.
pub proof fn lemma_reconcile_repeat_is_stable(
    stats: ReconcileStats,
    missing: Seq<Seq<char>>,
    active: Seq<Seq<char>>,
    docs: Seq<DocumentRecord>,
    found: Seq<Seq<char>>,
)
    requires
        plan_matches(stats, missing, active, docs, found),
        forall|q: Seq<char>| found.contains(q) <==> crate::database::has_path(docs, docs.len() as int, q),
        forall|q: Seq<char>| active.contains(q) <==> found.contains(q),
    ensures
        stats.inserted == 0,
        stats.updated == docs.len(),
        stats.marked_missing == 0,
{
    assert forall|k: int| 0 <= k < docs.len() implies active.contains((#[trigger] docs[k]).path@) by {
        assert(crate::database::has_path(docs, docs.len() as int, docs[k].path@));
    }
    lemma_count_known_all(docs, active);
    if missing.len() > 0 {
        lemma_not_found_contains(active, found, missing[0]);
        assert(missing.contains(missing[0]));
    }
}

// ─── Commands on single files ────────────────────────────────────────────────

/// What the filesystem reports of a path when a command about it is
/// handled.
#[derive(Clone, Copy, Debug)]
pub struct FileFacts {
    pub exists: bool,
    pub is_symlink: bool,
    /// `None` when the metadata could not be read.
    pub metadata: Option<FileMetadata>,
}

fn metadata_ref(facts: &FileFacts) -> (r: Option<&FileMetadata>)
    ensures
        r is Some <==> facts.metadata is Some,
        r matches Some(m) ==> *m == facts.metadata->0,
{
    match &facts.metadata {
        Some(m) => Some(m),
        None => None,
    }
}

/// The file can be indexed: it exists, is a supported document, its
/// metadata could be read and its path has a file name.
pub open spec fn indexable(path: DocPathView, facts: FileFacts) -> bool {
    &&& facts.exists
    &&& spec_is_supported_doc(path, facts.is_symlink)
    &&& facts.metadata is Some
    &&& path.file_name is Some
}

/// The record to save for a file the watcher reported, given the watched
/// folders as stored: `None` when the file is not indexable or no folder
/// contains it; otherwise the file's record under the folder that owns it
/// (the deepest that contains it, the first of those when several tie).
pub fn watched_file_record(folders: &Vec<FolderCandidate>, path: &DocPath, facts: &FileFacts) -> (r: Option<DocumentRecord>)
    ensures
        r is Some <==> indexable(path@, *facts) && has_owner(folders@, path@),
        r matches Some(d) ==> exists|i: int|
            #[trigger] is_chosen_owner(folders@, path@, i) && exists|now: i64|
                spec_document_record(folders@[i].id, path@, facts.metadata->0, now) == Some(d@),
{
    if !facts.exists || !is_supported_doc(path, facts.is_symlink) {
        return None;
    }
    let folder_id = match pick_owning_folder_id(folders, path) {
        Some(id) => id,
        None => return None,
    };
    build_document_record(folder_id, path, metadata_ref(facts))
}

/// Indexes a file reported by the watcher, given the watched folders as
/// stored: saves `watched_file_record` when there is one. `Ok(false)`
/// exactly when the file is not indexable or no folder contains it.
pub fn save_watched_file(conn: &Connection, folders: &Vec<FolderCandidate>, path: &DocPath, facts: &FileFacts) -> (r:
    Result<bool, DbError>)
    ensures
        r == Ok::<bool, DbError>(false) <==> !(indexable(path@, *facts) && has_owner(folders@, path@)),
        r is Err ==> r->Err_0 is Sql,
{
    match watched_file_record(folders, path, facts) {
        None => Ok(false),
        Some(doc) => {
            save_document(conn, &doc)?;
            Ok(true)
        },
    }
}

/// Indexes a file reported by the watcher under the watched folder that owns
/// it, as the database lists the folders. `Ok(true)` when the document was
/// saved; `Ok(false)` when the file is gone, is not a supported document,
/// cannot be read, or no folder owns it (also when the folders cannot be
/// read). The folders are read only for a file that exists and is a
/// supported document.
pub fn index_watched_file(conn: &Connection, path: &DocPath, facts: &FileFacts) -> (r: Result<bool, DbError>)
    ensures
        !indexable(path@, *facts) ==> r == Ok::<bool, DbError>(false),
        r == Ok::<bool, DbError>(true) ==> indexable(path@, *facts) && exists|folders: Seq<FolderCandidate>|
            has_owner(folders, path@),
        r is Err ==> r->Err_0 is Sql,
{
    if !facts.exists || !is_supported_doc(path, facts.is_symlink) {
        return Ok(false);
    }
    match folder_candidates(conn) {
        Ok(folders) => save_watched_file(conn, &folders, path, facts),
        Err(_) => Ok(false),
    }
}

/// Indexes a file that a scan found in the folder `folder_id`. `Ok(false)`
/// exactly when the file is not indexable; otherwise the document is saved.
pub fn index_scanned_file(conn: &Connection, folder_id: i64, path: &DocPath, facts: &FileFacts) -> (r: Result<bool, DbError>)
    ensures
        !indexable(path@, *facts) <==> r == Ok::<bool, DbError>(false),
        r is Err ==> r->Err_0 is Sql,
{
    if !facts.exists || !is_supported_doc(path, facts.is_symlink) {
        return Ok(false);
    }
    let doc = match build_document_record(folder_id, path, metadata_ref(facts)) {
        Some(d) => d,
        None => return Ok(false),
    };
    save_document(conn, &doc)?;
    Ok(true)
}

/// Marks the document at `path` as missing.
pub fn mark_missing(conn: &Connection, path: &DocPath) -> (r: Result<(), DbError>)
    ensures
        r is Err ==> r->Err_0 is Sql,
{
    mark_document_status(conn, path.as_str(), STATUS_MISSING)
}

pub const REMOVE_FAILED_PREFIX: &'static str = "Database error removing document: ";

/// Removes a document and gives the answer sent back to whoever asked:
/// `Ok(true)`, or a message that says the database failed.
pub fn remove_document_reply(conn: &Connection, doc_id: i64) -> (r: Result<bool, String>)
    ensures
        r is Ok ==> r == Ok::<bool, String>(true),
        r matches Err(m) ==> exists|detail: Seq<char>| m@ == REMOVE_FAILED_PREFIX@ + detail,
{
    match remove_document(conn, doc_id) {
        Ok(()) => Ok(true),
        Err(DbError::Sql(e)) => {
            let detail = sql_error_message(&e);
            let mut m = String::from_str(REMOVE_FAILED_PREFIX);
            m.append(detail.as_str());
            assert(m@ == REMOVE_FAILED_PREFIX@ + detail@);
            Err(m)
        },
        Err(_) => {
            proof {
                assert(false);
            }
            Err(String::from_str(REMOVE_FAILED_PREFIX))
        },
    }
}

} // verus!
