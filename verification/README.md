# root_core

The verified core of a local desktop document indexer. Folders are watched;
the supported documents found in them are recorded in an SQLite database that
can be searched by file name.

`src/` is verified with Verus:

- `paths` — paths as text, components and file name; component-wise
  containment (`is_path_under_folder`), the set of watched folders
  (`FolderSet`) and the folder that owns a path (`find_owning_folder`).
- `filesystem` — which files are documents (`is_supported_doc`), which
  directories a scan skips (`is_dir_excluded`), scan progress.
- `events` — how a watcher event, of a kind the library tells apart
  (`FsEventKind`), becomes index commands (`handle_fs_event`), and how
  watching a folder starts (`plan_watch`).
- `database` — the records, the statements, how rows are encoded into
  parameters and decoded from values, search patterns, and the database
  operations.
- `indexer` — the index commands and their sender, document records built
  from file metadata, the owning folder of a path among the stored folders
  (`watched_file_record`), and reconciliation of a folder with a scan
  (`reconcile_step`, `reconcile_in_transaction`).
- `sql`, `text`, `clock` — the boundary to rusqlite, string helpers, the
  system clock.

`app/` holds what runs around it: the Tauri commands and setup, the notify
watcher thread, the index worker thread, directory walks and file metadata.
