use root_core::events::{
    handle_fs_event, plan_watch, EventPath, FsEventKind, RenameKind, WatchStep,
};
use root_core::filesystem::{is_dir_excluded, is_supported_doc, keep_walk_entry, SUPPORTED_EXTENSIONS};
use root_core::indexer::{IndexCommand, IndexSender};
use root_core::paths::{find_owning_folder, DocPath, FolderSet};
use std::sync::{Arc, RwLock};

const DIR: &str = "/tmp/root-tests";

fn file_in(dir: &str, name: &str) -> DocPath {
    DocPath::new(&format!("{dir}/{name}"))
}

fn present(path: DocPath) -> EventPath {
    EventPath { path, is_symlink: false, exists: true }
}

fn send_all(sender: &IndexSender, cmds: Vec<IndexCommand>) {
    for cmd in cmds {
        sender.send(cmd).unwrap();
    }
}

#[test]
fn test_supported_extensions_all_accepted() {
    for ext in SUPPORTED_EXTENSIONS {
        let path = file_in(DIR, &format!("file.{ext}"));
        assert!(
            is_supported_doc(&path, false),
            "Extension .{ext} should be supported"
        );
    }
}

#[test]
fn test_unsupported_extensions_rejected() {
    for ext in &["exe", "dll", "zip", "tar", "mp3", "png", "jpg", "rs", "py"] {
        let path = file_in(DIR, &format!("file.{ext}"));
        assert!(
            !is_supported_doc(&path, false),
            "Extension .{ext} should be rejected"
        );
    }
}

#[test]
fn test_extension_check_is_case_insensitive() {
    for name in &["FILE.PDF", "doc.DOCX", "sheet.XlSx", "note.MD"] {
        let path = file_in(DIR, name);
        assert!(
            is_supported_doc(&path, false),
            "{name} should be accepted (case-insensitive)"
        );
    }
}

#[test]
fn test_hidden_files_rejected() {
    let path = file_in(DIR, ".hidden.pdf");
    assert!(!is_supported_doc(&path, false));
}

#[test]
fn test_no_extension_rejected() {
    let path = file_in(DIR, "noextension");
    assert!(!is_supported_doc(&path, false));
}

#[test]
fn test_excluded_dirs_all_rejected() {
    for name in &[
        ".git",
        ".vscode",
        "node_modules",
        "target",
        "build",
        "dist",
        "tmp",
        "temp",
    ] {
        assert!(is_dir_excluded(name), "{name} should be excluded");
    }
}

#[test]
fn test_excluded_dirs_case_insensitive() {
    assert!(is_dir_excluded("NODE_MODULES"));
    assert!(is_dir_excluded("Target"));
    assert!(is_dir_excluded("DIST"));
}

#[test]
fn test_hidden_dirs_excluded() {
    assert!(is_dir_excluded(".hidden_dir"));
    assert!(is_dir_excluded(".git"));
}

#[test]
fn test_normal_dirs_not_excluded() {
    assert!(!is_dir_excluded("Documents"));
    assert!(!is_dir_excluded("Projects"));
    assert!(!is_dir_excluded("my_folder"));
}

#[test]
fn test_symlinks_rejected() {
    let link = file_in(DIR, "link.pdf");
    assert!(!is_supported_doc(&link, true), "symlink should be rejected");
    let real = file_in(DIR, "real.pdf");
    assert!(is_supported_doc(&real, false));
}

#[test]
fn test_unicode_filenames_accepted() {
    let names = ["документ.pdf", "文件.docx", "résumé.pdf"];
    for name in &names {
        let path = file_in(DIR, name);
        assert!(is_supported_doc(&path, false), "{name} should be accepted");
    }
}

#[test]
fn test_special_character_filenames_accepted() {
    for name in &[
        "file with spaces.pdf",
        "report(final).docx",
        "data_2024.xlsx",
    ] {
        let path = file_in(DIR, name);
        assert!(is_supported_doc(&path, false), "{name} should be accepted");
    }
}

#[test]
fn test_dynamic_watch_unwatch_visibility() {
    let monitored = Arc::new(RwLock::new(FolderSet::new()));

    // 1. Initial empty
    assert!(monitored.read().unwrap().is_empty());

    // 2. Add first folder
    let folder1 = DocPath::new("/data/docs");
    monitored.write().unwrap().insert(folder1.clone());
    assert!(monitored.read().unwrap().contains(&folder1));

    // 3. Add second folder after startup
    let folder2 = DocPath::new("/data/projects");
    monitored.write().unwrap().insert(folder2.clone());
    assert!(monitored.read().unwrap().contains(&folder1));
    assert!(monitored.read().unwrap().contains(&folder2));

    // 4. Remove first folder
    monitored.write().unwrap().remove(&folder1);
    assert!(!monitored.read().unwrap().contains(&folder1));
    assert!(monitored.read().unwrap().contains(&folder2));
}

#[test]
fn test_similar_prefix_folder_isolation() {
    let mut monitored = FolderSet::new();
    let folder = DocPath::new("/data/docs");
    monitored.insert(folder.clone());

    let target_file = DocPath::new("/data/docs/report.pdf");
    let similar_file = DocPath::new("/data/docs-old/report.pdf");
    let sibling_file = DocPath::new("/data/docs_archive/report.pdf");

    assert_eq!(find_owning_folder(&target_file, &monitored), Some(&folder));
    assert_eq!(find_owning_folder(&similar_file, &monitored), None);
    assert_eq!(find_owning_folder(&sibling_file, &monitored), None);
}

#[test]
fn test_watcher_first_second_and_removed_folder_events() {
    let (tx, rx) = std::sync::mpsc::sync_channel(20);
    let index_sender = IndexSender(tx);
    let monitored = Arc::new(RwLock::new(FolderSet::new()));

    let folder1 = DocPath::new("/tmp/root-events/f1");
    let folder2 = DocPath::new("/tmp/root-events/f2");

    // 1. Add first folder
    monitored.write().unwrap().insert(folder1.clone());

    let file1 = file_in("/tmp/root-events/f1", "doc1.pdf");
    let cmds = handle_fs_event(
        FsEventKind::Create,
        &vec![present(file1.clone())],
        &monitored.read().unwrap(),
    );
    send_all(&index_sender, cmds);

    // First folder receives event
    match rx.try_recv().unwrap() {
        IndexCommand::UpsertFile { file_path } => assert_eq!(file_path, file1),
        other => panic!("Expected UpsertFile, got {other:?}"),
    }

    // 2. Add second folder dynamically
    monitored.write().unwrap().insert(folder2.clone());

    let file2 = file_in("/tmp/root-events/f2", "doc2.pdf");
    let cmds = handle_fs_event(
        FsEventKind::Create,
        &vec![present(file2.clone())],
        &monitored.read().unwrap(),
    );
    send_all(&index_sender, cmds);

    // Second folder receives event
    match rx.try_recv().unwrap() {
        IndexCommand::UpsertFile { file_path } => assert_eq!(file_path, file2),
        other => panic!("Expected UpsertFile, got {other:?}"),
    }

    // 3. Remove first folder dynamically
    monitored.write().unwrap().remove(&folder1);

    let file3 = file_in("/tmp/root-events/f1", "doc3.pdf");
    let cmds = handle_fs_event(
        FsEventKind::Create,
        &vec![present(file3)],
        &monitored.read().unwrap(),
    );
    send_all(&index_sender, cmds);

    // Removed folder produces NO event
    assert!(rx.try_recv().is_err());
}

#[test]
fn test_rename_modes_and_cross_folder_handling() {
    let (tx, rx) = std::sync::mpsc::sync_channel(20);
    let index_sender = IndexSender(tx);

    let base = "/tmp/root-renames";
    let folder_a = DocPath::new(&format!("{base}/folder_a"));
    let folder_b = DocPath::new(&format!("{base}/folder_b"));

    let mut monitored = FolderSet::new();
    monitored.insert(folder_a.clone());
    monitored.insert(folder_b.clone());

    let both = FsEventKind::Rename(RenameKind::Both);

    // Rename within same watched folder
    let old_file = file_in(&format!("{base}/folder_a"), "old.pdf");
    let new_file = file_in(&format!("{base}/folder_a"), "new.pdf");
    let old_gone = EventPath { path: old_file.clone(), is_symlink: false, exists: false };
    let cmds = handle_fs_event(both, &vec![old_gone, present(new_file.clone())], &monitored);
    send_all(&index_sender, cmds);

    match rx.try_recv().unwrap() {
        IndexCommand::MarkMissing { file_path } => assert_eq!(file_path, old_file),
        other => panic!("Expected MarkMissing, got {other:?}"),
    }
    match rx.try_recv().unwrap() {
        IndexCommand::UpsertFile { file_path } => assert_eq!(file_path, new_file),
        other => panic!("Expected UpsertFile, got {other:?}"),
    }

    // Rename from monitored to outside folder
    let moved_outside = file_in(&format!("{base}/outside"), "moved.pdf");
    let new_gone = EventPath { path: new_file.clone(), is_symlink: false, exists: false };
    let cmds = handle_fs_event(both, &vec![new_gone, present(moved_outside)], &monitored);
    send_all(&index_sender, cmds);

    match rx.try_recv().unwrap() {
        IndexCommand::MarkMissing { file_path } => assert_eq!(file_path, new_file),
        other => panic!("Expected MarkMissing, got {other:?}"),
    }
    // Outside file must NOT be upserted
    assert!(rx.try_recv().is_err());

    // Rename between watched folders (folder_a -> folder_b)
    let file_in_a = file_in(&format!("{base}/folder_a"), "move_to_b.pdf");
    let file_in_b = file_in(&format!("{base}/folder_b"), "moved_in_b.pdf");
    let a_gone = EventPath { path: file_in_a.clone(), is_symlink: false, exists: false };
    let cmds = handle_fs_event(both, &vec![a_gone, present(file_in_b.clone())], &monitored);
    send_all(&index_sender, cmds);

    match rx.try_recv().unwrap() {
        IndexCommand::MarkMissing { file_path } => assert_eq!(file_path, file_in_a),
        other => panic!("Expected MarkMissing, got {other:?}"),
    }
    match rx.try_recv().unwrap() {
        IndexCommand::UpsertFile { file_path } => assert_eq!(file_path, file_in_b),
        other => panic!("Expected UpsertFile, got {other:?}"),
    }
}

// ── Further scenarios ────────────────────────────────────────────────────────

#[test]
fn remove_events_mark_every_path_missing_even_outside_folders() {
    let monitored = FolderSet::new();
    let a = file_in("/x", "a.pdf");
    let b = file_in("/y", "b.exe");
    let cmds = handle_fs_event(
        FsEventKind::Remove,
        &vec![present(a.clone()), present(b.clone())],
        &monitored,
    );
    assert_eq!(cmds.len(), 2);
    match (&cmds[0], &cmds[1]) {
        (IndexCommand::MarkMissing { file_path: p }, IndexCommand::MarkMissing { file_path: q }) => {
            assert_eq!(p, &a);
            assert_eq!(q, &b);
        }
        other => panic!("unexpected {other:?}"),
    }
}

#[test]
fn rename_any_with_one_path_depends_on_existence() {
    let mut monitored = FolderSet::new();
    monitored.insert(DocPath::new("/w"));
    let f = file_in("/w", "a.txt");
    let existing = handle_fs_event(
        FsEventKind::Rename(RenameKind::Any),
        &vec![present(f.clone())],
        &monitored,
    );
    assert!(matches!(&existing[..], [IndexCommand::UpsertFile { .. }]));
    let gone = EventPath { path: f.clone(), is_symlink: false, exists: false };
    let vanished = handle_fs_event(FsEventKind::Rename(RenameKind::Any), &vec![gone], &monitored);
    assert!(matches!(&vanished[..], [IndexCommand::MarkMissing { .. }]));
}

#[test]
fn access_and_other_events_yield_nothing() {
    let mut monitored = FolderSet::new();
    monitored.insert(DocPath::new("/w"));
    let f = present(file_in("/w", "a.txt"));
    assert!(handle_fs_event(FsEventKind::Access, &vec![f.clone()], &monitored).is_empty());
    assert!(handle_fs_event(FsEventKind::Other, &vec![f.clone()], &monitored).is_empty());
    assert!(handle_fs_event(FsEventKind::ModifyOther, &vec![f], &monitored).is_empty());
}

#[test]
fn modify_events_skip_unsupported_and_hidden_files() {
    let mut monitored = FolderSet::new();
    monitored.insert(DocPath::new("/w"));
    let cmds = handle_fs_event(
        FsEventKind::ModifyData,
        &vec![
            present(file_in("/w", "a.exe")),
            present(file_in("/w", ".b.pdf")),
            present(file_in("/w", "c.md")),
        ],
        &monitored,
    );
    assert_eq!(cmds.len(), 1);
    match &cmds[0] {
        IndexCommand::UpsertFile { file_path } => assert_eq!(file_path.as_str(), "/w/c.md"),
        other => panic!("unexpected {other:?}"),
    }
}

#[test]
fn rename_both_with_one_path_yields_nothing() {
    let mut monitored = FolderSet::new();
    monitored.insert(DocPath::new("/w"));
    let cmds = handle_fs_event(
        FsEventKind::Rename(RenameKind::Both),
        &vec![present(file_in("/w", "a.pdf"))],
        &monitored,
    );
    assert!(cmds.is_empty());
}

#[test]
fn watching_is_planned_in_order() {
    let mut monitored = FolderSet::new();
    let p = DocPath::new("/w");
    assert_eq!(plan_watch(&monitored, &p, false, false), WatchStep::PathMissing);
    assert_eq!(plan_watch(&monitored, &p, true, false), WatchStep::StartWatcher);
    assert_eq!(plan_watch(&monitored, &p, true, true), WatchStep::ExtendWatcher);
    monitored.insert(p.clone());
    assert_eq!(plan_watch(&monitored, &p, false, true), WatchStep::AlreadyWatched);
}

#[test]
fn walk_keeps_root_and_skips_excluded_directories() {
    assert!(keep_walk_entry(0, true, Some(".git")));
    assert!(!keep_walk_entry(1, true, Some("node_modules")));
    assert!(keep_walk_entry(1, false, Some(".hidden.pdf")));
    assert!(keep_walk_entry(2, true, Some("Documents")));
    assert!(keep_walk_entry(2, true, None));
}

#[test]
fn excluded_names_need_a_whole_match() {
    assert!(!is_dir_excluded("targets"));
    assert!(!is_dir_excluded("tm"));
    assert!(is_dir_excluded("$recycle.bin"));
    assert!(is_dir_excluded("SYSTEM VOLUME INFORMATION"));
    assert!(!is_dir_excluded(""));
}

#[test]
fn paths_split_as_the_platform_reads_them() {
    for text in ["/a/b/c.pdf", "/a//b/./c.pdf", "rel/x", "/", "/w/.."] {
        let p = DocPath::new(text);
        assert_eq!(p.depth(), std::path::Path::new(text).components().count());
        assert_eq!(p.file_name(), std::path::Path::new(text).file_name().and_then(|n| n.to_str()));
    }
    assert_eq!(DocPath::new("/a//b/./c.pdf").depth(), 4);
    assert_eq!(DocPath::new("/w/..").file_name(), None);
}
