//! How filesystem events reported by the watcher become index commands, and
//! what starting to watch a folder involves.

use vstd::prelude::*;

use crate::filesystem::{is_supported_doc, spec_is_supported_doc};
use crate::indexer::{CommandView, IndexCommand};
use crate::paths::{find_owning_folder, holds_components, is_under, DocPath, DocPathView, FolderSet};

verus! {

/// The kinds of renames the watcher reports.
#[derive(Clone, Copy, Debug, PartialEq, Eq)]
pub enum RenameKind {
    /// The platform does not say which side of the rename this is.
    Any,
    /// The new name.
    To,
    /// The old name.
    From,
    /// Both names, the old one first.
    Both,
    Other,
}

/// The kinds of filesystem events the indexer tells apart.
#[derive(Clone, Copy, Debug, PartialEq, Eq)]
pub enum FsEventKind {
    Any,
    Access,
    Create,
    ModifyAny,
    ModifyData,
    ModifyMetadata,
    ModifyOther,
    Rename(RenameKind),
    Remove,
    Other,
}

/// A path named by an event, with what the filesystem reports of it.
#[derive(Clone, Debug)]
pub struct EventPath {
    pub path: DocPath,
    pub is_symlink: bool,
    pub exists: bool,
}

/// Some monitored folder contains `path`.
pub open spec fn owned(path: DocPathView, monitored: Seq<DocPathView>) -> bool {
    exists|i: int| 0 <= i < monitored.len() && is_under(path.components, (#[trigger] monitored[i]).components)
}

/// A path is indexed after an event when a monitored folder owns it and it
/// is a supported document.
pub open spec fn accepted(p: EventPath, monitored: Seq<DocPathView>) -> bool {
    owned(p.path@, monitored) && spec_is_supported_doc(p.path@, p.is_symlink)
}

/// One `UpsertFile` for each accepted path, in order.
pub open spec fn upserts(paths: Seq<EventPath>, monitored: Seq<DocPathView>) -> Seq<CommandView>
    decreases paths.len(),
{
    if paths.len() == 0 {
        Seq::empty()
    } else {
        upserts(paths.drop_last(), monitored) + if accepted(paths.last(), monitored) {
            seq![CommandView::UpsertFile(paths.last().path@)]
        } else {
            Seq::empty()
        }
    }
}

/// One `MarkMissing` for each path, in order.
pub open spec fn missings(paths: Seq<EventPath>) -> Seq<CommandView> {
    paths.map_values(|p: EventPath| CommandView::MarkMissing(p.path@))
}

/// A rename from the first path to the second: the old path is missing, and
/// the new one is indexed when accepted.
pub open spec fn rename_pair(old: EventPath, new: EventPath, monitored: Seq<DocPathView>) -> Seq<CommandView> {
    seq![CommandView::MarkMissing(old.path@)] + if accepted(new, monitored) {
        seq![CommandView::UpsertFile(new.path@)]
    } else {
        Seq::empty()
    }
}

/// The commands an event yields.
pub open spec fn spec_route(kind: FsEventKind, paths: Seq<EventPath>, monitored: Seq<DocPathView>) -> Seq<CommandView> {
    match kind {
        FsEventKind::Create | FsEventKind::ModifyData | FsEventKind::ModifyMetadata
        | FsEventKind::Rename(RenameKind::To) | FsEventKind::ModifyAny | FsEventKind::Any => upserts(
            paths,
            monitored,
        ),
        FsEventKind::Remove | FsEventKind::Rename(RenameKind::From) => missings(paths),
        FsEventKind::Rename(RenameKind::Both) => if paths.len() >= 2 {
            rename_pair(paths[0], paths[1], monitored)
        } else {
            Seq::empty()
        },
        FsEventKind::Rename(RenameKind::Any) => if paths.len() >= 2 {
            rename_pair(paths[0], paths[1], monitored)
        } else if paths.len() == 1 {
            if paths[0].exists {
                if accepted(paths[0], monitored) {
                    seq![CommandView::UpsertFile(paths[0].path@)]
                } else {
                    Seq::empty()
                }
            } else {
                seq![CommandView::MarkMissing(paths[0].path@)]
            }
        } else {
            Seq::empty()
        },
        _ => Seq::empty(),
    }
}

/// The events that report their paths as present: created, written, renamed
/// to, or of a kind the platform does not tell.
pub open spec fn reports_present(kind: FsEventKind) -> bool {
    ||| kind == FsEventKind::Create
    ||| kind == FsEventKind::ModifyData
    ||| kind == FsEventKind::ModifyMetadata
    ||| kind == FsEventKind::Rename(RenameKind::To)
    ||| kind == FsEventKind::ModifyAny
    ||| kind == FsEventKind::Any
}

/// An `UpsertFile` for each of `paths` that is accepted, in order.
pub open spec fn index_accepted(paths: Seq<EventPath>, monitored: Seq<DocPathView>) -> Seq<CommandView> {
    paths.filter(|p: EventPath| accepted(p, monitored)).map_values(|p: EventPath| CommandView::UpsertFile(p.path@))
}

proof fn lemma_upserts_index_accepted(paths: Seq<EventPath>, monitored: Seq<DocPathView>)
    ensures
        upserts(paths, monitored) == index_accepted(paths, monitored),
    decreases paths.len(),
{
    reveal(Seq::filter);
    if paths.len() > 0 {
        lemma_upserts_index_accepted(paths.drop_last(), monitored);
        let f = paths.drop_last().filter(|p: EventPath| accepted(p, monitored));
        if accepted(paths.last(), monitored) {
            assert(index_accepted(paths, monitored) =~= index_accepted(paths.drop_last(), monitored).push(
                CommandView::UpsertFile(paths.last().path@),
            ));
            assert(upserts(paths, monitored) =~= upserts(paths.drop_last(), monitored).push(
                CommandView::UpsertFile(paths.last().path@),
            ));
        } else {
            assert(index_accepted(paths, monitored) =~= index_accepted(paths.drop_last(), monitored));
            assert(upserts(paths, monitored) =~= upserts(paths.drop_last(), monitored));
        }
    } else {
        assert(index_accepted(paths, monitored) =~= Seq::<CommandView>::empty());
    }
}

/// An event that reports its paths as present indexes exactly the accepted
/// ones, in order, and marks nothing missing; in particular a rename onto a
/// path is handled as a creation of it.
pub proof fn lemma_present_events_index_accepted(kind: FsEventKind, paths: Seq<EventPath>, monitored: Seq<DocPathView>)
    requires
        reports_present(kind),
    ensures
        spec_route(kind, paths, monitored) == index_accepted(paths, monitored),
        spec_route(kind, paths, monitored) == spec_route(FsEventKind::Create, paths, monitored),
        forall|i: int|
            0 <= i < spec_route(kind, paths, monitored).len() ==> #[trigger] spec_route(kind, paths, monitored)[i] is UpsertFile,
{
    lemma_upserts_index_accepted(paths, monitored);
}

pub open spec fn commands_view(cmds: Seq<IndexCommand>) -> Seq<CommandView> {
    cmds.map_values(|c: IndexCommand| c@)
}

fn is_accepted(p: &EventPath, monitored: &FolderSet) -> (r: bool)
    ensures
        r == accepted(*p, monitored@),
{
    let owner = find_owning_folder(&p.path, monitored);
    owner.is_some() && is_supported_doc(&p.path, p.is_symlink)
}

fn push_command(cmds: &mut Vec<IndexCommand>, cmd: IndexCommand)
    ensures
        commands_view(final(cmds)@) == commands_view(old(cmds)@).push(cmd@),
{
    let ghost before = cmds@;
    cmds.push(cmd);
    assert(commands_view(cmds@) =~= commands_view(before).push(cmd@));
}

fn upsert_accepted(paths: &Vec<EventPath>, monitored: &FolderSet) -> (cmds: Vec<IndexCommand>)
    ensures
        commands_view(cmds@) == upserts(paths@, monitored@),
{
    let mut cmds: Vec<IndexCommand> = Vec::new();
    let mut i: usize = 0;
    assert(paths@.take(0) =~= Seq::<EventPath>::empty());
    assert(commands_view(cmds@) =~= Seq::<CommandView>::empty());
    while i < paths.len()
        invariant
            i <= paths.len(),
            commands_view(cmds@) == upserts(paths@.take(i as int), monitored@),
        decreases paths.len() - i,
    {
        assert(paths@.take(i + 1).drop_last() =~= paths@.take(i as int));
        assert(paths@.take(i + 1).last() == paths@[i as int]);
        if is_accepted(&paths[i], monitored) {
            push_command(&mut cmds, IndexCommand::UpsertFile { file_path: paths[i].path.duplicate() });
        } else {
            assert(upserts(paths@.take(i + 1), monitored@) =~= upserts(paths@.take(i as int), monitored@));
        }
        i = i + 1;
    }
    assert(paths@.take(paths.len() as int) =~= paths@);
    cmds
}

fn mark_all_missing(paths: &Vec<EventPath>) -> (cmds: Vec<IndexCommand>)
    ensures
        commands_view(cmds@) == missings(paths@),
{
    let mut cmds: Vec<IndexCommand> = Vec::new();
    let mut i: usize = 0;
    while i < paths.len()
        invariant
            i <= paths.len(),
            commands_view(cmds@) == missings(paths@.take(i as int)),
        decreases paths.len() - i,
    {
        push_command(&mut cmds, IndexCommand::MarkMissing { file_path: paths[i].path.duplicate() });
        assert(missings(paths@.take(i + 1)) =~= missings(paths@.take(i as int)).push(
            CommandView::MarkMissing(paths@[i as int].path@),
        ));
        i = i + 1;
    }
    assert(paths@.take(paths.len() as int) =~= paths@);
    cmds
}

fn rename_commands(old: &EventPath, new: &EventPath, monitored: &FolderSet) -> (cmds: Vec<IndexCommand>)
    ensures
        commands_view(cmds@) == rename_pair(*old, *new, monitored@),
{
    let mut cmds: Vec<IndexCommand> = Vec::new();
    push_command(&mut cmds, IndexCommand::MarkMissing { file_path: old.path.duplicate() });
    if is_accepted(new, monitored) {
        push_command(&mut cmds, IndexCommand::UpsertFile { file_path: new.path.duplicate() });
    }
    assert(commands_view(cmds@) =~= rename_pair(*old, *new, monitored@));
    cmds
}

/// The commands for a filesystem event of the given kind about `paths`,
/// given the folders being monitored.
pub fn handle_fs_event(kind: FsEventKind, paths: &Vec<EventPath>, monitored: &FolderSet) -> (cmds: Vec<IndexCommand>)
    ensures
        commands_view(cmds@) == spec_route(kind, paths@, monitored@),
        reports_present(kind) ==> commands_view(cmds@) == index_accepted(paths@, monitored@),
        (kind == FsEventKind::Remove || kind == FsEventKind::Rename(RenameKind::From)) ==> commands_view(cmds@)
            == paths@.map_values(|p: EventPath| CommandView::MarkMissing(p.path@)),
{
    proof {
        if reports_present(kind) {
            lemma_present_events_index_accepted(kind, paths@, monitored@);
        }
    }
    match kind {
        FsEventKind::Create | FsEventKind::ModifyData | FsEventKind::ModifyMetadata
        | FsEventKind::Rename(RenameKind::To) | FsEventKind::ModifyAny | FsEventKind::Any => upsert_accepted(
            paths,
            monitored,
        ),
        FsEventKind::Remove | FsEventKind::Rename(RenameKind::From) => mark_all_missing(paths),
        FsEventKind::Rename(RenameKind::Both) => {
            if paths.len() >= 2 {
                rename_commands(&paths[0], &paths[1], monitored)
            } else {
                let cmds: Vec<IndexCommand> = Vec::new();
                assert(commands_view(cmds@) =~= Seq::<CommandView>::empty());
                cmds
            }
        },
        FsEventKind::Rename(RenameKind::Any) => {
            if paths.len() >= 2 {
                rename_commands(&paths[0], &paths[1], monitored)
            } else {
                let mut cmds: Vec<IndexCommand> = Vec::new();
                assert(commands_view(cmds@) =~= Seq::<CommandView>::empty());
                if paths.len() == 1 {
                    let p = &paths[0];
                    if p.exists {
                        if is_accepted(p, monitored) {
                            push_command(&mut cmds, IndexCommand::UpsertFile { file_path: p.path.duplicate() });
                        }
                    } else {
                        push_command(&mut cmds, IndexCommand::MarkMissing { file_path: p.path.duplicate() });
                    }
                }
                assert(commands_view(cmds@) =~= spec_route(kind, paths@, monitored@));
                cmds
            }
        },
        _ => {
            let cmds: Vec<IndexCommand> = Vec::new();
            assert(commands_view(cmds@) =~= Seq::<CommandView>::empty());
            cmds
        },
    }
}

proof fn lemma_upserts_accepted(paths: Seq<EventPath>, monitored: Seq<DocPathView>, k: int)
    requires
        0 <= k < upserts(paths, monitored).len(),
    ensures
        exists|i: int|
            0 <= i < paths.len() && accepted(#[trigger] paths[i], monitored) && upserts(paths, monitored)[k]
                == CommandView::UpsertFile(paths[i].path@),
    decreases paths.len(),
{
    let init = paths.drop_last();
    let u0 = upserts(init, monitored);
    if k < u0.len() {
        lemma_upserts_accepted(init, monitored, k);
        let i = choose|i: int|
            0 <= i < init.len() && accepted(#[trigger] init[i], monitored) && u0[k] == CommandView::UpsertFile(
                init[i].path@,
            );
        assert(paths[i] == init[i]);
    } else {
        assert(paths[paths.len() - 1] == paths.last());
    }
}

/// An event never yields a command to index a path that no monitored folder
/// owns, or that is not a supported document: changes in folders that are
/// not (or no longer) watched are ignored. Every `UpsertFile` names one of
/// the event's paths.
pub proof fn lemma_indexed_paths_are_owned(kind: FsEventKind, paths: Seq<EventPath>, monitored: Seq<DocPathView>, k: int)
    requires
        0 <= k < spec_route(kind, paths, monitored).len(),
        spec_route(kind, paths, monitored)[k] is UpsertFile,
    ensures
        exists|i: int|
            0 <= i < paths.len() && accepted(#[trigger] paths[i], monitored) && spec_route(kind, paths, monitored)[k]
                == CommandView::UpsertFile(paths[i].path@),
{
    match kind {
        FsEventKind::Create | FsEventKind::ModifyData | FsEventKind::ModifyMetadata
        | FsEventKind::Rename(RenameKind::To) | FsEventKind::ModifyAny | FsEventKind::Any => {
            lemma_upserts_accepted(paths, monitored, k);
        },
        FsEventKind::Rename(RenameKind::Both) | FsEventKind::Rename(RenameKind::Any) => {
            if paths.len() >= 2 {
                assert(k == 1);
            } else {
                assert(k == 0);
            }
        },
        _ => {},
    }
}

/// A removal (or the old side of a rename) marks every path it names as
/// missing, whether or not a monitored folder owns it.
pub proof fn lemma_removals_mark_every_path(kind: FsEventKind, paths: Seq<EventPath>, monitored: Seq<DocPathView>)
    requires
        kind == FsEventKind::Remove || kind == FsEventKind::Rename(RenameKind::From),
    ensures
        spec_route(kind, paths, monitored).len() == paths.len(),
        forall|i: int|
            0 <= i < paths.len() ==> #[trigger] spec_route(kind, paths, monitored)[i] == CommandView::MarkMissing(
                paths[i].path@,
            ),
{
}

// ─── Watching folders ───────────────────────────────────────────────────────

/// What starting to watch a folder involves.
#[derive(Clone, Copy, Debug, PartialEq, Eq)]
pub enum WatchStep {
    /// The folder is already watched: nothing to do.
    AlreadyWatched,
    /// The folder does not exist: an error.
    PathMissing,
    /// No watcher runs yet: start one, then watch the folder with it.
    StartWatcher,
    /// Watch the folder with the running watcher.
    ExtendWatcher,
}

/// Decides how to start watching `path`: watching is idempotent, a folder
/// that does not exist is refused, and the first folder starts the watcher.
pub fn plan_watch(monitored: &FolderSet, path: &DocPath, path_exists: bool, has_watcher: bool) -> (step: WatchStep)
    ensures
        step == if holds_components(monitored@, path@.components) {
            WatchStep::AlreadyWatched
        } else if !path_exists {
            WatchStep::PathMissing
        } else if !has_watcher {
            WatchStep::StartWatcher
        } else {
            WatchStep::ExtendWatcher
        },
{
    if monitored.contains(path) {
        WatchStep::AlreadyWatched
    } else if !path_exists {
        WatchStep::PathMissing
    } else if !has_watcher {
        WatchStep::StartWatcher
    } else {
        WatchStep::ExtendWatcher
    }
}

} // verus!
