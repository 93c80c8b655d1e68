//! The per-item decision surface of the engine. Each function here
//! turns the facts observed about one declared item — does the target
//! exist, is it a directory, does the link already point home, what did
//! the operator answer — into the exact list of actions to perform, in
//! order. The program around the library observes, asks when
//! [`conflict_needs_prompt`] and its siblings say so, and performs the
//! actions; it decides nothing itself. The lemmas at the end prove
//! that executing each plan is exactly the step semantics of
//! [`crate::model`].

use vstd::prelude::*;

use crate::context::{spec_apply_path, ContextV};
use crate::error::ErrorV;
use crate::event::EventV;
use crate::filesystem::{dir_at, exists_at, parent_ok, root_path, NodeV, with_tree_copied};
use crate::model::{
    command_step, copy_step, dir_step, file_parent, file_step, link_points_at, link_step, mk_dirs,
    pop_answer, push_event, push_spawn, remove_step, with_fs,
};
use crate::paths::parent_path;
use crate::world::{spec_next_answer, WorldV};

verus! {

/// The five phases of one apply, in the order they run.
#[derive(Debug, PartialEq, Eq)]
pub enum Phase {
    Directories,
    EmptyFiles,
    Links,
    Copies,
    Commands,
}

/// The fixed phase order: directories, then empty files, then links,
/// then copies, then commands.
pub fn phase_order() -> (r: Vec<Phase>)
    ensures
        r@ == seq![
            Phase::Directories,
            Phase::EmptyFiles,
            Phase::Links,
            Phase::Copies,
            Phase::Commands,
        ],
{
    let mut r: Vec<Phase> = Vec::new();
    r.push(Phase::Directories);
    r.push(Phase::EmptyFiles);
    r.push(Phase::Links);
    r.push(Phase::Copies);
    r.push(Phase::Commands);
    proof {
        assert(r@ =~= seq![
            Phase::Directories,
            Phase::EmptyFiles,
            Phase::Links,
            Phase::Copies,
            Phase::Commands,
        ]);
    }
    r
}

/// How one conflicting entry is removed: a regular file or symbolic
/// link goes alone, anything else goes with its whole tree.
#[derive(Debug, PartialEq, Eq)]
pub enum RemovalKind {
    SingleEntry,
    WholeTree,
}

/// The removal primitive's choice, from whether the path is a regular
/// file or a symbolic link.
pub fn decide_removal(file_or_link: bool) -> (r: RemovalKind)
    ensures
        r == (if file_or_link {
            RemovalKind::SingleEntry
        } else {
            RemovalKind::WholeTree
        }),
{
    if file_or_link {
        RemovalKind::SingleEntry
    } else {
        RemovalKind::WholeTree
    }
}

/// The actions of one declared directory.
#[derive(Debug, PartialEq, Eq)]
pub enum DirectoryAction {
    /// Report the intended creation.
    ReportCreating,
    /// Report that the directory is already there.
    ReportSkippingExisting,
    /// Create the directory and every missing component on the way.
    CreateDirectoryTree,
}

/// The plan of one declared directory: report; then, outside a dry
/// run, either report the existing directory or create the tree.
pub open spec fn spec_decide_directory(dry: bool, already_directory: bool) -> Seq<DirectoryAction> {
    seq![DirectoryAction::ReportCreating] + if dry {
        Seq::empty()
    } else if already_directory {
        seq![DirectoryAction::ReportSkippingExisting]
    } else {
        seq![DirectoryAction::CreateDirectoryTree]
    }
}

/// Decide one declared directory from whether its resolved path is
/// already a directory.
pub fn decide_directory(dry: bool, already_directory: bool) -> (r: Vec<DirectoryAction>)
    ensures
        r@ == spec_decide_directory(dry, already_directory),
{
    let mut r: Vec<DirectoryAction> = Vec::new();
    r.push(DirectoryAction::ReportCreating);
    if dry {
    } else if already_directory {
        r.push(DirectoryAction::ReportSkippingExisting);
    } else {
        r.push(DirectoryAction::CreateDirectoryTree);
    }
    proof {
        assert(r@ =~= spec_decide_directory(dry, already_directory));
    }
    r
}

/// Must the operator be asked before a conflicting empty-file target
/// is removed? Exactly when the target exists and replacement is off;
/// this prompt precedes the dry-run guard, so it fires in dry runs too.
pub fn conflict_needs_prompt(replace: bool, target_exists: bool) -> (r: bool)
    ensures
        r == (target_exists && !replace),
{
    target_exists && !replace
}

/// The actions of one declared empty file.
#[derive(Debug, PartialEq, Eq)]
pub enum FileAction {
    /// Remove the conflicting entry at the target.
    RemoveTarget,
    /// Run the whole directory item for the target's parent path.
    EnsureParentDirectory,
    /// Report the intended creation.
    ReportCreatingEmptyFile,
    /// Create the file, leaving an existing one's contents untouched.
    CreateEmptyFile,
}

/// The plan of one declared empty file: remove a conflicting target
/// when replacement or an affirmative answer says so (a declined
/// prompt suppresses only the removal); then ensure the parent
/// directory, report, and — outside a dry run — create the file.
pub open spec fn spec_decide_empty_file(
    dry: bool,
    replace: bool,
    target_exists: bool,
    answer: bool,
) -> Seq<FileAction> {
    (if target_exists && (replace || answer) && !dry {
        seq![FileAction::RemoveTarget]
    } else {
        Seq::empty()
    }) + seq![FileAction::EnsureParentDirectory, FileAction::ReportCreatingEmptyFile] + (if dry {
        Seq::empty()
    } else {
        seq![FileAction::CreateEmptyFile]
    })
}

/// Decide one declared empty file from whether its resolved target
/// exists and, where [`conflict_needs_prompt`] said to ask, the answer.
pub fn decide_empty_file(dry: bool, replace: bool, target_exists: bool, answer: bool) -> (r: Vec<
    FileAction,
>)
    ensures
        r@ == spec_decide_empty_file(dry, replace, target_exists, answer),
{
    let mut r: Vec<FileAction> = Vec::new();
    if target_exists && (replace || answer) && !dry {
        r.push(FileAction::RemoveTarget);
    }
    r.push(FileAction::EnsureParentDirectory);
    r.push(FileAction::ReportCreatingEmptyFile);
    if !dry {
        r.push(FileAction::CreateEmptyFile);
    }
    proof {
        assert(r@ =~= spec_decide_empty_file(dry, replace, target_exists, answer));
    }
    r
}

/// Must the operator be asked before a conflicting link destination is
/// removed? Only outside a dry run (the dry guard precedes the
/// conflict logic for links), when the destination does not already
/// point at the source, is occupied, and replacement is off.
pub fn link_needs_prompt(
    dry: bool,
    replace: bool,
    destination_points_at_source: bool,
    destination_exists: bool,
) -> (r: bool)
    ensures
        r == (!dry && !destination_points_at_source && destination_exists && !replace),
{
    !dry && !destination_points_at_source && destination_exists && !replace
}

/// The actions of one declared symbolic link.
#[derive(Debug, PartialEq, Eq)]
pub enum LinkAction {
    /// Report the intended link.
    ReportLinking,
    /// Report that the destination already points at the source.
    ReportSkippingExistingLink,
    /// Remove the conflicting entry at the destination.
    RemoveDestination,
    /// Create the symbolic link.
    CreateLink,
}

/// The plan of one declared symbolic link: report; stop there in a dry
/// run; skip, with a report, a destination already pointing at the
/// canonical source; otherwise remove any occupant when replacement or
/// an affirmative answer says so, and attempt the link regardless of a
/// declined prompt.
pub open spec fn spec_decide_symlink(
    dry: bool,
    replace: bool,
    destination_points_at_source: bool,
    destination_exists: bool,
    answer: bool,
) -> Seq<LinkAction> {
    seq![LinkAction::ReportLinking] + if dry {
        Seq::empty()
    } else if destination_points_at_source {
        seq![LinkAction::ReportSkippingExistingLink]
    } else {
        (if destination_exists && (replace || answer) {
            seq![LinkAction::RemoveDestination]
        } else {
            Seq::empty()
        }) + seq![LinkAction::CreateLink]
    }
}

/// Decide one declared symbolic link from what the destination holds
/// and, where [`link_needs_prompt`] said to ask, the answer.
pub fn decide_symlink(
    dry: bool,
    replace: bool,
    destination_points_at_source: bool,
    destination_exists: bool,
    answer: bool,
) -> (r: Vec<LinkAction>)
    ensures
        r@ == spec_decide_symlink(
            dry,
            replace,
            destination_points_at_source,
            destination_exists,
            answer,
        ),
{
    let mut r: Vec<LinkAction> = Vec::new();
    r.push(LinkAction::ReportLinking);
    if dry {
    } else if destination_points_at_source {
        r.push(LinkAction::ReportSkippingExistingLink);
    } else {
        if destination_exists && (replace || answer) {
            r.push(LinkAction::RemoveDestination);
        }
        r.push(LinkAction::CreateLink);
    }
    proof {
        assert(r@ =~= spec_decide_symlink(
            dry,
            replace,
            destination_points_at_source,
            destination_exists,
            answer,
        ));
    }
    r
}

/// Must the operator be asked before a conflicting copy destination is
/// removed? Exactly when the destination exists and replacement is
/// off; as for empty files, this prompt precedes the dry-run guard.
pub fn copy_needs_prompt(replace: bool, destination_exists: bool) -> (r: bool)
    ensures
        r == (destination_exists && !replace),
{
    destination_exists && !replace
}

/// The actions of one declared copy, up to and including the handing
/// over to the transfer itself.
#[derive(Debug, PartialEq, Eq)]
pub enum CopyAction {
    /// Report the intended removal of the conflicting destination.
    ReportRemoving,
    /// Remove the conflicting entry at the destination.
    RemoveDestination,
    /// Report the intended copy.
    ReportCopying,
    /// Observe the source's kind and perform the transfer decided by
    /// [`decide_copy_transfer`].
    Transfer,
}

/// The plan of one declared copy: a declined prompt skips the whole
/// item — nothing at all is done, unlike the file and link plans;
/// otherwise an existing destination is reported and, outside a dry
/// run, removed; the copy is reported; and outside a dry run the
/// transfer runs.
pub open spec fn spec_decide_copy(
    dry: bool,
    replace: bool,
    destination_exists: bool,
    answer: bool,
) -> Seq<CopyAction> {
    if destination_exists && !(replace || answer) {
        Seq::empty()
    } else {
        (if destination_exists {
            seq![CopyAction::ReportRemoving] + if dry {
                Seq::empty()
            } else {
                seq![CopyAction::RemoveDestination]
            }
        } else {
            Seq::empty()
        }) + seq![CopyAction::ReportCopying] + (if dry {
            Seq::empty()
        } else {
            seq![CopyAction::Transfer]
        })
    }
}

/// Decide one declared copy from whether the destination exists and,
/// where [`copy_needs_prompt`] said to ask, the answer.
pub fn decide_copy(dry: bool, replace: bool, destination_exists: bool, answer: bool) -> (r: Vec<
    CopyAction,
>)
    ensures
        r@ == spec_decide_copy(dry, replace, destination_exists, answer),
{
    let mut r: Vec<CopyAction> = Vec::new();
    if destination_exists && !(replace || answer) {
        proof {
            assert(r@ =~= spec_decide_copy(dry, replace, destination_exists, answer));
        }
        return r;
    }
    if destination_exists {
        r.push(CopyAction::ReportRemoving);
        if !dry {
            r.push(CopyAction::RemoveDestination);
        }
    }
    r.push(CopyAction::ReportCopying);
    if !dry {
        r.push(CopyAction::Transfer);
    }
    proof {
        assert(r@ =~= spec_decide_copy(dry, replace, destination_exists, answer));
    }
    r
}

/// The transfer itself, once the source's kind is known.
#[derive(Debug, PartialEq, Eq)]
pub enum TransferAction {
    /// Copy the regular file to the destination, overwriting.
    CopyFileContents,
    /// Create the destination's missing parent directories.
    EnsureDestinationParent,
    /// Copy the whole directory tree to the destination.
    CopyDirectoryTree,
}

/// The transfer plan: a regular file is copied directly; anything else
/// has the destination's parents created and its tree copied.
pub open spec fn spec_decide_copy_transfer(source_is_file: bool) -> Seq<TransferAction> {
    if source_is_file {
        seq![TransferAction::CopyFileContents]
    } else {
        seq![TransferAction::EnsureDestinationParent, TransferAction::CopyDirectoryTree]
    }
}

/// Decide the transfer from whether the canonical source is a regular
/// file.
pub fn decide_copy_transfer(source_is_file: bool) -> (r: Vec<TransferAction>)
    ensures
        r@ == spec_decide_copy_transfer(source_is_file),
{
    let mut r: Vec<TransferAction> = Vec::new();
    if source_is_file {
        r.push(TransferAction::CopyFileContents);
    } else {
        r.push(TransferAction::EnsureDestinationParent);
        r.push(TransferAction::CopyDirectoryTree);
    }
    proof {
        assert(r@ =~= spec_decide_copy_transfer(source_is_file));
    }
    r
}

/// What one declared command comes to.
#[derive(Debug, PartialEq, Eq)]
pub enum CommandDecision {
    /// The token list is empty: abort the whole apply.
    Abort,
    /// Report the command and stop: a dry run.
    ReportOnly,
    /// Report the command and launch it.
    ReportAndSpawn,
}

/// Decide one declared command from its number of tokens.
pub fn decide_command(dry: bool, token_count: usize) -> (r: CommandDecision)
    ensures
        r == (if token_count == 0 {
            CommandDecision::Abort
        } else if dry {
            CommandDecision::ReportOnly
        } else {
            CommandDecision::ReportAndSpawn
        }),
{
    if token_count == 0 {
        CommandDecision::Abort
    } else if dry {
        CommandDecision::ReportOnly
    } else {
        CommandDecision::ReportAndSpawn
    }
}

/// The model meaning of one directory action at a resolved path.
pub open spec fn directory_action_effect(w: WorldV, resolved: Seq<char>, a: DirectoryAction) -> (
    WorldV,
    Option<ErrorV>,
) {
    match a {
        DirectoryAction::ReportCreating => (
            push_event(w, EventV::Creating { path: resolved }),
            Option::None,
        ),
        DirectoryAction::ReportSkippingExisting => (
            push_event(w, EventV::SkippingExisting { path: resolved }),
            Option::None,
        ),
        DirectoryAction::CreateDirectoryTree => {
            let (m2, ok) = mk_dirs(w.fs, resolved);
            (
                with_fs(w, m2),
                if ok {
                    Option::None
                } else {
                    Option::Some(ErrorV::CreateDirectory { dir_path: resolved })
                },
            )
        },
    }
}

/// A directory plan executed on the model, aborting at the first error.
pub open spec fn directory_plan_effect(
    w: WorldV,
    resolved: Seq<char>,
    plan: Seq<DirectoryAction>,
) -> (WorldV, Option<ErrorV>)
    decreases plan.len(),
{
    if plan.len() == 0 {
        (w, Option::None)
    } else {
        let (w1, e) = directory_action_effect(w, resolved, plan[0]);
        if e is Some {
            (w1, e)
        } else {
            directory_plan_effect(w1, resolved, plan.drop_first())
        }
    }
}

/// Executing the directory plan decided from the observed facts is
/// exactly the directory step of the model.
pub proof fn lemma_directory_plan_is_the_step(w: WorldV, ctx: ContextV, dry: bool, path: Seq<char>)
    ensures
        ({
            let resolved = spec_apply_path(ctx, path);
            dir_step(w, ctx, dry, path) == directory_plan_effect(
                w,
                resolved,
                spec_decide_directory(dry, dir_at(w.fs, resolved)),
            )
        }),
{
    reveal_with_fuel(directory_plan_effect, 4);
    let resolved = spec_apply_path(ctx, path);
    let plan = spec_decide_directory(dry, dir_at(w.fs, resolved));
    if dry {
        assert(plan =~= seq![DirectoryAction::ReportCreating]);
        assert(plan.drop_first() =~= Seq::<DirectoryAction>::empty());
    } else if dir_at(w.fs, resolved) {
        assert(plan =~= seq![
            DirectoryAction::ReportCreating,
            DirectoryAction::ReportSkippingExisting,
        ]);
        assert(plan.drop_first() =~= seq![DirectoryAction::ReportSkippingExisting]);
        assert(plan.drop_first().drop_first() =~= Seq::<DirectoryAction>::empty());
    } else {
        assert(plan =~= seq![
            DirectoryAction::ReportCreating,
            DirectoryAction::CreateDirectoryTree,
        ]);
        assert(plan.drop_first() =~= seq![DirectoryAction::CreateDirectoryTree]);
        assert(plan.drop_first().drop_first() =~= Seq::<DirectoryAction>::empty());
    }
}

/// The tail of empty-file creation once the report is out and the dry
/// guard is passed: fails at the root or the empty path, leaves an
/// existing file or link untouched, fails on a directory or a missing
/// parent, and otherwise creates the file.
pub open spec fn created_file_effect(w: WorldV, resolved: Seq<char>) -> (WorldV, Option<ErrorV>) {
    if resolved.len() == 0 || resolved == root_path() {
        (w, Option::Some(ErrorV::CreateEmptyFile { file_path: resolved }))
    } else if w.fs.contains_key(resolved) {
        if w.fs[resolved] is Dir {
            (w, Option::Some(ErrorV::CreateEmptyFile { file_path: resolved }))
        } else {
            (w, Option::None)
        }
    } else if parent_ok(w.fs, resolved) {
        (with_fs(w, w.fs.insert(resolved, NodeV::File)), Option::None)
    } else {
        (w, Option::Some(ErrorV::CreateEmptyFile { file_path: resolved }))
    }
}

/// The model meaning of one empty-file action at a resolved path.
pub open spec fn file_action_effect(
    w: WorldV,
    ctx: ContextV,
    dry: bool,
    resolved: Seq<char>,
    a: FileAction,
) -> (WorldV, Option<ErrorV>) {
    match a {
        FileAction::RemoveTarget => remove_step(w, false, resolved),
        FileAction::EnsureParentDirectory => dir_step(w, ctx, dry, file_parent(resolved)),
        FileAction::ReportCreatingEmptyFile => (
            push_event(w, EventV::CreatingEmptyFile { path: resolved }),
            Option::None,
        ),
        FileAction::CreateEmptyFile => created_file_effect(w, resolved),
    }
}

/// An empty-file plan executed on the model, aborting at the first
/// error.
pub open spec fn file_plan_effect(
    w: WorldV,
    ctx: ContextV,
    dry: bool,
    resolved: Seq<char>,
    plan: Seq<FileAction>,
) -> (WorldV, Option<ErrorV>)
    decreases plan.len(),
{
    if plan.len() == 0 {
        (w, Option::None)
    } else {
        let (w1, e) = file_action_effect(w, ctx, dry, resolved, plan[0]);
        if e is Some {
            (w1, e)
        } else {
            file_plan_effect(w1, ctx, dry, resolved, plan.drop_first())
        }
    }
}

/// Executing the empty-file plan decided from the observed facts and
/// the answer the prompt would receive — asked exactly when
/// [`conflict_needs_prompt`] says so — is exactly the empty-file step
/// of the model.
pub proof fn lemma_empty_file_plan_is_the_step(
    w: WorldV,
    ctx: ContextV,
    dry: bool,
    replace: bool,
    path: Seq<char>,
)
    ensures
        ({
            let resolved = spec_apply_path(ctx, path);
            let target_exists = exists_at(w.fs, resolved);
            let w0 = if target_exists && !replace {
                pop_answer(w).0
            } else {
                w
            };
            file_step(w, ctx, dry, replace, path) == file_plan_effect(
                w0,
                ctx,
                dry,
                resolved,
                spec_decide_empty_file(dry, replace, target_exists, spec_next_answer(w.answers)),
            )
        }),
{
    reveal_with_fuel(file_plan_effect, 6);
    let resolved = spec_apply_path(ctx, path);
    let target_exists = exists_at(w.fs, resolved);
    let answer = spec_next_answer(w.answers);
    let plan = spec_decide_empty_file(dry, replace, target_exists, answer);
    let tail = seq![FileAction::EnsureParentDirectory, FileAction::ReportCreatingEmptyFile]
        + (if dry {
        Seq::<FileAction>::empty()
    } else {
        seq![FileAction::CreateEmptyFile]
    });
    if target_exists && (replace || answer) && !dry {
        assert(plan =~= seq![FileAction::RemoveTarget] + tail);
        assert(plan[0] == FileAction::RemoveTarget);
        assert(plan.drop_first() =~= tail);
    } else {
        assert(plan =~= tail);
    }
    if dry {
        assert(tail =~= seq![FileAction::EnsureParentDirectory, FileAction::ReportCreatingEmptyFile]);
        assert(tail.drop_first() =~= seq![FileAction::ReportCreatingEmptyFile]);
        assert(tail.drop_first().drop_first() =~= Seq::<FileAction>::empty());
    } else {
        assert(tail =~= seq![
            FileAction::EnsureParentDirectory,
            FileAction::ReportCreatingEmptyFile,
            FileAction::CreateEmptyFile,
        ]);
        assert(tail.drop_first() =~= seq![
            FileAction::ReportCreatingEmptyFile,
            FileAction::CreateEmptyFile,
        ]);
        assert(tail.drop_first().drop_first() =~= seq![FileAction::CreateEmptyFile]);
        assert(tail.drop_first().drop_first().drop_first() =~= Seq::<FileAction>::empty());
    }
}

/// The model meaning of one symbolic-link action.
pub open spec fn link_action_effect(
    w: WorldV,
    canonical: Seq<char>,
    destination: Seq<char>,
    a: LinkAction,
) -> (WorldV, Option<ErrorV>) {
    match a {
        LinkAction::ReportLinking => (
            push_event(w, EventV::Linking { destination, source: canonical }),
            Option::None,
        ),
        LinkAction::ReportSkippingExistingLink => (
            push_event(w, EventV::SkippingExistingLink { destination, source: canonical }),
            Option::None,
        ),
        LinkAction::RemoveDestination => remove_step(w, false, destination),
        LinkAction::CreateLink => crate::model::link_create(w, canonical, destination),
    }
}

/// A symbolic-link plan executed on the model, aborting at the first
/// error.
pub open spec fn link_plan_effect(
    w: WorldV,
    canonical: Seq<char>,
    destination: Seq<char>,
    plan: Seq<LinkAction>,
) -> (WorldV, Option<ErrorV>)
    decreases plan.len(),
{
    if plan.len() == 0 {
        (w, Option::None)
    } else {
        let (w1, e) = link_action_effect(w, canonical, destination, plan[0]);
        if e is Some {
            (w1, e)
        } else {
            link_plan_effect(w1, canonical, destination, plan.drop_first())
        }
    }
}

/// A source that cannot be canonicalized aborts before any plan; for a
/// source that exists, executing the link plan decided from the
/// observed facts and the answer — asked exactly when
/// [`link_needs_prompt`] says so — is exactly the link step of the
/// model.
pub proof fn lemma_link_plan_is_the_step(
    w: WorldV,
    ctx: ContextV,
    dry: bool,
    replace: bool,
    src: Seq<char>,
    dest: Seq<char>,
)
    ensures
        !exists_at(w.fs, spec_apply_path(ctx, src)) ==> link_step(w, ctx, dry, replace, src, dest)
            == (w, Option::Some(ErrorV::CanonicalizePath { path: src })),
        exists_at(w.fs, spec_apply_path(ctx, src)) ==> ({
            let canonical = spec_apply_path(ctx, src);
            let destination = spec_apply_path(ctx, dest);
            let points = link_points_at(w.fs, destination, canonical);
            let destination_exists = exists_at(w.fs, destination);
            let w0 = if !dry && !points && destination_exists && !replace {
                pop_answer(w).0
            } else {
                w
            };
            link_step(w, ctx, dry, replace, src, dest) == link_plan_effect(
                w0,
                canonical,
                destination,
                spec_decide_symlink(
                    dry,
                    replace,
                    points,
                    destination_exists,
                    spec_next_answer(w.answers),
                ),
            )
        }),
{
    reveal_with_fuel(link_plan_effect, 5);
    let canonical = spec_apply_path(ctx, src);
    let destination = spec_apply_path(ctx, dest);
    if exists_at(w.fs, canonical) {
        let points = link_points_at(w.fs, destination, canonical);
        let destination_exists = exists_at(w.fs, destination);
        let answer = spec_next_answer(w.answers);
        let plan = spec_decide_symlink(dry, replace, points, destination_exists, answer);
        if dry {
            assert(plan =~= seq![LinkAction::ReportLinking]);
            assert(plan.drop_first() =~= Seq::<LinkAction>::empty());
        } else if points {
            assert(plan =~= seq![
                LinkAction::ReportLinking,
                LinkAction::ReportSkippingExistingLink,
            ]);
            assert(plan.drop_first() =~= seq![LinkAction::ReportSkippingExistingLink]);
            assert(plan.drop_first().drop_first() =~= Seq::<LinkAction>::empty());
        } else if destination_exists && (replace || answer) {
            assert(plan =~= seq![
                LinkAction::ReportLinking,
                LinkAction::RemoveDestination,
                LinkAction::CreateLink,
            ]);
            assert(plan.drop_first() =~= seq![
                LinkAction::RemoveDestination,
                LinkAction::CreateLink,
            ]);
            assert(plan.drop_first().drop_first() =~= seq![LinkAction::CreateLink]);
            assert(plan.drop_first().drop_first().drop_first() =~= Seq::<LinkAction>::empty());
        } else {
            assert(plan =~= seq![LinkAction::ReportLinking, LinkAction::CreateLink]);
            assert(plan.drop_first() =~= seq![LinkAction::CreateLink]);
            assert(plan.drop_first().drop_first() =~= Seq::<LinkAction>::empty());
        }
    }
}

/// The transfer once conflict handling is done and the dry guard is
/// passed: exactly the non-report tail of the model's copy.
pub open spec fn transfer_effect(w: WorldV, source: Seq<char>, destination: Seq<char>) -> (
    WorldV,
    Option<ErrorV>,
) {
    if w.fs.contains_key(source) && w.fs[source] is File {
        if destination.len() == 0 || destination == root_path() || dir_at(w.fs, destination)
            || !parent_ok(w.fs, destination) {
            (
                w,
                Option::Some(
                    ErrorV::CopyFile { copy_source: source, copy_destination: destination },
                ),
            )
        } else {
            (with_fs(w, w.fs.insert(destination, NodeV::File)), Option::None)
        }
    } else if dir_at(w.fs, source) {
        match parent_path(destination) {
            Option::None => (with_fs(w, with_tree_copied(w.fs, source, destination)), Option::None),
            Option::Some(q) => {
                let (m2, ok) = mk_dirs(w.fs, q);
                if !ok {
                    (with_fs(w, m2), Option::Some(ErrorV::CreateDirectory { dir_path: q }))
                } else {
                    (with_fs(w, with_tree_copied(m2, source, destination)), Option::None)
                }
            },
        }
    } else {
        (
            w,
            Option::Some(
                ErrorV::CopyDirectory { copy_source: source, copy_destination: destination },
            ),
        )
    }
}

/// The model meaning of one copy action.
pub open spec fn copy_action_effect(
    w: WorldV,
    source: Seq<char>,
    destination: Seq<char>,
    a: CopyAction,
) -> (WorldV, Option<ErrorV>) {
    match a {
        CopyAction::ReportRemoving => (
            push_event(w, EventV::Removing { path: destination }),
            Option::None,
        ),
        CopyAction::RemoveDestination => remove_step(w, false, destination),
        CopyAction::ReportCopying => (
            push_event(w, EventV::Copying { source, destination }),
            Option::None,
        ),
        CopyAction::Transfer => transfer_effect(w, source, destination),
    }
}

/// A copy plan executed on the model, aborting at the first error.
pub open spec fn copy_plan_effect(
    w: WorldV,
    source: Seq<char>,
    destination: Seq<char>,
    plan: Seq<CopyAction>,
) -> (WorldV, Option<ErrorV>)
    decreases plan.len(),
{
    if plan.len() == 0 {
        (w, Option::None)
    } else {
        let (w1, e) = copy_action_effect(w, source, destination, plan[0]);
        if e is Some {
            (w1, e)
        } else {
            copy_plan_effect(w1, source, destination, plan.drop_first())
        }
    }
}

/// As for links: a source that cannot be canonicalized aborts before
/// any plan; for a source that exists, executing the copy plan decided
/// from the observed facts and the answer — asked exactly when
/// [`copy_needs_prompt`] says so, before the dry guard — is exactly
/// the copy step of the model.
pub proof fn lemma_copy_plan_is_the_step(
    w: WorldV,
    ctx: ContextV,
    dry: bool,
    replace: bool,
    src: Seq<char>,
    dest: Seq<char>,
)
    ensures
        !exists_at(w.fs, spec_apply_path(ctx, src)) ==> copy_step(w, ctx, dry, replace, src, dest)
            == (w, Option::Some(ErrorV::CanonicalizePath { path: src })),
        exists_at(w.fs, spec_apply_path(ctx, src)) ==> ({
            let source = spec_apply_path(ctx, src);
            let destination = spec_apply_path(ctx, dest);
            let destination_exists = exists_at(w.fs, destination);
            let w0 = if destination_exists && !replace {
                pop_answer(w).0
            } else {
                w
            };
            copy_step(w, ctx, dry, replace, src, dest) == copy_plan_effect(
                w0,
                source,
                destination,
                spec_decide_copy(dry, replace, destination_exists, spec_next_answer(w.answers)),
            )
        }),
{
    reveal_with_fuel(copy_plan_effect, 6);
    let source = spec_apply_path(ctx, src);
    let destination = spec_apply_path(ctx, dest);
    if exists_at(w.fs, source) {
        let destination_exists = exists_at(w.fs, destination);
        let answer = spec_next_answer(w.answers);
        let plan = spec_decide_copy(dry, replace, destination_exists, answer);
        if destination_exists && !(replace || answer) {
            assert(plan =~= Seq::<CopyAction>::empty());
        } else if destination_exists && dry {
            assert(plan =~= seq![CopyAction::ReportRemoving, CopyAction::ReportCopying]);
            assert(plan.drop_first() =~= seq![CopyAction::ReportCopying]);
            assert(plan.drop_first().drop_first() =~= Seq::<CopyAction>::empty());
        } else if destination_exists {
            assert(plan =~= seq![
                CopyAction::ReportRemoving,
                CopyAction::RemoveDestination,
                CopyAction::ReportCopying,
                CopyAction::Transfer,
            ]);
            assert(plan.drop_first() =~= seq![
                CopyAction::RemoveDestination,
                CopyAction::ReportCopying,
                CopyAction::Transfer,
            ]);
            assert(plan.drop_first().drop_first() =~= seq![
                CopyAction::ReportCopying,
                CopyAction::Transfer,
            ]);
            assert(plan.drop_first().drop_first().drop_first() =~= seq![CopyAction::Transfer]);
            assert(plan.drop_first().drop_first().drop_first().drop_first() =~= Seq::<
                CopyAction,
            >::empty());
        } else if dry {
            assert(plan =~= seq![CopyAction::ReportCopying]);
            assert(plan.drop_first() =~= Seq::<CopyAction>::empty());
        } else {
            assert(plan =~= seq![CopyAction::ReportCopying, CopyAction::Transfer]);
            assert(plan.drop_first() =~= seq![CopyAction::Transfer]);
            assert(plan.drop_first().drop_first() =~= Seq::<CopyAction>::empty());
        }
    }
}

/// The model meaning of one transfer action.
pub open spec fn transfer_action_effect(
    w: WorldV,
    source: Seq<char>,
    destination: Seq<char>,
    a: TransferAction,
) -> (WorldV, Option<ErrorV>) {
    match a {
        TransferAction::CopyFileContents => {
            if destination.len() == 0 || destination == root_path() || dir_at(w.fs, destination)
                || !parent_ok(w.fs, destination) {
                (
                    w,
                    Option::Some(
                        ErrorV::CopyFile { copy_source: source, copy_destination: destination },
                    ),
                )
            } else {
                (with_fs(w, w.fs.insert(destination, NodeV::File)), Option::None)
            }
        },
        TransferAction::EnsureDestinationParent => {
            match parent_path(destination) {
                Option::None => (w, Option::None),
                Option::Some(q) => {
                    let (m2, ok) = mk_dirs(w.fs, q);
                    (
                        with_fs(w, m2),
                        if ok {
                            Option::None
                        } else {
                            Option::Some(ErrorV::CreateDirectory { dir_path: q })
                        },
                    )
                },
            }
        },
        TransferAction::CopyDirectoryTree => (
            with_fs(w, with_tree_copied(w.fs, source, destination)),
            Option::None,
        ),
    }
}

/// A transfer plan executed on the model, aborting at the first error.
pub open spec fn transfer_plan_effect(
    w: WorldV,
    source: Seq<char>,
    destination: Seq<char>,
    plan: Seq<TransferAction>,
) -> (WorldV, Option<ErrorV>)
    decreases plan.len(),
{
    if plan.len() == 0 {
        (w, Option::None)
    } else {
        let (w1, e) = transfer_action_effect(w, source, destination, plan[0]);
        if e is Some {
            (w1, e)
        } else {
            transfer_plan_effect(w1, source, destination, plan.drop_first())
        }
    }
}

/// For a canonical source that is a regular file or a directory — the
/// only kinds real canonicalization can deliver — executing the
/// transfer plan decided from the source's kind is exactly the
/// transfer of the model. (A recorded symbolic link as source errors
/// directly in the model.)
pub proof fn lemma_transfer_plan_is_the_transfer(
    w: WorldV,
    source: Seq<char>,
    destination: Seq<char>,
)
    requires
        w.fs.contains_key(source),
        w.fs[source] is File || w.fs[source] is Dir,
    ensures
        transfer_effect(w, source, destination) == transfer_plan_effect(
            w,
            source,
            destination,
            spec_decide_copy_transfer(w.fs[source] is File),
        ),
{
    reveal_with_fuel(transfer_plan_effect, 4);
    let plan = spec_decide_copy_transfer(w.fs[source] is File);
    if w.fs[source] is File {
        assert(plan =~= seq![TransferAction::CopyFileContents]);
        assert(plan.drop_first() =~= Seq::<TransferAction>::empty());
    } else {
        assert(plan =~= seq![
            TransferAction::EnsureDestinationParent,
            TransferAction::CopyDirectoryTree,
        ]);
        assert(plan.drop_first() =~= seq![TransferAction::CopyDirectoryTree]);
        assert(plan.drop_first().drop_first() =~= Seq::<TransferAction>::empty());
    }
}

/// The command decision is exactly the command step of the model: an
/// empty token list aborts, a dry run only reports, and otherwise the
/// command is reported and launched.
pub proof fn lemma_command_decision_is_the_step(w: WorldV, dry: bool, tokens: Seq<Seq<char>>)
    ensures
        tokens.len() == 0 ==> command_step(w, dry, tokens) == (
            w,
            Option::Some(ErrorV::NoCommandProvided),
        ),
        tokens.len() > 0 && dry ==> command_step(w, dry, tokens) == (
            push_event(w, EventV::Executing { program: tokens[0], args: tokens.drop_first() }),
            Option::None::<ErrorV>,
        ),
        tokens.len() > 0 && !dry ==> command_step(w, dry, tokens) == (
            push_spawn(
                push_event(w, EventV::Executing { program: tokens[0], args: tokens.drop_first() }),
                crate::event::SpawnV { program: tokens[0], args: tokens.drop_first() },
            ),
            Option::None::<ErrorV>,
        ),
{
}

} // verus!
