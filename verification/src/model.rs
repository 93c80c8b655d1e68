//! The step semantics of the reconciliation engine: for each item kind,
//! a function from the world before the item to the world after it and
//! the outcome. The executable engine is proved equal to these
//! functions; the laws about dry-run, idempotence, replacement and
//! aborting are proved from them.

use vstd::prelude::*;

use crate::config::ConfigV;
use crate::context::{spec_apply_path, ContextV};
use crate::error::ErrorV;
use crate::event::{EventV, SpawnV};
use crate::filesystem::{
    dir_at, exists_at, file_or_link_at, parent_ok, root_path, with_tree_copied, NodeV,
};
use crate::paths::{last_slash, lemma_last_slash, parent_path, under, under_set};
use crate::world::{spec_next_answer, spec_rest_answers, WorldV};

verus! {

/// `w` with `e` reported.
pub open spec fn push_event(w: WorldV, e: EventV) -> WorldV {
    WorldV { fs: w.fs, answers: w.answers, events: w.events.push(e), spawned: w.spawned }
}

/// `w` with `s` launched.
pub open spec fn push_spawn(w: WorldV, s: SpawnV) -> WorldV {
    WorldV { fs: w.fs, answers: w.answers, events: w.events, spawned: w.spawned.push(s) }
}

/// `w` with its filesystem replaced.
pub open spec fn with_fs(w: WorldV, m: Map<Seq<char>, NodeV>) -> WorldV {
    WorldV { fs: m, answers: w.answers, events: w.events, spawned: w.spawned }
}

/// `w` after one confirmation prompt, and the answer it received.
pub open spec fn pop_answer(w: WorldV) -> (WorldV, bool) {
    (
        WorldV {
            fs: w.fs,
            answers: spec_rest_answers(w.answers),
            events: w.events,
            spawned: w.spawned,
        },
        spec_next_answer(w.answers),
    )
}

/// All missing directories on the way to `p` created, parent first, as
/// recursive directory creation does; `false` when something on the
/// way exists and is not a directory, with the directories created up
/// to that point kept.
pub open spec fn mk_dirs(m: Map<Seq<char>, NodeV>, p: Seq<char>) -> (Map<Seq<char>, NodeV>, bool)
    decreases p.len(),
    via mk_dirs_decreases
{
    if p.len() == 0 || p == root_path() {
        (m, true)
    } else {
        match parent_path(p) {
            Option::None => (m, true),
            Option::Some(q) => {
                let (m1, ok) = mk_dirs(m, q);
                if !ok {
                    (m1, false)
                } else if m1.contains_key(p) {
                    if m1[p] is Dir {
                        (m1, true)
                    } else {
                        (m1, false)
                    }
                } else {
                    (m1.insert(p, NodeV::Dir), true)
                }
            },
        }
    }
}

#[via_fn]
proof fn mk_dirs_decreases(m: Map<Seq<char>, NodeV>, p: Seq<char>) {
    lemma_last_slash(p);
    if p.len() == 1 && last_slash(p) == 0 {
        assert(p =~= root_path());
    }
}

/// The parent a file path hands to directory creation: the text before
/// the last `/`, or the empty path for a bare file name. Callers only
/// apply this to paths that have a parent.
pub open spec fn file_parent(p: Seq<char>) -> Seq<char> {
    match parent_path(p) {
        Option::Some(q) => q,
        Option::None => Seq::empty(),
    }
}

/// Removing the entry at `p`, or its whole tree, cannot take away the
/// parent directory of `p`: the parent is a strictly shorter path, so
/// it is not `p` and not below it.
pub proof fn parent_survives_removal(m: Map<Seq<char>, NodeV>, p: Seq<char>)
    requires
        parent_ok(m, p),
    ensures
        parent_ok(m.remove(p), p),
        parent_ok(m.remove_keys(under_set(p)), p),
{
    lemma_last_slash(p);
    if p.len() == 1 && last_slash(p) == 0 {
        assert(p =~= root_path());
    }
    match parent_path(p) {
        Option::None => {},
        Option::Some(q) => {
            assert(q.len() < p.len());
            assert(!under(p, q));
        },
    }
}

/// One declared directory: report the intended creation; in dry-run
/// stop there; skip an existing directory with a report; otherwise
/// create every missing component.
pub open spec fn dir_step(w: WorldV, ctx: ContextV, dry: bool, path: Seq<char>) -> (
    WorldV,
    Option<ErrorV>,
) {
    let resolved = spec_apply_path(ctx, path);
    let w1 = push_event(w, EventV::Creating { path: resolved });
    if dry {
        (w1, Option::None)
    } else if dir_at(w.fs, resolved) {
        (push_event(w1, EventV::SkippingExisting { path: resolved }), Option::None)
    } else {
        let (m2, ok) = mk_dirs(w.fs, resolved);
        if ok {
            (with_fs(w1, m2), Option::None)
        } else {
            (with_fs(w1, m2), Option::Some(ErrorV::CreateDirectory { dir_path: resolved }))
        }
    }
}

/// The removal primitive: a no-op in dry-run; a file or symbolic link
/// entry is removed alone; a directory is removed with its whole tree;
/// removing a missing path is the error recursive removal gives.
pub open spec fn remove_step(w: WorldV, dry: bool, path: Seq<char>) -> (WorldV, Option<ErrorV>) {
    if dry {
        (w, Option::None)
    } else if file_or_link_at(w.fs, path) {
        (with_fs(w, w.fs.remove(path)), Option::None)
    } else if w.fs.contains_key(path) {
        (with_fs(w, w.fs.remove_keys(under_set(path))), Option::None)
    } else {
        (w, Option::Some(ErrorV::RemoveDirectory { dir_path: path }))
    }
}

/// Creation of one empty file at an already-resolved path: report, stop
/// in dry-run, leave an existing file or link untouched, fail on a
/// directory or a missing parent, otherwise create the file.
pub open spec fn empty_file_step(w: WorldV, dry: bool, path: Seq<char>) -> (
    WorldV,
    Option<ErrorV>,
) {
    let w1 = push_event(w, EventV::CreatingEmptyFile { path });
    if dry {
        (w1, Option::None)
    } else if path.len() == 0 || path == root_path() {
        (w1, Option::Some(ErrorV::CreateEmptyFile { file_path: path }))
    } else if w.fs.contains_key(path) {
        if w.fs[path] is Dir {
            (w1, Option::Some(ErrorV::CreateEmptyFile { file_path: path }))
        } else {
            (w1, Option::None)
        }
    } else if parent_ok(w.fs, path) {
        (with_fs(w1, w.fs.insert(path, NodeV::File)), Option::None)
    } else {
        (w1, Option::Some(ErrorV::CreateEmptyFile { file_path: path }))
    }
}

/// One declared empty file. A conflicting entry is removed
/// unconditionally under `replace`, otherwise only on an affirmative
/// answer; a declined prompt suppresses only the removal, the creation
/// is still attempted. The parent is then created through the
/// directory step (which resolves it again), and the file through
/// [`empty_file_step`]. The prompt precedes the dry-run guard, so
/// dry-run still consumes an answer.
pub open spec fn file_step(w: WorldV, ctx: ContextV, dry: bool, replace: bool, path: Seq<char>) -> (
    WorldV,
    Option<ErrorV>,
) {
    let resolved = spec_apply_path(ctx, path);
    let (w1, e1) = if exists_at(w.fs, resolved) {
        if replace {
            remove_step(w, dry, resolved)
        } else {
            let (wa, ans) = pop_answer(w);
            if ans {
                remove_step(wa, dry, resolved)
            } else {
                (wa, Option::None)
            }
        }
    } else {
        (w, Option::None)
    };
    if e1 is Some {
        (w1, e1)
    } else {
        let (w2, e2) = dir_step(w1, ctx, dry, file_parent(resolved));
        if e2 is Some {
            (w2, e2)
        } else {
            empty_file_step(w2, dry, resolved)
        }
    }
}

/// Is the entry at `dest` a symbolic link pointing exactly at
/// `canonical`?
pub open spec fn link_points_at(
    m: Map<Seq<char>, NodeV>,
    dest: Seq<char>,
    canonical: Seq<char>,
) -> bool {
    m.contains_key(dest) && m[dest] == (NodeV::Symlink { target: canonical })
}

/// The bare creation of a symbolic link: it fails while the destination
/// is still occupied or its parent directory is missing.
pub open spec fn link_create(w: WorldV, source: Seq<char>, destination: Seq<char>) -> (
    WorldV,
    Option<ErrorV>,
) {
    if exists_at(w.fs, destination) || destination.len() == 0 || !parent_ok(w.fs, destination) {
        (
            w,
            Option::Some(
                ErrorV::CreateSymbolLink { link_source: source, link_destination: destination },
            ),
        )
    } else {
        (with_fs(w, w.fs.insert(destination, NodeV::Symlink { target: source })), Option::None)
    }
}

/// One declared symbolic link. The source must exist (its stored path
/// is its canonical form in this model); failure to canonicalize aborts
/// the whole apply. Dry-run stops right after the report, before any
/// conflict handling. A destination already pointing at the canonical
/// source is skipped with a report. Any other existing destination is
/// removed unconditionally under `replace`, otherwise only on an
/// affirmative answer; a declined prompt suppresses only the removal,
/// and the creation is attempted anyway, failing while the destination
/// is occupied.
pub open spec fn link_step(
    w: WorldV,
    ctx: ContextV,
    dry: bool,
    replace: bool,
    src: Seq<char>,
    dest: Seq<char>,
) -> (WorldV, Option<ErrorV>) {
    let src_resolved = spec_apply_path(ctx, src);
    if !exists_at(w.fs, src_resolved) {
        (w, Option::Some(ErrorV::CanonicalizePath { path: src }))
    } else {
        let canonical = src_resolved;
        let destination = spec_apply_path(ctx, dest);
        let w1 = push_event(w, EventV::Linking { destination, source: canonical });
        if dry {
            (w1, Option::None)
        } else if link_points_at(w.fs, destination, canonical) {
            (
                push_event(w1, EventV::SkippingExistingLink { destination, source: canonical }),
                Option::None,
            )
        } else {
            let (w2, e2) = if exists_at(w.fs, destination) {
                if replace {
                    remove_step(w1, false, destination)
                } else {
                    let (wa, ans) = pop_answer(w1);
                    if ans {
                        remove_step(wa, false, destination)
                    } else {
                        (wa, Option::None)
                    }
                }
            } else {
                (w1, Option::None)
            };
            if e2 is Some {
                (w2, e2)
            } else {
                link_create(w2, canonical, destination)
            }
        }
    }
}

/// The copy itself, after conflict handling: report, stop in dry-run;
/// a regular file is copied to the destination, which needs a parent
/// directory; a directory has the destination's parents created and its
/// whole tree copied; a canonical source that is neither is the
/// directory-copy error.
pub open spec fn copy_go(w: WorldV, dry: bool, source: Seq<char>, destination: Seq<char>) -> (
    WorldV,
    Option<ErrorV>,
) {
    let w1 = push_event(w, EventV::Copying { source, destination });
    if dry {
        (w1, Option::None)
    } else if w.fs.contains_key(source) && w.fs[source] is File {
        if destination.len() == 0 || destination == root_path() || dir_at(w.fs, destination)
            || !parent_ok(w.fs, destination) {
            (
                w1,
                Option::Some(
                    ErrorV::CopyFile { copy_source: source, copy_destination: destination },
                ),
            )
        } else {
            (with_fs(w1, w.fs.insert(destination, NodeV::File)), Option::None)
        }
    } else if dir_at(w.fs, source) {
        match parent_path(destination) {
            Option::None => (with_fs(w1, with_tree_copied(w.fs, source, destination)), Option::None),
            Option::Some(q) => {
                let (m2, ok) = mk_dirs(w.fs, q);
                if !ok {
                    (with_fs(w1, m2), Option::Some(ErrorV::CreateDirectory { dir_path: q }))
                } else {
                    (with_fs(w1, with_tree_copied(m2, source, destination)), Option::None)
                }
            },
        }
    } else {
        (
            w1,
            Option::Some(
                ErrorV::CopyDirectory { copy_source: source, copy_destination: destination },
            ),
        )
    }
}

/// One declared copy. The source must exist, as for links. An existing
/// destination is removed unconditionally under `replace`, otherwise
/// only on an affirmative answer — and a declined prompt skips the
/// whole copy, unlike the file and link steps. The prompt precedes the
/// dry-run guard.
pub open spec fn copy_step(
    w: WorldV,
    ctx: ContextV,
    dry: bool,
    replace: bool,
    src: Seq<char>,
    dest: Seq<char>,
) -> (WorldV, Option<ErrorV>) {
    let src_resolved = spec_apply_path(ctx, src);
    if !exists_at(w.fs, src_resolved) {
        (w, Option::Some(ErrorV::CanonicalizePath { path: src }))
    } else {
        let source = src_resolved;
        let destination = spec_apply_path(ctx, dest);
        if exists_at(w.fs, destination) {
            if replace {
                let w1 = push_event(w, EventV::Removing { path: destination });
                let (w2, e2) = remove_step(w1, dry, destination);
                if e2 is Some {
                    (w2, e2)
                } else {
                    copy_go(w2, dry, source, destination)
                }
            } else {
                let (wa, ans) = pop_answer(w);
                if ans {
                    let w1 = push_event(wa, EventV::Removing { path: destination });
                    let (w2, e2) = remove_step(w1, dry, destination);
                    if e2 is Some {
                        (w2, e2)
                    } else {
                        copy_go(w2, dry, source, destination)
                    }
                } else {
                    (wa, Option::None)
                }
            }
        } else {
            copy_go(w, dry, source, destination)
        }
    }
}

/// One external command: report it; in dry-run stop there, otherwise
/// launch it. Launching never fails in this model, and the command's
/// own exit status is no concern of this layer.
pub open spec fn exec_step(w: WorldV, dry: bool, program: Seq<char>, args: Seq<Seq<char>>) -> WorldV {
    let w1 = push_event(w, EventV::Executing { program, args });
    if dry {
        w1
    } else {
        push_spawn(w1, SpawnV { program, args })
    }
}

/// One declared command token list: an empty list is a fatal error,
/// otherwise the first token is the program and the rest its arguments.
pub open spec fn command_step(w: WorldV, dry: bool, tokens: Seq<Seq<char>>) -> (
    WorldV,
    Option<ErrorV>,
) {
    if tokens.len() == 0 {
        (w, Option::Some(ErrorV::NoCommandProvided))
    } else {
        (exec_step(w, dry, tokens[0], tokens.drop_first()), Option::None)
    }
}

/// The directory phase: each declared directory in order, stopping at
/// the first error.
pub open spec fn dirs_phase(w: WorldV, ctx: ContextV, dry: bool, dirs: Seq<Seq<char>>) -> (
    WorldV,
    Option<ErrorV>,
)
    decreases dirs.len(),
{
    if dirs.len() == 0 {
        (w, Option::None)
    } else {
        let (w1, e) = dir_step(w, ctx, dry, dirs[0]);
        if e is Some {
            (w1, e)
        } else {
            dirs_phase(w1, ctx, dry, dirs.drop_first())
        }
    }
}

/// The empty-file phase.
pub open spec fn files_phase(
    w: WorldV,
    ctx: ContextV,
    dry: bool,
    replace: bool,
    files: Seq<Seq<char>>,
) -> (WorldV, Option<ErrorV>)
    decreases files.len(),
{
    if files.len() == 0 {
        (w, Option::None)
    } else {
        let (w1, e) = file_step(w, ctx, dry, replace, files[0]);
        if e is Some {
            (w1, e)
        } else {
            files_phase(w1, ctx, dry, replace, files.drop_first())
        }
    }
}

/// The symbolic-link phase.
pub open spec fn links_phase(
    w: WorldV,
    ctx: ContextV,
    dry: bool,
    replace: bool,
    links: Seq<(Seq<char>, Seq<char>)>,
) -> (WorldV, Option<ErrorV>)
    decreases links.len(),
{
    if links.len() == 0 {
        (w, Option::None)
    } else {
        let (w1, e) = link_step(w, ctx, dry, replace, links[0].0, links[0].1);
        if e is Some {
            (w1, e)
        } else {
            links_phase(w1, ctx, dry, replace, links.drop_first())
        }
    }
}

/// The copy phase.
pub open spec fn copies_phase(
    w: WorldV,
    ctx: ContextV,
    dry: bool,
    replace: bool,
    copies: Seq<(Seq<char>, Seq<char>)>,
) -> (WorldV, Option<ErrorV>)
    decreases copies.len(),
{
    if copies.len() == 0 {
        (w, Option::None)
    } else {
        let (w1, e) = copy_step(w, ctx, dry, replace, copies[0].0, copies[0].1);
        if e is Some {
            (w1, e)
        } else {
            copies_phase(w1, ctx, dry, replace, copies.drop_first())
        }
    }
}

/// The command phase.
pub open spec fn commands_phase(w: WorldV, dry: bool, cmds: Seq<Seq<Seq<char>>>) -> (
    WorldV,
    Option<ErrorV>,
)
    decreases cmds.len(),
{
    if cmds.len() == 0 {
        (w, Option::None)
    } else {
        let (w1, e) = command_step(w, dry, cmds[0]);
        if e is Some {
            (w1, e)
        } else {
            commands_phase(w1, dry, cmds.drop_first())
        }
    }
}

/// A whole apply: directories, then empty files, then links, then
/// copies, then commands, each phase complete before the next begins,
/// the first error aborting everything after it.
pub open spec fn apply_spec(
    w: WorldV,
    ctx: ContextV,
    dry: bool,
    replace: bool,
    cfg: ConfigV,
) -> (WorldV, Option<ErrorV>) {
    let (w1, e1) = dirs_phase(w, ctx, dry, cfg.directories);
    if e1 is Some {
        (w1, e1)
    } else {
        let (w2, e2) = files_phase(w1, ctx, dry, replace, cfg.empty_files);
        if e2 is Some {
            (w2, e2)
        } else {
            let (w3, e3) = links_phase(w2, ctx, dry, replace, cfg.links);
            if e3 is Some {
                (w3, e3)
            } else {
                let (w4, e4) = copies_phase(w3, ctx, dry, replace, cfg.copies);
                if e4 is Some {
                    (w4, e4)
                } else {
                    commands_phase(w4, dry, cfg.commands)
                }
            }
        }
    }
}

/// Every declared empty file resolves to a path with a parent; the
/// paths `/` and the empty path cannot hold a file.
pub open spec fn files_resolvable(ctx: ContextV, files: Seq<Seq<char>>) -> bool {
    forall|i: int| 0 <= i < files.len() ==> parent_path(spec_apply_path(ctx, files[i])) is Some
}

} // verus!
