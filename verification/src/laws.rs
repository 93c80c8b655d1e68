//! Laws of the reconciliation engine, proved from the step semantics in
//! [`crate::model`]: idempotence of satisfied items, the harmlessness of
//! dry runs, replacement without prompts, and the abort on an empty
//! command.

use vstd::prelude::*;

use crate::config::ConfigV;
use crate::context::{spec_apply_path, ContextV};
use crate::error::ErrorV;
use crate::event::{EventV, SpawnV};
use crate::filesystem::{dir_at, exists_at, NodeV};
use crate::model::{
    apply_spec, command_step, commands_phase, copies_phase, copy_step, dir_step, dirs_phase,
    file_parent, file_step, files_phase, link_points_at, link_step, links_phase,
    parent_survives_removal, remove_step,
};
use crate::paths::{parent_path, under};
use crate::world::WorldV;

verus! {

/// Re-applying a directory that is already present as a directory is a
/// no-op: no error, no filesystem write, no prompt, nothing launched —
/// only the report of the intended creation and of the skip.
pub proof fn lemma_directory_idempotent(w: WorldV, ctx: ContextV, path: Seq<char>)
    requires
        dir_at(w.fs, spec_apply_path(ctx, path)),
    ensures
        dir_step(w, ctx, false, path).1 is None,
        dir_step(w, ctx, false, path).0.fs == w.fs,
        dir_step(w, ctx, false, path).0.answers == w.answers,
        dir_step(w, ctx, false, path).0.spawned == w.spawned,
        dir_step(w, ctx, false, path).0.events == w.events.push(
            EventV::Creating { path: spec_apply_path(ctx, path) },
        ).push(EventV::SkippingExisting { path: spec_apply_path(ctx, path) }),
{
}

/// Re-applying a symbolic link whose destination already points exactly
/// at the canonical source reports the skip and performs no write and
/// no prompt, whether or not replacement is on.
pub proof fn lemma_link_idempotent(
    w: WorldV,
    ctx: ContextV,
    replace: bool,
    src: Seq<char>,
    dest: Seq<char>,
)
    requires
        exists_at(w.fs, spec_apply_path(ctx, src)),
        link_points_at(w.fs, spec_apply_path(ctx, dest), spec_apply_path(ctx, src)),
    ensures
        link_step(w, ctx, false, replace, src, dest).1 is None,
        link_step(w, ctx, false, replace, src, dest).0.fs == w.fs,
        link_step(w, ctx, false, replace, src, dest).0.answers == w.answers,
        link_step(w, ctx, false, replace, src, dest).0.spawned == w.spawned,
        link_step(w, ctx, false, replace, src, dest).0.events == w.events.push(
            EventV::Linking {
                destination: spec_apply_path(ctx, dest),
                source: spec_apply_path(ctx, src),
            },
        ).push(
            EventV::SkippingExistingLink {
                destination: spec_apply_path(ctx, dest),
                source: spec_apply_path(ctx, src),
            },
        ),
{
}

/// In the directory phase the dry-run guard comes before any conflict
/// check: a dry run of it writes nothing, launches nothing, and never
/// reaches a prompt.
pub proof fn lemma_dry_dirs(w: WorldV, ctx: ContextV, dirs: Seq<Seq<char>>)
    ensures
        dirs_phase(w, ctx, true, dirs).0.fs == w.fs,
        dirs_phase(w, ctx, true, dirs).0.spawned == w.spawned,
        dirs_phase(w, ctx, true, dirs).0.answers == w.answers,
    decreases dirs.len(),
{
    if dirs.len() > 0 {
        let (w1, e) = dir_step(w, ctx, true, dirs[0]);
        if !(e is Some) {
            lemma_dry_dirs(w1, ctx, dirs.drop_first());
        }
    }
}

proof fn lemma_dry_files(w: WorldV, ctx: ContextV, replace: bool, files: Seq<Seq<char>>)
    ensures
        files_phase(w, ctx, true, replace, files).0.fs == w.fs,
        files_phase(w, ctx, true, replace, files).0.spawned == w.spawned,
    decreases files.len(),
{
    if files.len() > 0 {
        let (w1, e) = file_step(w, ctx, true, replace, files[0]);
        if !(e is Some) {
            lemma_dry_files(w1, ctx, replace, files.drop_first());
        }
    }
}

proof fn lemma_dry_links(
    w: WorldV,
    ctx: ContextV,
    replace: bool,
    links: Seq<(Seq<char>, Seq<char>)>,
)
    ensures
        links_phase(w, ctx, true, replace, links).0.fs == w.fs,
        links_phase(w, ctx, true, replace, links).0.spawned == w.spawned,
    decreases links.len(),
{
    if links.len() > 0 {
        let (w1, e) = link_step(w, ctx, true, replace, links[0].0, links[0].1);
        if !(e is Some) {
            lemma_dry_links(w1, ctx, replace, links.drop_first());
        }
    }
}

proof fn lemma_dry_copies(
    w: WorldV,
    ctx: ContextV,
    replace: bool,
    copies: Seq<(Seq<char>, Seq<char>)>,
)
    ensures
        copies_phase(w, ctx, true, replace, copies).0.fs == w.fs,
        copies_phase(w, ctx, true, replace, copies).0.spawned == w.spawned,
    decreases copies.len(),
{
    if copies.len() > 0 {
        let (w1, e) = copy_step(w, ctx, true, replace, copies[0].0, copies[0].1);
        if !(e is Some) {
            lemma_dry_copies(w1, ctx, replace, copies.drop_first());
        }
    }
}

/// In the command phase too, the dry-run guard precedes everything but
/// the report: a dry run of it writes nothing, launches nothing, and
/// never reaches a prompt.
pub proof fn lemma_dry_commands(w: WorldV, cmds: Seq<Seq<Seq<char>>>)
    ensures
        commands_phase(w, true, cmds).0.fs == w.fs,
        commands_phase(w, true, cmds).0.spawned == w.spawned,
        commands_phase(w, true, cmds).0.answers == w.answers,
    decreases cmds.len(),
{
    if cmds.len() > 0 {
        let (w1, e) = command_step(w, true, cmds[0]);
        if !(e is Some) {
            lemma_dry_commands(w1, cmds.drop_first());
        }
    }
}

/// A dry run leaves the filesystem untouched and launches nothing,
/// whatever the configuration, the prior state, the replace flag and
/// the outcome: it only reports, and consumes answers where a prompt
/// precedes the dry-run guard.
pub proof fn lemma_dry_run_is_harmless(w: WorldV, ctx: ContextV, replace: bool, cfg: ConfigV)
    ensures
        apply_spec(w, ctx, true, replace, cfg).0.fs == w.fs,
        apply_spec(w, ctx, true, replace, cfg).0.spawned == w.spawned,
{
    lemma_dry_dirs(w, ctx, cfg.directories);
    let (w1, e1) = dirs_phase(w, ctx, true, cfg.directories);
    if !(e1 is Some) {
        lemma_dry_files(w1, ctx, replace, cfg.empty_files);
        let (w2, e2) = files_phase(w1, ctx, true, replace, cfg.empty_files);
        if !(e2 is Some) {
            lemma_dry_links(w2, ctx, replace, cfg.links);
            let (w3, e3) = links_phase(w2, ctx, true, replace, cfg.links);
            if !(e3 is Some) {
                lemma_dry_copies(w3, ctx, replace, cfg.copies);
                let (w4, e4) = copies_phase(w3, ctx, true, replace, cfg.copies);
                if !(e4 is Some) {
                    lemma_dry_commands(w4, cfg.commands);
                }
            }
        }
    }
}

proof fn lemma_replace_dirs(w: WorldV, ctx: ContextV, dry: bool, dirs: Seq<Seq<char>>)
    ensures
        dirs_phase(w, ctx, dry, dirs).0.answers == w.answers,
    decreases dirs.len(),
{
    if dirs.len() > 0 {
        let (w1, e) = dir_step(w, ctx, dry, dirs[0]);
        if !(e is Some) {
            lemma_replace_dirs(w1, ctx, dry, dirs.drop_first());
        }
    }
}

proof fn lemma_replace_files(w: WorldV, ctx: ContextV, dry: bool, files: Seq<Seq<char>>)
    ensures
        files_phase(w, ctx, dry, true, files).0.answers == w.answers,
    decreases files.len(),
{
    if files.len() > 0 {
        let (w1, e) = file_step(w, ctx, dry, true, files[0]);
        if !(e is Some) {
            lemma_replace_files(w1, ctx, dry, files.drop_first());
        }
    }
}

proof fn lemma_replace_links(w: WorldV, ctx: ContextV, dry: bool, links: Seq<(Seq<char>, Seq<char>)>)
    ensures
        links_phase(w, ctx, dry, true, links).0.answers == w.answers,
    decreases links.len(),
{
    if links.len() > 0 {
        let (w1, e) = link_step(w, ctx, dry, true, links[0].0, links[0].1);
        if !(e is Some) {
            lemma_replace_links(w1, ctx, dry, links.drop_first());
        }
    }
}

proof fn lemma_replace_copies(
    w: WorldV,
    ctx: ContextV,
    dry: bool,
    copies: Seq<(Seq<char>, Seq<char>)>,
)
    ensures
        copies_phase(w, ctx, dry, true, copies).0.answers == w.answers,
    decreases copies.len(),
{
    if copies.len() > 0 {
        let (w1, e) = copy_step(w, ctx, dry, true, copies[0].0, copies[0].1);
        if !(e is Some) {
            lemma_replace_copies(w1, ctx, dry, copies.drop_first());
        }
    }
}

proof fn lemma_replace_commands(w: WorldV, dry: bool, cmds: Seq<Seq<Seq<char>>>)
    ensures
        commands_phase(w, dry, cmds).0.answers == w.answers,
    decreases cmds.len(),
{
    if cmds.len() > 0 {
        let (w1, e) = command_step(w, dry, cmds[0]);
        if !(e is Some) {
            lemma_replace_commands(w1, dry, cmds.drop_first());
        }
    }
}

/// With replacement on, a whole apply never consults the operator: the
/// queue of pending answers comes through untouched, whatever existed
/// before and whatever the outcome.
pub proof fn lemma_replace_never_prompts(w: WorldV, ctx: ContextV, dry: bool, cfg: ConfigV)
    ensures
        apply_spec(w, ctx, dry, true, cfg).0.answers == w.answers,
{
    lemma_replace_dirs(w, ctx, dry, cfg.directories);
    let (w1, e1) = dirs_phase(w, ctx, dry, cfg.directories);
    if !(e1 is Some) {
        lemma_replace_files(w1, ctx, dry, cfg.empty_files);
        let (w2, e2) = files_phase(w1, ctx, dry, true, cfg.empty_files);
        if !(e2 is Some) {
            lemma_replace_links(w2, ctx, dry, cfg.links);
            let (w3, e3) = links_phase(w2, ctx, dry, true, cfg.links);
            if !(e3 is Some) {
                lemma_replace_copies(w3, ctx, dry, cfg.copies);
                let (w4, e4) = copies_phase(w3, ctx, dry, true, cfg.copies);
                if !(e4 is Some) {
                    lemma_replace_commands(w4, dry, cfg.commands);
                }
            }
        }
    }
}

/// With replacement on and no dry run, a symbolic-link step whose
/// destination is occupied by something else removes that occupant
/// without any prompt and leaves the link in place, provided the
/// destination's parent directory stands and the destination is a
/// removable entry (not the root).
pub proof fn lemma_replace_removes_conflicting_link(
    w: WorldV,
    ctx: ContextV,
    src: Seq<char>,
    dest: Seq<char>,
)
    requires
        exists_at(w.fs, spec_apply_path(ctx, src)),
        !link_points_at(w.fs, spec_apply_path(ctx, dest), spec_apply_path(ctx, src)),
        w.fs.contains_key(spec_apply_path(ctx, dest)),
        spec_apply_path(ctx, dest) != crate::filesystem::root_path(),
        crate::filesystem::parent_ok(w.fs, spec_apply_path(ctx, dest)),
        spec_apply_path(ctx, dest).len() > 0,
    ensures
        link_step(w, ctx, false, true, src, dest).1 is None,
        link_step(w, ctx, false, true, src, dest).0.answers == w.answers,
        link_step(w, ctx, false, true, src, dest).0.fs[spec_apply_path(ctx, dest)]
            == (NodeV::Symlink { target: spec_apply_path(ctx, src) }),
{
    let destination = spec_apply_path(ctx, dest);
    let w1 = crate::model::push_event(
        w,
        EventV::Linking { destination, source: spec_apply_path(ctx, src) },
    );
    let (w2, e2) = remove_step(w1, false, destination);
    parent_survives_removal(w1.fs, destination);
    assert(!exists_at(w2.fs, destination));
}

/// With replacement on and no dry run, an empty-file step whose
/// resolved target is occupied — by a file, a stale symlink or a whole
/// directory tree — removes the occupant without any prompt and ends
/// with a regular file at the target, provided the target is a
/// removable entry (not the root), its parent directory stands, and
/// that parent, already fully resolved, resolves to itself.
pub proof fn lemma_replace_recreates_conflicting_file(w: WorldV, ctx: ContextV, path: Seq<char>)
    requires
        w.fs.contains_key(spec_apply_path(ctx, path)),
        spec_apply_path(ctx, path) != crate::filesystem::root_path(),
        spec_apply_path(ctx, path).len() > 0,
        parent_path(spec_apply_path(ctx, path)) is Some,
        crate::filesystem::parent_ok(w.fs, spec_apply_path(ctx, path)),
        spec_apply_path(ctx, file_parent(spec_apply_path(ctx, path))) == file_parent(
            spec_apply_path(ctx, path),
        ),
    ensures
        file_step(w, ctx, false, true, path).1 is None,
        file_step(w, ctx, false, true, path).0.answers == w.answers,
        file_step(w, ctx, false, true, path).0.fs[spec_apply_path(ctx, path)] is File,
{
    let resolved = spec_apply_path(ctx, path);
    let (w1, e1) = remove_step(w, false, resolved);
    parent_survives_removal(w.fs, resolved);
    assert(e1 is None);
    assert(!w1.fs.contains_key(resolved)) by {
        assert(under(resolved, resolved));
    }
    let par = file_parent(resolved);
    let (w2, e2) = dir_step(w1, ctx, false, par);
    assert(e2 is None && w2.fs == w1.fs) by {
        if !crate::filesystem::dir_at(w1.fs, par) {
            assert(par.len() == 0 || par == crate::filesystem::root_path());
        }
    }
}

/// With replacement on and no dry run, a copy step whose destination
/// is occupied removes the occupant without any prompt and copies a
/// file source over it, provided the destination is a removable entry
/// (not the root), its parent directory stands, and the source is not
/// swept away with the destination.
pub proof fn lemma_replace_removes_conflicting_copy_destination(
    w: WorldV,
    ctx: ContextV,
    src: Seq<char>,
    dest: Seq<char>,
)
    requires
        w.fs.contains_key(spec_apply_path(ctx, src)),
        w.fs[spec_apply_path(ctx, src)] is File,
        w.fs.contains_key(spec_apply_path(ctx, dest)),
        spec_apply_path(ctx, dest) != crate::filesystem::root_path(),
        spec_apply_path(ctx, dest).len() > 0,
        crate::filesystem::parent_ok(w.fs, spec_apply_path(ctx, dest)),
        spec_apply_path(ctx, src) != spec_apply_path(ctx, dest),
        !under(spec_apply_path(ctx, dest), spec_apply_path(ctx, src)),
    ensures
        copy_step(w, ctx, false, true, src, dest).1 is None,
        copy_step(w, ctx, false, true, src, dest).0.answers == w.answers,
        copy_step(w, ctx, false, true, src, dest).0.fs[spec_apply_path(ctx, dest)] is File,
{
    let source = spec_apply_path(ctx, src);
    let destination = spec_apply_path(ctx, dest);
    let w1 = crate::model::push_event(w, EventV::Removing { path: destination });
    let (w2, e2) = remove_step(w1, false, destination);
    parent_survives_removal(w1.fs, destination);
    assert(e2 is None);
    assert(w2.fs.contains_key(source));
    assert(w2.fs[source] is File);
    assert(!crate::filesystem::dir_at(w2.fs, destination));
}

/// The sequence of commands the command phase launches from a token
/// list: the first token is the program, the rest its arguments.
pub open spec fn spawn_of(tokens: Seq<Seq<char>>) -> SpawnV {
    SpawnV { program: tokens[0], args: tokens.drop_first() }
}

/// What a list of token lists launches.
pub open spec fn spawns_of(cmds: Seq<Seq<Seq<char>>>) -> Seq<SpawnV> {
    Seq::new(cmds.len(), |k: int| spawn_of(cmds[k]))
}

/// An empty token list anywhere in the command list makes the command
/// phase fail with the no-command error, launching exactly the commands
/// before it and nothing after it, touching neither the filesystem nor
/// the pending answers.
pub proof fn lemma_empty_command_aborts(w: WorldV, dry: bool, cmds: Seq<Seq<Seq<char>>>, i: int)
    requires
        0 <= i < cmds.len(),
        cmds[i].len() == 0,
        forall|j: int| 0 <= j < i ==> cmds[j].len() > 0,
    ensures
        commands_phase(w, dry, cmds).1 == Option::Some(ErrorV::NoCommandProvided),
        commands_phase(w, dry, cmds).0.fs == w.fs,
        commands_phase(w, dry, cmds).0.answers == w.answers,
        !dry ==> commands_phase(w, dry, cmds).0.spawned == w.spawned + spawns_of(cmds.take(i)),
        dry ==> commands_phase(w, dry, cmds).0.spawned == w.spawned,
    decreases i,
{
    if i == 0 {
        assert(w.spawned + spawns_of(cmds.take(0)) =~= w.spawned);
    } else {
        let (w1, e) = command_step(w, dry, cmds[0]);
        assert(e is None);
        assert forall|j: int| 0 <= j < i - 1 implies cmds.drop_first()[j].len() > 0 by {
            assert(cmds.drop_first()[j] == cmds[j + 1]);
        }
        assert(cmds.drop_first()[i - 1] == cmds[i]);
        lemma_empty_command_aborts(w1, dry, cmds.drop_first(), i - 1);
        assert(commands_phase(w, dry, cmds) == commands_phase(w1, dry, cmds.drop_first()));
        if !dry {
            assert(w1.spawned == w.spawned.push(spawn_of(cmds[0])));
            assert(w1.spawned + spawns_of(cmds.drop_first().take(i - 1)) =~= w.spawned + spawns_of(
                cmds.take(i),
            )) by {
                assert forall|k: int|
                    0 <= k < i - 1 implies (#[trigger] spawns_of(cmds.drop_first().take(i - 1))[k])
                    == spawns_of(cmds.take(i))[k + 1] by {
                    assert(cmds.drop_first().take(i - 1)[k] == cmds[k + 1]);
                    assert(cmds.take(i)[k + 1] == cmds[k + 1]);
                }
                assert(spawns_of(cmds.take(i))[0] == spawn_of(cmds[0]));
            }
        }
    }
}

} // verus!
