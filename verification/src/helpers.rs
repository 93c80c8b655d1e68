//! The executable filesystem action helpers, each proved equal to its
//! step function in [`crate::model`].

use vstd::prelude::*;
use vstd::string::StrSliceExecFns;
use vstd::string::StringExecFns;

use crate::context::{spec_apply_path, Context};
use crate::error::Error;
use crate::event::{Event, SpawnedCommand};
use crate::filesystem::{root_path, FileSystem, Node};
use crate::model::{
    copy_step, dir_step, empty_file_step, exec_step, file_step, link_step, mk_dirs, remove_step,
};
use crate::paths::{last_slash, lemma_last_slash, parent_of, parent_path};
use crate::text::str_eq;
use crate::world::World;

verus! {

/// Append one report to the world.
fn record(world: &mut World, ev: Event)
    ensures
        final(world)@ == crate::model::push_event(old(world)@, ev@),
        final(world).fs == old(world).fs,
{
    let ghost ve = ev@;
    let ghost d0 = world.events.deep_view();
    world.events.push(ev);
    proof {
        assert(world.events.deep_view() =~= d0.push(ve));
    }
}

/// Append one launched command to the world.
fn launch(world: &mut World, sc: SpawnedCommand)
    ensures
        final(world)@ == crate::model::push_spawn(old(world)@, sc@),
        final(world).fs == old(world).fs,
{
    let ghost vs = sc@;
    let ghost d0 = world.spawned.deep_view();
    world.spawned.push(sc);
    proof {
        assert(world.spawned.deep_view() =~= d0.push(vs));
    }
}

/// Create every missing directory on the way to `p`, parent first;
/// `false` when something on the way exists and is not a directory.
fn ensure_dirs(fs: &mut FileSystem, p: &str) -> (ok: bool)
    requires
        old(fs).wf(),
    ensures
        final(fs).wf(),
        final(fs)@ == mk_dirs(old(fs)@, p@).0,
        ok == mk_dirs(old(fs)@, p@).1,
    decreases p@.len(),
{
    proof {
        reveal_strlit("/");
        assert("/"@ =~= seq!['/']);
    }
    if p.unicode_len() == 0 || str_eq(p, "/") {
        return true;
    }
    match parent_of(p) {
        Option::None => true,
        Option::Some(q) => {
            proof {
                lemma_last_slash(p@);
                if p@.len() == 1 && last_slash(p@) == 0 {
                    assert(p@ =~= root_path());
                }
            }
            let ok = ensure_dirs(fs, q.as_str());
            if !ok {
                false
            } else {
                match fs.get_node(p) {
                    Option::Some(Node::Dir) => true,
                    Option::Some(n) => false,
                    Option::None => {
                        fs.set_node(p, Node::Dir);
                        true
                    },
                }
            }
        },
    }
}

/// Reconcile one declared directory: resolve it, report, and create it
/// unless it is already there or this is a dry run.
pub fn create_directory(world: &mut World, dry: bool, context: &Context, path: &str) -> (r: Result<
    (),
    Error,
>)
    requires
        old(world).wf(),
    ensures
        final(world).wf(),
        final(world)@ == dir_step(old(world)@, context@, dry, path@).0,
        crate::error::res_matches(r, dir_step(old(world)@, context@, dry, path@).1),
{
    let resolved = context.apply_path(path);
    record(world, Event::Creating { path: resolved.clone() });
    if dry {
        return Result::Ok(());
    }
    if world.fs.is_dir(resolved.as_str()) {
        record(world, Event::SkippingExisting { path: resolved.clone() });
        Result::Ok(())
    } else {
        if ensure_dirs(&mut world.fs, resolved.as_str()) {
            Result::Ok(())
        } else {
            Result::Err(Error::CreateDirectory { dir_path: resolved })
        }
    }
}

/// The removal primitive: a dry run removes nothing; a file or symbolic
/// link goes alone, a directory goes with its whole tree.
pub fn remove_all(world: &mut World, dry: bool, path: &str) -> (r: Result<(), Error>)
    requires
        old(world).wf(),
    ensures
        final(world).wf(),
        final(world)@ == remove_step(old(world)@, dry, path@).0,
        crate::error::res_matches(r, remove_step(old(world)@, dry, path@).1),
{
    if dry {
        return Result::Ok(());
    }
    match world.fs.get_node(path) {
        Option::Some(Node::Dir) => {
            world.fs.remove_tree(path);
            Result::Ok(())
        },
        Option::Some(n) => {
            world.fs.remove_entry(path);
            Result::Ok(())
        },
        Option::None => Result::Err(
            Error::RemoveDirectory { dir_path: String::from_str(path) },
        ),
    }
}

/// Create one empty file at an already-resolved path: report, and
/// unless this is a dry run, create it; an existing file or link is
/// left with its contents untouched.
pub fn create_empty_file(world: &mut World, dry: bool, path: &str) -> (r: Result<(), Error>)
    requires
        old(world).wf(),
    ensures
        final(world).wf(),
        final(world)@ == empty_file_step(old(world)@, dry, path@).0,
        crate::error::res_matches(r, empty_file_step(old(world)@, dry, path@).1),
{
    proof {
        reveal_strlit("/");
        assert("/"@ =~= seq!['/']);
    }
    record(world, Event::CreatingEmptyFile { path: String::from_str(path) });
    if dry {
        return Result::Ok(());
    }
    if path.unicode_len() == 0 || str_eq(path, "/") {
        return Result::Err(Error::CreateEmptyFile { file_path: String::from_str(path) });
    }
    match world.fs.get_node(path) {
        Option::Some(Node::Dir) => Result::Err(
            Error::CreateEmptyFile { file_path: String::from_str(path) },
        ),
        Option::Some(n) => Result::Ok(()),
        Option::None => {
            if world.fs.parent_is_dir(path) {
                world.fs.set_node(path, Node::File);
                Result::Ok(())
            } else {
                Result::Err(Error::CreateEmptyFile { file_path: String::from_str(path) })
            }
        },
    }
}

/// Report and, outside a dry run, launch one external command; its exit
/// status is no concern of this layer, so this never fails.
pub fn execute_command(world: &mut World, dry: bool, command: &str, args: &[String]) -> (r: Result<
    (),
    Error,
>)
    requires
        old(world).wf(),
    ensures
        final(world).wf(),
        final(world)@ == exec_step(old(world)@, dry, command@, args.deep_view()),
        r is Ok,
{
    let reported = copy_strings(args);
    record(
        world,
        Event::Executing { program: String::from_str(command), args: reported },
    );
    if dry {
        return Result::Ok(());
    }
    let passed = copy_strings(args);
    launch(world, SpawnedCommand { program: String::from_str(command), args: passed });
    Result::Ok(())
}

/// Reconcile one declared empty file: resolve it, settle a conflict
/// with the existing entry (removal, prompt-gated unless `replace`),
/// ensure the parent directory, and create the file. A declined prompt
/// suppresses only the removal. The resolved path must have a parent;
/// recursive file creation at `/` or at the empty path has none.
pub fn create_file(
    world: &mut World,
    dry: bool,
    replace: bool,
    context: &Context,
    path: &str,
) -> (r: Result<(), Error>)
    requires
        old(world).wf(),
        parent_path(spec_apply_path(context@, path@)) is Some,
    ensures
        final(world).wf(),
        final(world)@ == file_step(old(world)@, context@, dry, replace, path@).0,
        crate::error::res_matches(r, file_step(old(world)@, context@, dry, replace, path@).1),
{
    let resolved = context.apply_path(path);
    if world.fs.occupied(resolved.as_str()) {
        if replace {
            match remove_all(world, dry, resolved.as_str()) {
                Result::Err(e) => {
                    return Result::Err(e);
                },
                Result::Ok(u) => {},
            }
        } else {
            let ans = world.next_answer();
            if ans {
                match remove_all(world, dry, resolved.as_str()) {
                    Result::Err(e) => {
                        return Result::Err(e);
                    },
                    Result::Ok(u) => {},
                }
            }
        }
    }
    let par = match parent_of(resolved.as_str()) {
        Option::Some(q) => q,
        Option::None => {
            proof {
                assert(false);
            }
            String::new()
        },
    };
    match create_directory(world, dry, context, par.as_str()) {
        Result::Err(e) => {
            return Result::Err(e);
        },
        Result::Ok(u) => {},
    }
    create_empty_file(world, dry, resolved.as_str())
}

/// Reconcile one declared symbolic link: the source must exist (the
/// model takes an existing path as its own canonical form); dry-run
/// stops right after the report; a destination already pointing at the
/// source is skipped; any other occupant is removed, prompt-gated
/// unless `replace`, and the link is attempted regardless of a
/// declined prompt.
pub fn create_symlink(
    world: &mut World,
    dry: bool,
    replace: bool,
    context: &Context,
    src: &str,
    dest: &str,
) -> (r: Result<(), Error>)
    requires
        old(world).wf(),
    ensures
        final(world).wf(),
        final(world)@ == link_step(old(world)@, context@, dry, replace, src@, dest@).0,
        crate::error::res_matches(
            r,
            link_step(old(world)@, context@, dry, replace, src@, dest@).1,
        ),
{
    let source = context.apply_path(src);
    if !world.fs.occupied(source.as_str()) {
        return Result::Err(Error::CanonicalizePath { path: String::from_str(src) });
    }
    let destination = context.apply_path(dest);
    record(
        world,
        Event::Linking { destination: destination.clone(), source: source.clone() },
    );
    if dry {
        return Result::Ok(());
    }
    let already = match world.fs.get_node(destination.as_str()) {
        Option::Some(Node::Symlink { target }) => str_eq(target.as_str(), source.as_str()),
        _ => false,
    };
    if already {
        record(
            world,
            Event::SkippingExistingLink {
                destination: destination.clone(),
                source: source.clone(),
            },
        );
        return Result::Ok(());
    }
    if world.fs.occupied(destination.as_str()) {
        if replace {
            match remove_all(world, false, destination.as_str()) {
                Result::Err(e) => {
                    return Result::Err(e);
                },
                Result::Ok(u) => {},
            }
        } else {
            let ans = world.next_answer();
            if ans {
                match remove_all(world, false, destination.as_str()) {
                    Result::Err(e) => {
                        return Result::Err(e);
                    },
                    Result::Ok(u) => {},
                }
            }
        }
    }
    if world.fs.occupied(destination.as_str()) || destination.as_str().unicode_len() == 0
        || !world.fs.parent_is_dir(destination.as_str()) {
        Result::Err(Error::CreateSymbolLink { link_source: source, link_destination: destination })
    } else {
        world.fs.set_node(destination.as_str(), Node::Symlink { target: source });
        Result::Ok(())
    }
}

/// Reconcile one declared copy: the source must exist; an existing
/// destination is removed, prompt-gated unless `replace` — and a
/// declined prompt skips the whole copy. A file source is copied to
/// the destination; a directory source has the destination's parents
/// created and its whole tree copied.
pub fn copy(
    world: &mut World,
    dry: bool,
    replace: bool,
    context: &Context,
    src: &str,
    dest: &str,
) -> (r: Result<(), Error>)
    requires
        old(world).wf(),
    ensures
        final(world).wf(),
        final(world)@ == copy_step(old(world)@, context@, dry, replace, src@, dest@).0,
        crate::error::res_matches(
            r,
            copy_step(old(world)@, context@, dry, replace, src@, dest@).1,
        ),
{
    proof {
        reveal_strlit("/");
        assert("/"@ =~= seq!['/']);
    }
    let source = context.apply_path(src);
    if !world.fs.occupied(source.as_str()) {
        return Result::Err(Error::CanonicalizePath { path: String::from_str(src) });
    }
    let destination = context.apply_path(dest);
    if world.fs.occupied(destination.as_str()) {
        let go = if replace {
            true
        } else {
            world.next_answer()
        };
        if !go {
            return Result::Ok(());
        }
        record(world, Event::Removing { path: destination.clone() });
        match remove_all(world, dry, destination.as_str()) {
            Result::Err(e) => {
                return Result::Err(e);
            },
            Result::Ok(u) => {},
        }
    }
    record(
        world,
        Event::Copying { source: source.clone(), destination: destination.clone() },
    );
    if dry {
        return Result::Ok(());
    }
    match world.fs.get_node(source.as_str()) {
        Option::Some(Node::File) => {
            if destination.as_str().unicode_len() == 0 || str_eq(destination.as_str(), "/")
                || world.fs.is_dir(destination.as_str()) || !world.fs.parent_is_dir(
                destination.as_str(),
            ) {
                Result::Err(
                    Error::CopyFile { copy_source: source, copy_destination: destination },
                )
            } else {
                world.fs.set_node(destination.as_str(), Node::File);
                Result::Ok(())
            }
        },
        Option::Some(Node::Dir) => {
            match parent_of(destination.as_str()) {
                Option::None => {
                    world.fs.copy_tree(source.as_str(), destination.as_str());
                    Result::Ok(())
                },
                Option::Some(q) => {
                    if ensure_dirs(&mut world.fs, q.as_str()) {
                        world.fs.copy_tree(source.as_str(), destination.as_str());
                        Result::Ok(())
                    } else {
                        Result::Err(Error::CreateDirectory { dir_path: q })
                    }
                },
            }
        },
        _ => Result::Err(
            Error::CopyDirectory { copy_source: source, copy_destination: destination },
        ),
    }
}

/// An owned copy of a borrowed list of strings.
fn copy_strings(args: &[String]) -> (r: Vec<String>)
    ensures
        r.deep_view() == args.deep_view(),
{
    let mut r: Vec<String> = Vec::new();
    let mut i: usize = 0;
    proof {
        assert(r.deep_view() =~= args.deep_view().take(0));
    }
    while i < args.len()
        invariant
            i <= args@.len(),
            r.deep_view() == args.deep_view().take(i as int),
        decreases args@.len() - i,
    {
        let ghost d0 = r.deep_view();
        r.push(args[i].clone());
        proof {
            assert(r.deep_view() =~= d0.push(args.deep_view()[i as int]));
            assert(r.deep_view() =~= args.deep_view().take(i + 1));
        }
        i += 1;
    }
    proof {
        assert(args.deep_view().take(i as int) =~= args.deep_view());
    }
    r
}

} // verus!
