use provision::config::{Config, SymbolLink};
use provision::context::Context;
use provision::error::Error;
use provision::event::Event;
use provision::filesystem::Node;
use provision::helpers::remove_all;
use provision::manager::Manager;
use provision::world::World;

fn ctx() -> Context {
    Context { user_name: String::from("alice"), home_dir: String::from("/home/alice") }
}

fn empty_manager_with(
    directories: Vec<String>,
    empty_files: Vec<String>,
    links: Vec<(String, String)>,
    copies: Vec<(String, String)>,
    commands: Vec<Vec<String>>,
) -> Manager {
    Manager::new(directories, empty_files, links, copies, commands)
}

#[test]
fn creates_directory_then_empty_file_without_prompts() {
    // directories: ["proj"], emptyFiles: ["proj/.keep"] on an empty
    // workspace: the directory, then the file, and never a prompt.
    let m = empty_manager_with(
        vec![String::from("proj")],
        vec![String::from("proj/.keep")],
        vec![],
        vec![],
        vec![],
    );
    let mut w = World::new();
    let r = m.apply(false, false, &ctx(), &mut w);
    assert!(r.is_ok());
    assert_eq!(w.fs.lookup("proj"), Some(&Node::Dir));
    assert_eq!(w.fs.lookup("proj/.keep"), Some(&Node::File));
    assert_eq!(w.answers.len(), 0);
    assert_eq!(
        w.events,
        vec![
            Event::Creating { path: String::from("proj") },
            Event::Creating { path: String::from("proj") },
            Event::SkippingExisting { path: String::from("proj") },
            Event::CreatingEmptyFile { path: String::from("proj/.keep") },
        ]
    );
}

#[test]
fn existing_directory_is_skipped() {
    let m = empty_manager_with(vec![String::from("d")], vec![], vec![], vec![], vec![]);
    let mut w = World::new();
    assert!(m.apply(false, false, &ctx(), &mut w).is_ok());
    let events_after_first = w.events.len();
    assert!(m.apply(false, false, &ctx(), &mut w).is_ok());
    assert_eq!(w.fs.lookup("d"), Some(&Node::Dir));
    assert_eq!(
        &w.events[events_after_first..],
        &[
            Event::Creating { path: String::from("d") },
            Event::SkippingExisting { path: String::from("d") },
        ]
    );
}

#[test]
fn existing_matching_link_is_skipped() {
    let m = empty_manager_with(
        vec![],
        vec![],
        vec![(String::from("s"), String::from("l"))],
        vec![],
        vec![],
    );
    let mut w = World::new();
    w.fs.set_node("s", Node::File);
    assert!(m.apply(false, false, &ctx(), &mut w).is_ok());
    assert_eq!(w.fs.lookup("l"), Some(&Node::Symlink { target: String::from("s") }));
    let events_after_first = w.events.len();
    assert!(m.apply(false, false, &ctx(), &mut w).is_ok());
    assert_eq!(
        &w.events[events_after_first..],
        &[
            Event::Linking { destination: String::from("l"), source: String::from("s") },
            Event::SkippingExistingLink {
                destination: String::from("l"),
                source: String::from("s"),
            },
        ]
    );
}

#[test]
fn dry_run_touches_nothing_and_spawns_nothing() {
    let m = empty_manager_with(
        vec![String::from("d")],
        vec![String::from("d/f")],
        vec![(String::from("x"), String::from("y"))],
        vec![(String::from("x"), String::from("z"))],
        vec![vec![String::from("touch"), String::from("q")]],
    );
    let mut w = World::new();
    w.fs.set_node("x", Node::File);
    let r = m.apply(true, false, &ctx(), &mut w);
    assert!(r.is_ok());
    assert_eq!(w.fs.lookup("d"), None);
    assert_eq!(w.fs.lookup("d/f"), None);
    assert_eq!(w.fs.lookup("y"), None);
    assert_eq!(w.fs.lookup("z"), None);
    assert_eq!(w.fs.lookup("x"), Some(&Node::File));
    assert_eq!(w.spawned.len(), 0);
    assert!(w.events.contains(&Event::Executing {
        program: String::from("touch"),
        args: vec![String::from("q")],
    }));
}

#[test]
fn exhausted_answers_read_as_no() {
    // end of input at a prompt resolves to "no": the occupant stays,
    // and creating over an existing file leaves its contents alone
    let m = empty_manager_with(vec![], vec![String::from("f")], vec![], vec![], vec![]);
    let mut w = World::new();
    w.fs.set_node("f", Node::File);
    let r = m.apply(false, false, &ctx(), &mut w);
    assert!(r.is_ok());
    assert_eq!(w.fs.lookup("f"), Some(&Node::File));
}

#[test]
fn dry_run_still_prompts_for_existing_empty_file_targets() {
    // for empty files the conflict prompt precedes the dry-run guard:
    // the answer is consumed, yet nothing is written
    let m = empty_manager_with(vec![], vec![String::from("f")], vec![], vec![], vec![]);
    let mut w = World::new();
    w.fs.set_node("f", Node::File);
    w.answers.push(true);
    let r = m.apply(true, false, &ctx(), &mut w);
    assert!(r.is_ok());
    assert_eq!(w.answers.len(), 0);
    assert_eq!(w.fs.lookup("f"), Some(&Node::File));
}

#[test]
fn dry_run_still_fails_on_a_missing_link_source() {
    // canonicalization precedes the dry-run guard: a missing source is
    // fatal even when nothing would be written
    let m = empty_manager_with(
        vec![],
        vec![],
        vec![(String::from("ghost"), String::from("l"))],
        vec![],
        vec![],
    );
    let mut w = World::new();
    let r = m.apply(true, false, &ctx(), &mut w);
    assert!(matches!(r, Err(Error::CanonicalizePath { .. })));
    assert_eq!(w.fs.lookup("l"), None);
}

#[test]
fn replace_removes_conflicting_link_destination_without_prompt() {
    let m = empty_manager_with(
        vec![],
        vec![],
        vec![(String::from("srcfile"), String::from("dstlink"))],
        vec![],
        vec![],
    );
    let mut w = World::new();
    w.fs.set_node("srcfile", Node::File);
    w.fs.set_node("dstlink", Node::File);
    // no pending answers: a prompt would read as "no" and the stale
    // destination would survive; with replace it must go.
    let r = m.apply(false, true, &ctx(), &mut w);
    assert!(r.is_ok());
    assert_eq!(w.fs.lookup("dstlink"), Some(&Node::Symlink { target: String::from("srcfile") }));
}

#[test]
fn replace_removes_conflicting_file_and_directory() {
    // an empty-file target occupied by a whole directory tree goes too
    let m = empty_manager_with(
        vec![],
        vec![String::from("spot")],
        vec![],
        vec![],
        vec![],
    );
    let mut w = World::new();
    w.fs.set_node("spot", Node::Dir);
    w.fs.set_node("spot/inner", Node::File);
    let r = m.apply(false, true, &ctx(), &mut w);
    assert!(r.is_ok());
    assert_eq!(w.fs.lookup("spot"), Some(&Node::File));
    assert_eq!(w.fs.lookup("spot/inner"), None);
    assert_eq!(w.answers.len(), 0);
}

#[test]
fn empty_command_aborts_after_earlier_phases_applied() {
    let m = empty_manager_with(
        vec![String::from("d1")],
        vec![],
        vec![],
        vec![],
        vec![
            vec![String::from("echo"), String::from("hi")],
            vec![],
            vec![String::from("never")],
        ],
    );
    let mut w = World::new();
    let r = m.apply(false, false, &ctx(), &mut w);
    assert!(matches!(r, Err(Error::NoCommandProvided)));
    // the directory phase has been applied and stays applied
    assert_eq!(w.fs.lookup("d1"), Some(&Node::Dir));
    // exactly the commands before the empty entry were launched
    assert_eq!(w.spawned.len(), 1);
    assert_eq!(w.spawned[0].program, "echo");
    assert_eq!(w.spawned[0].args, vec![String::from("hi")]);
}

#[test]
fn declined_copy_prompt_skips_the_whole_copy() {
    // the copy source holds a and b; the destination already holds a;
    // answering "no" at the destination-exists prompt performs no copy
    let m = empty_manager_with(
        vec![],
        vec![],
        vec![],
        vec![(String::from("src"), String::from("dst"))],
        vec![],
    );
    let mut w = World::new();
    w.fs.set_node("src", Node::Dir);
    w.fs.set_node("src/a", Node::File);
    w.fs.set_node("src/b", Node::File);
    w.fs.set_node("dst", Node::Dir);
    w.fs.set_node("dst/a", Node::File);
    w.answers.push(false);
    let r = m.apply(false, false, &ctx(), &mut w);
    assert!(r.is_ok());
    assert_eq!(w.fs.lookup("dst/b"), None);
    assert_eq!(w.fs.lookup("dst/a"), Some(&Node::File));
    assert_eq!(w.answers.len(), 0);
    assert_eq!(w.events, Vec::new());
}

#[test]
fn accepted_copy_prompt_replaces_the_destination_tree() {
    let m = empty_manager_with(
        vec![],
        vec![],
        vec![],
        vec![(String::from("src"), String::from("dst"))],
        vec![],
    );
    let mut w = World::new();
    w.fs.set_node("src", Node::Dir);
    w.fs.set_node("src/a", Node::File);
    w.fs.set_node("src/b", Node::File);
    w.fs.set_node("dst", Node::Dir);
    w.fs.set_node("dst/old", Node::File);
    w.answers.push(true);
    let r = m.apply(false, false, &ctx(), &mut w);
    assert!(r.is_ok());
    assert_eq!(w.fs.lookup("dst"), Some(&Node::Dir));
    assert_eq!(w.fs.lookup("dst/a"), Some(&Node::File));
    assert_eq!(w.fs.lookup("dst/b"), Some(&Node::File));
    assert_eq!(w.fs.lookup("dst/old"), None);
}

#[test]
fn copying_a_plain_file_overwrites_the_destination() {
    let m = empty_manager_with(
        vec![],
        vec![],
        vec![],
        vec![(String::from("one"), String::from("two"))],
        vec![],
    );
    let mut w = World::new();
    w.fs.set_node("one", Node::File);
    let r = m.apply(false, false, &ctx(), &mut w);
    assert!(r.is_ok());
    assert_eq!(w.fs.lookup("two"), Some(&Node::File));
}

#[test]
fn missing_link_source_is_a_canonicalize_error() {
    let m = empty_manager_with(
        vec![],
        vec![],
        vec![(String::from("ghost"), String::from("l"))],
        vec![],
        vec![],
    );
    let mut w = World::new();
    let r = m.apply(false, false, &ctx(), &mut w);
    assert!(matches!(r, Err(Error::CanonicalizePath { .. })));
}

#[test]
fn missing_copy_source_is_a_canonicalize_error_carrying_the_declared_path() {
    let m = empty_manager_with(
        vec![],
        vec![],
        vec![],
        vec![(String::from("$HOME/gone"), String::from("d"))],
        vec![],
    );
    let mut w = World::new();
    let r = m.apply(false, false, &ctx(), &mut w);
    match r {
        Err(Error::CanonicalizePath { path }) => assert_eq!(path, "$HOME/gone"),
        other => panic!("expected a canonicalize error, got {:?}", other),
    }
}

#[test]
fn file_in_the_way_of_a_directory_is_a_create_directory_error() {
    let m = empty_manager_with(vec![String::from("f/x")], vec![], vec![], vec![], vec![]);
    let mut w = World::new();
    w.fs.set_node("f", Node::File);
    let r = m.apply(false, false, &ctx(), &mut w);
    assert!(matches!(r, Err(Error::CreateDirectory { .. })));
}

#[test]
fn declined_link_prompt_still_attempts_and_fails_on_occupied_destination() {
    let m = empty_manager_with(
        vec![],
        vec![],
        vec![(String::from("s"), String::from("l"))],
        vec![],
        vec![],
    );
    let mut w = World::new();
    w.fs.set_node("s", Node::File);
    w.fs.set_node("l", Node::File);
    w.answers.push(false);
    let r = m.apply(false, false, &ctx(), &mut w);
    assert!(matches!(r, Err(Error::CreateSymbolLink { .. })));
    assert_eq!(w.fs.lookup("l"), Some(&Node::File));
}

#[test]
fn copying_a_file_into_a_missing_parent_fails() {
    let m = empty_manager_with(
        vec![],
        vec![],
        vec![],
        vec![(String::from("f"), String::from("nodir/x"))],
        vec![],
    );
    let mut w = World::new();
    w.fs.set_node("f", Node::File);
    let r = m.apply(false, false, &ctx(), &mut w);
    assert!(matches!(r, Err(Error::CopyFile { .. })));
}

#[test]
fn copying_a_symbolic_link_source_is_a_directory_copy_error() {
    let m = empty_manager_with(
        vec![],
        vec![],
        vec![],
        vec![(String::from("lnk"), String::from("out"))],
        vec![],
    );
    let mut w = World::new();
    w.fs.set_node("lnk", Node::Symlink { target: String::from("elsewhere") });
    let r = m.apply(false, false, &ctx(), &mut w);
    assert!(matches!(r, Err(Error::CopyDirectory { .. })));
}

#[test]
fn empty_file_on_a_directory_is_a_create_empty_file_error() {
    let m = empty_manager_with(vec![], vec![String::from("d")], vec![], vec![], vec![]);
    let mut w = World::new();
    w.fs.set_node("d", Node::Dir);
    w.fs.set_node("d/inner", Node::File);
    // decline the removal: the creation is attempted anyway and fails
    w.answers.push(false);
    let r = m.apply(false, false, &ctx(), &mut w);
    assert!(matches!(r, Err(Error::CreateEmptyFile { .. })));
    assert_eq!(w.fs.lookup("d/inner"), Some(&Node::File));
}

#[test]
fn removing_a_missing_path_is_a_remove_directory_error() {
    let mut w = World::new();
    let r = remove_all(&mut w, false, "missing");
    assert!(matches!(r, Err(Error::RemoveDirectory { .. })));
    let r2 = remove_all(&mut w, true, "missing");
    assert!(r2.is_ok());
}

#[test]
fn existing_file_contents_survive_an_undeclined_create() {
    // the empty-file step opens an existing file without truncating it:
    // in the model, the entry is left exactly as it was
    let m = empty_manager_with(vec![], vec![String::from("keep")], vec![], vec![], vec![]);
    let mut w = World::new();
    w.fs.set_node("keep", Node::File);
    w.answers.push(false);
    let r = m.apply(false, false, &ctx(), &mut w);
    assert!(r.is_ok());
    assert_eq!(w.fs.lookup("keep"), Some(&Node::File));
}

#[test]
fn manager_from_config_keeps_the_collections() {
    let cfg = Config {
        commands: vec![vec![String::from("ls")]],
        directories: vec![String::from("a")],
        empty_files: vec![String::from("a/f")],
        links: vec![(String::from("s"), String::from("l"))],
        copies: vec![],
    };
    let m = Manager::from(cfg);
    let mut w = World::new();
    w.fs.set_node("s", Node::File);
    let r = m.apply(false, false, &ctx(), &mut w);
    assert!(r.is_ok());
    assert_eq!(w.fs.lookup("a"), Some(&Node::Dir));
    assert_eq!(w.fs.lookup("a/f"), Some(&Node::File));
    assert_eq!(w.fs.lookup("l"), Some(&Node::Symlink { target: String::from("s") }));
    assert_eq!(w.spawned.len(), 1);
    assert_eq!(w.spawned[0].program, "ls");
}

#[test]
fn default_config_declares_nothing() {
    let cfg = Config::default();
    assert!(cfg.commands.is_empty());
    assert!(cfg.directories.is_empty());
    assert!(cfg.empty_files.is_empty());
    assert!(cfg.links.is_empty());
    assert!(cfg.copies.is_empty());
}

#[test]
fn symbol_link_holds_its_path() {
    let l = SymbolLink::new(String::from("~/.config/nvim"));
    assert_eq!(l.path().as_str(), "~/.config/nvim");
}

#[test]
fn paths_go_through_the_context_before_any_check() {
    let m = empty_manager_with(vec![String::from("$USER-dir")], vec![], vec![], vec![], vec![]);
    let mut w = World::new();
    assert!(m.apply(false, false, &ctx(), &mut w).is_ok());
    assert_eq!(w.fs.lookup("alice-dir"), Some(&Node::Dir));
}
