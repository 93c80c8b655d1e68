//! The reconciliation engine: walks the declared collections in a fixed
//! order — directories, empty files, links, copies, commands — and
//! applies each item against the world, aborting at the first error.

use vstd::prelude::*;
use vstd::slice::slice_subrange;

use crate::config::{pairs_view, Config, ConfigV};
use crate::context::Context;
use crate::error::{res_matches, Error};
use crate::helpers::{copy, create_directory, create_file, create_symlink, execute_command};
use crate::model::{
    apply_spec, command_step, commands_phase, copies_phase, dirs_phase, files_phase,
    files_resolvable, links_phase,
};
use crate::world::World;

verus! {

/// Holds the five declared collections and applies them.
pub struct Manager {
    directories: Vec<String>,
    empty_files: Vec<String>,
    links: Vec<(String, String)>,
    copies: Vec<(String, String)>,
    commands: Vec<Vec<String>>,
}

impl View for Manager {
    type V = ConfigV;

    closed spec fn view(&self) -> ConfigV {
        ConfigV {
            commands: self.commands.deep_view(),
            directories: self.directories.deep_view(),
            empty_files: self.empty_files.deep_view(),
            links: pairs_view(self.links@),
            copies: pairs_view(self.copies@),
        }
    }
}

impl vstd::std_specs::convert::FromSpecImpl<Config> for Manager {
    open spec fn obeys_from_spec() -> bool {
        true
    }

    closed spec fn from_spec(config: Config) -> Manager {
        Manager {
            directories: config.directories,
            empty_files: config.empty_files,
            links: config.links,
            copies: config.copies,
            commands: config.commands,
        }
    }
}

impl From<Config> for Manager {
    /// A manager over the collections of `config`.
    fn from(config: Config) -> (r: Manager)
        ensures
            r@ == config@,
    {
        let Config { commands, directories, empty_files, links, copies } = config;
        Manager { directories, empty_files, links, copies, commands }
    }
}

impl Manager {
    /// A manager over the given collections.
    pub fn new(
        directories: Vec<String>,
        empty_files: Vec<String>,
        links: Vec<(String, String)>,
        copies: Vec<(String, String)>,
        commands: Vec<Vec<String>>,
    ) -> (r: Manager)
        ensures
            r@.directories == directories.deep_view(),
            r@.empty_files == empty_files.deep_view(),
            r@.links == pairs_view(links@),
            r@.copies == pairs_view(copies@),
            r@.commands == commands.deep_view(),
    {
        Manager { directories, empty_files, links, copies, commands }
    }

    /// One reconciliation pass: directories, then empty files, then
    /// links, then copies, then commands, each collection fully applied
    /// before the next, the first error aborting all remaining work.
    /// The whole pass equals [`apply_spec`] on the world; through that
    /// equality the laws in [`crate::laws`] apply to it directly — in
    /// particular, a dry pass leaves the filesystem untouched and
    /// launches nothing (`lemma_dry_run_is_harmless`), and a pass with
    /// `replace` never consults the operator
    /// (`lemma_replace_never_prompts`).
    pub fn apply(&self, dry: bool, replace: bool, context: &Context, world: &mut World) -> (r:
        Result<(), Error>)
        requires
            old(world).wf(),
            files_resolvable(context@, self@.empty_files),
        ensures
            final(world).wf(),
            final(world)@ == apply_spec(old(world)@, context@, dry, replace, self@).0,
            res_matches(r, apply_spec(old(world)@, context@, dry, replace, self@).1),
    {
        let ghost w0 = world@;
        let ghost cfg = self@;

        let ghost dv = cfg.directories;
        let mut i: usize = 0;
        proof {
            assert(dv.skip(0) =~= dv);
        }
        while i < self.directories.len()
            invariant
                world.wf(),
                w0 == old(world)@,
                cfg == self@,
                dv == cfg.directories,
                i <= self.directories@.len(),
                self.directories@.len() == dv.len(),
                dirs_phase(w0, context@, dry, dv) == dirs_phase(
                    world@,
                    context@,
                    dry,
                    dv.skip(i as int),
                ),
            decreases dv.len() - i,
        {
            proof {
                assert(dv.skip(i as int)[0] == dv[i as int]);
                assert(dv[i as int] == self.directories@[i as int]@);
            }
            let ghost wb = world@;
            match create_directory(world, dry, context, self.directories[i].as_str()) {
                Result::Err(e) => {
                    proof {
                        assert(dirs_phase(wb, context@, dry, dv.skip(i as int)) == (
                            world@,
                            Option::Some(e@),
                        ));
                        assert(dirs_phase(w0, context@, dry, dv) == (world@, Option::Some(e@)));
                    }
                    return Result::Err(e);
                },
                Result::Ok(u) => {
                    proof {
                        assert(dv.skip(i as int).drop_first() =~= dv.skip(i + 1));
                    }
                    i += 1;
                },
            }
        }
        proof {
            assert(dv.skip(i as int).len() == 0);
        }
        let ghost w1 = world@;

        let ghost fv = cfg.empty_files;
        let mut i: usize = 0;
        proof {
            assert(fv.skip(0) =~= fv);
        }
        while i < self.empty_files.len()
            invariant
                world.wf(),
                w0 == old(world)@,
                cfg == self@,
                fv == cfg.empty_files,
                i <= self.empty_files@.len(),
                self.empty_files@.len() == fv.len(),
                files_resolvable(context@, fv),
                dirs_phase(w0, context@, dry, cfg.directories) == (w1, Option::None::<
                    crate::error::ErrorV,
                >),
                files_phase(w1, context@, dry, replace, fv) == files_phase(
                    world@,
                    context@,
                    dry,
                    replace,
                    fv.skip(i as int),
                ),
            decreases fv.len() - i,
        {
            proof {
                assert(fv.skip(i as int)[0] == fv[i as int]);
                assert(fv[i as int] == self.empty_files@[i as int]@);
            }
            let ghost wb = world@;
            match create_file(world, dry, replace, context, self.empty_files[i].as_str()) {
                Result::Err(e) => {
                    proof {
                        assert(files_phase(wb, context@, dry, replace, fv.skip(i as int)) == (
                            world@,
                            Option::Some(e@),
                        ));
                        assert(files_phase(w1, context@, dry, replace, fv) == (
                            world@,
                            Option::Some(e@),
                        ));
                    }
                    return Result::Err(e);
                },
                Result::Ok(u) => {
                    proof {
                        assert(fv.skip(i as int).drop_first() =~= fv.skip(i + 1));
                    }
                    i += 1;
                },
            }
        }
        proof {
            assert(fv.skip(i as int).len() == 0);
        }
        let ghost w2 = world@;

        let ghost lv = cfg.links;
        let mut i: usize = 0;
        proof {
            assert(lv.skip(0) =~= lv);
        }
        while i < self.links.len()
            invariant
                world.wf(),
                w0 == old(world)@,
                cfg == self@,
                lv == cfg.links,
                i <= self.links@.len(),
                self.links@.len() == lv.len(),
                dirs_phase(w0, context@, dry, cfg.directories) == (w1, Option::None::<
                    crate::error::ErrorV,
                >),
                files_phase(w1, context@, dry, replace, cfg.empty_files) == (w2, Option::None::<
                    crate::error::ErrorV,
                >),
                links_phase(w2, context@, dry, replace, lv) == links_phase(
                    world@,
                    context@,
                    dry,
                    replace,
                    lv.skip(i as int),
                ),
            decreases lv.len() - i,
        {
            proof {
                assert(lv.skip(i as int)[0] == lv[i as int]);
                assert(lv[i as int] == (self.links@[i as int].0@, self.links@[i as int].1@));
            }
            let ghost wb = world@;
            match create_symlink(
                world,
                dry,
                replace,
                context,
                self.links[i].0.as_str(),
                self.links[i].1.as_str(),
            ) {
                Result::Err(e) => {
                    proof {
                        assert(links_phase(wb, context@, dry, replace, lv.skip(i as int)) == (
                            world@,
                            Option::Some(e@),
                        ));
                        assert(links_phase(w2, context@, dry, replace, lv) == (
                            world@,
                            Option::Some(e@),
                        ));
                    }
                    return Result::Err(e);
                },
                Result::Ok(u) => {
                    proof {
                        assert(lv.skip(i as int).drop_first() =~= lv.skip(i + 1));
                    }
                    i += 1;
                },
            }
        }
        proof {
            assert(lv.skip(i as int).len() == 0);
        }
        let ghost w3 = world@;

        let ghost pv = cfg.copies;
        let mut i: usize = 0;
        proof {
            assert(pv.skip(0) =~= pv);
        }
        while i < self.copies.len()
            invariant
                world.wf(),
                w0 == old(world)@,
                cfg == self@,
                pv == cfg.copies,
                i <= self.copies@.len(),
                self.copies@.len() == pv.len(),
                dirs_phase(w0, context@, dry, cfg.directories) == (w1, Option::None::<
                    crate::error::ErrorV,
                >),
                files_phase(w1, context@, dry, replace, cfg.empty_files) == (w2, Option::None::<
                    crate::error::ErrorV,
                >),
                links_phase(w2, context@, dry, replace, cfg.links) == (w3, Option::None::<
                    crate::error::ErrorV,
                >),
                copies_phase(w3, context@, dry, replace, pv) == copies_phase(
                    world@,
                    context@,
                    dry,
                    replace,
                    pv.skip(i as int),
                ),
            decreases pv.len() - i,
        {
            proof {
                assert(pv.skip(i as int)[0] == pv[i as int]);
                assert(pv[i as int] == (self.copies@[i as int].0@, self.copies@[i as int].1@));
            }
            let ghost wb = world@;
            match copy(
                world,
                dry,
                replace,
                context,
                self.copies[i].0.as_str(),
                self.copies[i].1.as_str(),
            ) {
                Result::Err(e) => {
                    proof {
                        assert(copies_phase(wb, context@, dry, replace, pv.skip(i as int)) == (
                            world@,
                            Option::Some(e@),
                        ));
                        assert(copies_phase(w3, context@, dry, replace, pv) == (
                            world@,
                            Option::Some(e@),
                        ));
                    }
                    return Result::Err(e);
                },
                Result::Ok(u) => {
                    proof {
                        assert(pv.skip(i as int).drop_first() =~= pv.skip(i + 1));
                    }
                    i += 1;
                },
            }
        }
        proof {
            assert(pv.skip(i as int).len() == 0);
        }
        let ghost w4 = world@;

        let ghost cv = cfg.commands;
        let mut i: usize = 0;
        proof {
            assert(cv.skip(0) =~= cv);
        }
        while i < self.commands.len()
            invariant
                world.wf(),
                w0 == old(world)@,
                cfg == self@,
                cv == cfg.commands,
                i <= self.commands@.len(),
                self.commands@.len() == cv.len(),
                dirs_phase(w0, context@, dry, cfg.directories) == (w1, Option::None::<
                    crate::error::ErrorV,
                >),
                files_phase(w1, context@, dry, replace, cfg.empty_files) == (w2, Option::None::<
                    crate::error::ErrorV,
                >),
                links_phase(w2, context@, dry, replace, cfg.links) == (w3, Option::None::<
                    crate::error::ErrorV,
                >),
                copies_phase(w3, context@, dry, replace, cfg.copies) == (w4, Option::None::<
                    crate::error::ErrorV,
                >),
                commands_phase(w4, dry, cv) == commands_phase(world@, dry, cv.skip(i as int)),
            decreases cv.len() - i,
        {
            proof {
                assert(cv.skip(i as int)[0] == cv[i as int]);
                assert(cv[i as int] == self.commands@[i as int].deep_view());
                assert(cv[i as int].len() == self.commands@[i as int]@.len());
            }
            let cmd = &self.commands[i];
            if cmd.len() == 0 {
                proof {
                    assert(command_step(world@, dry, cv[i as int]) == (
                        world@,
                        Option::Some(crate::error::ErrorV::NoCommandProvided),
                    ));
                    assert(commands_phase(world@, dry, cv.skip(i as int)) == (
                        world@,
                        Option::Some(crate::error::ErrorV::NoCommandProvided),
                    ));
                    assert(commands_phase(w4, dry, cv) == (
                        world@,
                        Option::Some(crate::error::ErrorV::NoCommandProvided),
                    ));
                }
                return Result::Err(Error::NoCommandProvided);
            }
            let args = slice_subrange(cmd.as_slice(), 1, cmd.len());
            proof {
                assert(args.deep_view() =~= cv[i as int].drop_first());
                assert(cv[i as int][0] == cmd@[0]@);
            }
            match execute_command(world, dry, cmd[0].as_str(), args) {
                Result::Err(e) => {
                    proof {
                        assert(false);
                    }
                    return Result::Err(e);
                },
                Result::Ok(u) => {
                    proof {
                        assert(cv.skip(i as int).drop_first() =~= cv.skip(i + 1));
                    }
                    i += 1;
                },
            }
        }
        proof {
            assert(cv.skip(i as int).len() == 0);
        }
        Result::Ok(())
    }
}

} // verus!
