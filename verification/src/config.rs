//! The in-memory configuration: five declared collections, loaded by an
//! external reader and consumed read-only by the manager.

use vstd::prelude::*;

verus! {

/// A declared symbolic link target.
#[derive(Debug, PartialEq, Eq)]
pub struct SymbolLink {
    path: String,
}

impl SymbolLink {
    pub fn new(path: String) -> (r: SymbolLink)
        ensures
            r@ == path@,
    {
        SymbolLink { path }
    }

    pub fn path(&self) -> (r: &String)
        ensures
            r@ == self@,
    {
        &self.path
    }
}

impl View for SymbolLink {
    type V = Seq<char>;

    closed spec fn view(&self) -> Seq<char> {
        self.path@
    }
}

/// The declared desired state: commands to run, directories and empty
/// files to create, links and copies to make. The link and copy lists
/// play the role of mappings: their keys are meant to be unique (see
/// [`Config::wf`]), though the engine simply applies them in order.
#[derive(Debug, PartialEq, Eq)]
pub struct Config {
    /// Each entry is a program name followed by its arguments; an entry
    /// with no tokens at all is a configuration error surfaced at apply
    /// time.
    pub commands: Vec<Vec<String>>,
    pub directories: Vec<String>,
    pub empty_files: Vec<String>,
    /// Source path to destination path.
    pub links: Vec<(String, String)>,
    /// Source path to destination path.
    pub copies: Vec<(String, String)>,
}

/// The mathematical content of a [`Config`] (and of a `Manager`).
pub struct ConfigV {
    pub commands: Seq<Seq<Seq<char>>>,
    pub directories: Seq<Seq<char>>,
    pub empty_files: Seq<Seq<char>>,
    pub links: Seq<(Seq<char>, Seq<char>)>,
    pub copies: Seq<(Seq<char>, Seq<char>)>,
}

/// The views of a sequence of path pairs.
pub open spec fn pairs_view(v: Seq<(String, String)>) -> Seq<(Seq<char>, Seq<char>)> {
    Seq::new(v.len(), |i: int| (v[i].0@, v[i].1@))
}

impl View for Config {
    type V = ConfigV;

    open spec fn view(&self) -> ConfigV {
        ConfigV {
            commands: self.commands.deep_view(),
            directories: self.directories.deep_view(),
            empty_files: self.empty_files.deep_view(),
            links: pairs_view(self.links@),
            copies: pairs_view(self.copies@),
        }
    }
}

impl Config {
    /// The link and copy lists carry no repeated source.
    pub open spec fn wf(&self) -> bool {
        &&& forall|i: int, j: int|
            0 <= i < j < self@.links.len() ==> self@.links[i].0 != self@.links[j].0
        &&& forall|i: int, j: int|
            0 <= i < j < self@.copies.len() ==> self@.copies[i].0 != self@.copies[j].0
    }
}

impl Default for Config {
    /// A configuration that declares nothing.
    fn default() -> (r: Config)
        ensures
            r@.commands == Seq::<Seq<Seq<char>>>::empty(),
            r@.directories == Seq::<Seq<char>>::empty(),
            r@.empty_files == Seq::<Seq<char>>::empty(),
            r@.links == Seq::<(Seq<char>, Seq<char>)>::empty(),
            r@.copies == Seq::<(Seq<char>, Seq<char>)>::empty(),
    {
        let r = Config {
            commands: Vec::new(),
            directories: Vec::new(),
            empty_files: Vec::new(),
            links: Vec::new(),
            copies: Vec::new(),
        };
        proof {
            assert(r@.commands =~= Seq::<Seq<Seq<char>>>::empty());
            assert(r@.directories =~= Seq::<Seq<char>>::empty());
            assert(r@.empty_files =~= Seq::<Seq<char>>::empty());
            assert(r@.links =~= Seq::<(Seq<char>, Seq<char>)>::empty());
            assert(r@.copies =~= Seq::<(Seq<char>, Seq<char>)>::empty());
        }
        r
    }
}

} // verus!
