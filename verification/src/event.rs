//! The reports the engine emits while it works; the surrounding program
//! renders them, the model records them.

use vstd::prelude::*;

verus! {

/// One report line, as structured data.
#[derive(Debug, PartialEq, Eq)]
pub enum Event {
    /// A directory is about to be created.
    Creating { path: String },
    /// The directory is already there; nothing will be written.
    SkippingExisting { path: String },
    /// An empty file is about to be created.
    CreatingEmptyFile { path: String },
    /// A conflicting copy destination is about to be removed.
    Removing { path: String },
    /// A symbolic link is about to be created.
    Linking { destination: String, source: String },
    /// The link already points at the canonical source; nothing will be
    /// written.
    SkippingExistingLink { destination: String, source: String },
    /// A file or tree is about to be copied.
    Copying { source: String, destination: String },
    /// An external command is about to run.
    Executing { program: String, args: Vec<String> },
}

/// The mathematical content of an [`Event`].
pub enum EventV {
    Creating { path: Seq<char> },
    SkippingExisting { path: Seq<char> },
    CreatingEmptyFile { path: Seq<char> },
    Removing { path: Seq<char> },
    Linking { destination: Seq<char>, source: Seq<char> },
    SkippingExistingLink { destination: Seq<char>, source: Seq<char> },
    Copying { source: Seq<char>, destination: Seq<char> },
    Executing { program: Seq<char>, args: Seq<Seq<char>> },
}

impl View for Event {
    type V = EventV;

    open spec fn view(&self) -> EventV {
        match self {
            Event::Creating { path } => EventV::Creating { path: path@ },
            Event::SkippingExisting { path } => EventV::SkippingExisting { path: path@ },
            Event::CreatingEmptyFile { path } => EventV::CreatingEmptyFile { path: path@ },
            Event::Removing { path } => EventV::Removing { path: path@ },
            Event::Linking { destination, source } => EventV::Linking {
                destination: destination@,
                source: source@,
            },
            Event::SkippingExistingLink { destination, source } => EventV::SkippingExistingLink {
                destination: destination@,
                source: source@,
            },
            Event::Copying { source, destination } => EventV::Copying {
                source: source@,
                destination: destination@,
            },
            Event::Executing { program, args } => EventV::Executing {
                program: program@,
                args: args.deep_view(),
            },
        }
    }
}

impl DeepView for Event {
    type V = EventV;

    open spec fn deep_view(&self) -> EventV {
        self.view()
    }
}

/// One external command the engine has launched.
#[derive(Debug, PartialEq, Eq)]
pub struct SpawnedCommand {
    pub program: String,
    pub args: Vec<String>,
}

/// The mathematical content of a [`SpawnedCommand`].
pub struct SpawnV {
    pub program: Seq<char>,
    pub args: Seq<Seq<char>>,
}

impl View for SpawnedCommand {
    type V = SpawnV;

    open spec fn view(&self) -> SpawnV {
        SpawnV { program: self.program@, args: self.args.deep_view() }
    }
}

impl DeepView for SpawnedCommand {
    type V = SpawnV;

    open spec fn deep_view(&self) -> SpawnV {
        self.view()
    }
}

} // verus!
