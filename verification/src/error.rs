//! The errors the reconciliation engine can surface; each carries the
//! offending path or paths.

use vstd::prelude::*;

verus! {

/// What went wrong, and where. Every variant aborts the whole apply at
/// the point it occurs.
#[derive(Debug, PartialEq, Eq)]
pub enum Error {
    /// A declared command had no tokens at all.
    NoCommandProvided,
    /// A symlink or copy source does not exist, so it has no canonical
    /// form; carries the source path as declared.
    CanonicalizePath { path: String },
    /// A directory could not be created because something on the way to
    /// it exists and is not a directory.
    CreateDirectory { dir_path: String },
    /// An empty file could not be created: the path is a directory, or
    /// its parent is missing or not a directory.
    CreateEmptyFile { file_path: String },
    /// A symbolic link could not be created: the destination is still
    /// occupied, or its parent directory is missing.
    CreateSymbolLink { link_source: String, link_destination: String },
    /// A file could not be copied: the destination's parent directory
    /// is missing, or the destination is a directory.
    CopyFile { copy_source: String, copy_destination: String },
    /// A directory tree could not be copied: the source is not a
    /// directory.
    CopyDirectory { copy_source: String, copy_destination: String },
    /// A directory tree could not be removed because there is nothing
    /// at the path.
    RemoveDirectory { dir_path: String },
}

/// The mathematical content of an [`Error`].
pub enum ErrorV {
    NoCommandProvided,
    CanonicalizePath { path: Seq<char> },
    CreateDirectory { dir_path: Seq<char> },
    CreateEmptyFile { file_path: Seq<char> },
    CreateSymbolLink { link_source: Seq<char>, link_destination: Seq<char> },
    CopyFile { copy_source: Seq<char>, copy_destination: Seq<char> },
    CopyDirectory { copy_source: Seq<char>, copy_destination: Seq<char> },
    RemoveDirectory { dir_path: Seq<char> },
}

impl View for Error {
    type V = ErrorV;

    open spec fn view(&self) -> ErrorV {
        match self {
            Error::NoCommandProvided => ErrorV::NoCommandProvided,
            Error::CanonicalizePath { path } => ErrorV::CanonicalizePath { path: path@ },
            Error::CreateDirectory { dir_path } => ErrorV::CreateDirectory { dir_path: dir_path@ },
            Error::CreateEmptyFile { file_path } => ErrorV::CreateEmptyFile {
                file_path: file_path@,
            },
            Error::CreateSymbolLink { link_source, link_destination } => ErrorV::CreateSymbolLink {
                link_source: link_source@,
                link_destination: link_destination@,
            },
            Error::CopyFile { copy_source, copy_destination } => ErrorV::CopyFile {
                copy_source: copy_source@,
                copy_destination: copy_destination@,
            },
            Error::CopyDirectory { copy_source, copy_destination } => ErrorV::CopyDirectory {
                copy_source: copy_source@,
                copy_destination: copy_destination@,
            },
            Error::RemoveDirectory { dir_path } => ErrorV::RemoveDirectory { dir_path: dir_path@ },
        }
    }
}

/// Does the executable result `r` denote the model outcome `e`?
pub open spec fn res_matches(r: Result<(), Error>, e: Option<ErrorV>) -> bool {
    match r {
        Result::Ok(u) => e is None,
        Result::Err(err) => e == Option::Some(err@),
    }
}

} // verus!
