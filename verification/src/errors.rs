use vstd::prelude::*;

verus! {

/// The classified failure of a path resolution, byte read or source lookup.
///
/// Resolution failures keep their cause apart, because the compiler treats a
/// missing file differently from a directory or a permission problem.
/// `NotSource` marks an identity that no source was registered under in the
/// current run, as opposed to a missing file.  `Detached` marks a diagnostic
/// span that names no source at all.
#[derive(Clone, Copy, Debug, PartialEq, Eq, Structural)]
pub enum FileError {
    /// No file was found at the path.
    NotFound,
    /// The file could not be accessed.
    AccessDenied,
    /// A directory stood where a file was expected.
    IsDirectory,
    /// The identity names no source registered in this run.
    NotSource,
    /// A diagnostic span resolves to no source range.
    Detached,
    /// Any other failure of the underlying system.
    Other,
}

impl View for FileError {
    type V = FileError;

    open spec fn view(&self) -> FileError {
        *self
    }
}

impl DeepView for FileError {
    type V = FileError;

    open spec fn deep_view(&self) -> FileError {
        *self
    }
}

} // verus!
