use vstd::prelude::*;

verus! {

/// Every way an export run can fail inside the library.
///
/// A missing project file, a malformed configuration value and an
/// unusable platform version are validation failures; an archive
/// failure is the library-visible face of an I/O error raised by the
/// archive writer.
#[derive(Clone, Copy, Debug, PartialEq, Eq, Structural)]
pub enum PackError {
    /// The declared platform version fails the version grammar or is
    /// covered by no range of the format table.
    InvalidVersion,
    /// The project configuration file is absent from the project root.
    MissingConfigFile,
    /// The project ignore file is absent from the project root.
    MissingIgnoreFile,
    /// A line of the ignore file is not a usable ignore pattern.
    InvalidIgnorePattern,
    /// The archive writer refused a record or failed to finish.
    ArchiveError,
}

} // verus!
