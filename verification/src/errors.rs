//! The failures the launcher can report: configuration errors, template
//! I/O errors, and external-process errors. The shell around the library
//! turns each into a one-line message and a clean exit.

use vstd::prelude::*;

verus! {

/// Why an operation of the launcher failed.
#[derive(Clone, Copy, Debug, PartialEq, Eq, Structural)]
pub enum LaunchError {
    /// The config file is absent: `setup` has not been run.
    NotConfigured,
    /// The config file exists but holds no `project_dir=` line.
    Corrupt,
    /// The path offered for the projects root is not an existing directory.
    InvalidPath,
    /// The chosen template file could not be read.
    TemplateUnreadable,
    /// The chosen template file could not be written.
    TemplateUnwritable,
    /// The external environment tool could not be launched.
    SpawnFailed,
    /// The projects root is missing or not a directory.
    RootUnreadable,
}

} // verus!
