//! Locate Python interpreters named `pythonX.Y` and pick the one that best
//! satisfies a requested version.
//!
//! [`RequestedVersion`] is the constraint a user places on the interpreter
//! (any, a major version, or an exact `major.minor`). [`ExactVersion`] is the
//! concrete version of an executable that was found. An [`ExecutableIndex`]
//! maps each concrete version to one executable path, and
//! [`find_executable_in_index`] chooses from it.
pub mod error;
pub mod executables;
pub mod version;

pub use error::{Error, Result};
pub use executables::{
    all_executables_in_paths, find_executable_in_index, index_file_names, ExecutableIndex, FileName,
};
pub use version::{parse_version_from_flag, ComponentSize, ExactVersion, RequestedVersion};
