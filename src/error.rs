//! The crate's error type and the exit status each error maps to.
use vstd::prelude::*;

use crate::version::{requested_text, RequestedVersion};
use vstd::string::StringExecFns;

verus! {

#[verifier::external_type_specification]
#[verifier::external_body]
pub struct ExParseIntError(std::num::ParseIntError);

#[verifier::external_type_specification]
#[verifier::external_body]
pub struct ExPathBuf(std::path::PathBuf);

#[verifier::external_type_specification]
#[verifier::external_body]
pub struct ExPath(std::path::Path);

/// Relies on `ParseIntError`'s derived `Clone`: the copy has the same kind.
pub assume_specification[ <std::num::ParseIntError as Clone>::clone ](
    e: &std::num::ParseIntError,
) -> (r: std::num::ParseIntError)
    ensures
        r == *e,
;

/// Relies on `PathBuf::clone`: the copy holds the same path.
pub assume_specification[ <std::path::PathBuf as Clone>::clone ](
    p: &std::path::PathBuf,
) -> (r: std::path::PathBuf)
    ensures
        r == *p,
;

/// Error enum for the entire crate.
#[derive(Clone, Debug, PartialEq, Eq)]
pub enum Error {
    /// Parsing a digit component from a string fails.
    ParseVersionComponentError(std::num::ParseIntError, String),
    /// String parsing fails due to `.` missing.
    DotMissing,
    /// A path lacks a file name when it is required.
    FileNameMissing,
    /// A file name cannot be converted to a string.
    FileNameToStrError,
    /// A file name is not structured appropriately.
    PathFileNameError,
    /// No Python executable could be found based on the constraints provided.
    NoExecutableFound(RequestedVersion),
    /// An illegal combination of CLI flags are provided.
    IllegalArgument(std::path::PathBuf, String),
}

/// `std::result::Result` with [`Error`] as the error type.
pub type Result<T> = std::result::Result<T, Error>;

/// Relies on `exitcode::USAGE`, the status for a command used incorrectly.
#[verifier::external_body]
fn usage_status() -> (r: exitcode::ExitCode)
    ensures
        r == 64,
{
    exitcode::USAGE
}

/// Relies on `exitcode::SOFTWARE`, the status for an internal software error.
#[verifier::external_body]
fn software_status() -> (r: exitcode::ExitCode)
    ensures
        r == 70,
{
    exitcode::SOFTWARE
}

/// The text that `ParseIntError`'s `Display` gives for `e`.
pub uninterp spec fn parse_int_error_text(e: std::num::ParseIntError) -> Seq<char>;

/// The text that `Path::to_string_lossy` gives for `p`.
pub uninterp spec fn lossy_path_text(p: std::path::PathBuf) -> Seq<char>;

/// Relies on the `Display` of `ParseIntError` (through `ToString`): a
/// description of the failure that depends on the error alone.
#[verifier::external_body]
fn int_error_text(e: &std::num::ParseIntError) -> (r: String)
    ensures
        r@ == parse_int_error_text(*e),
{
    e.to_string()
}

/// Relies on `Path::to_string_lossy`, reached through `PathBuf`'s `Deref`:
/// the path as text, with undecodable parts replaced.
#[verifier::external_body]
fn path_text(p: &std::path::PathBuf) -> (r: String)
    ensures
        r@ == lossy_path_text(*p),
{
    p.to_string_lossy().into_owned()
}

/// The message that describes an error.
pub open spec fn error_text(e: Error) -> Seq<char> {
    match e {
        Error::ParseVersionComponentError(int_error, bad_value) => "Error parsing '"@ + bad_value@
            + "' as an integer: "@ + parse_int_error_text(int_error),
        Error::DotMissing => "'.' missing from the version"@,
        Error::FileNameMissing => "Path object lacks a file name"@,
        Error::FileNameToStrError => "Failed to convert file name to `str`"@,
        Error::PathFileNameError => "File name not of the format `pythonX.Y`"@,
        Error::NoExecutableFound(requested) => "No executable found for "@ + requested_text(
            requested,
        ),
        Error::IllegalArgument(launcher_path, flag) => "The `"@ + flag@
            + "` flag must be specified on its own; see `"@ + lossy_path_text(launcher_path)
            + " --help` for details"@,
    }
}

impl Error {
    /// A readable message describing the error.
    pub fn to_string(&self) -> (r: String)
        ensures
            r@ == error_text(*self),
    {
        match self {
            Error::ParseVersionComponentError(int_error, bad_value) => {
                let mut text = "Error parsing '".to_string();
                text.append(bad_value.as_str());
                text.append("' as an integer: ");
                let detail = int_error_text(int_error);
                text.append(detail.as_str());
                text
            },
            Error::DotMissing => "'.' missing from the version".to_string(),
            Error::FileNameMissing => "Path object lacks a file name".to_string(),
            Error::FileNameToStrError => "Failed to convert file name to `str`".to_string(),
            Error::PathFileNameError => "File name not of the format `pythonX.Y`".to_string(),
            Error::NoExecutableFound(requested) => {
                let mut text = "No executable found for ".to_string();
                let name = requested.to_string();
                text.append(name.as_str());
                text
            },
            Error::IllegalArgument(launcher_path, flag) => {
                let mut text = "The `".to_string();
                text.append(flag.as_str());
                text.append("` flag must be specified on its own; see `");
                let printable_path = path_text(launcher_path);
                text.append(printable_path.as_str());
                text.append(" --help` for details");
                text
            },
        }
    }

    /// The error stems from an inconsistency inside the program rather than
    /// from how it was invoked: an undecodable file name, or a name that has
    /// the expected shape only in part.
    pub open spec fn is_internal(&self) -> bool {
        self is FileNameToStrError || self is PathFileNameError
    }

    /// Returns the exit status for the error: `exitcode::SOFTWARE` (70) for
    /// internal errors, `exitcode::USAGE` (64) for the others.
    pub fn exit_code(&self) -> (r: exitcode::ExitCode)
        ensures
            self.is_internal() ==> r == 70,
            !self.is_internal() ==> r == 64,
    {
        match self {
            Error::ParseVersionComponentError(_, _) => usage_status(),
            Error::DotMissing => usage_status(),
            Error::FileNameMissing => usage_status(),
            Error::FileNameToStrError => software_status(),
            Error::PathFileNameError => software_status(),
            Error::NoExecutableFound(_) => usage_status(),
            Error::IllegalArgument(_, _) => usage_status(),
        }
    }
}

} // verus!
