//! The ways in which a run fails. Each names the directory or the wallpaper
//! that is responsible.

use vstd::prelude::*;

verus! {

/// Why a wallpaper entry could not be resolved.
#[derive(Clone, Debug, PartialEq, Eq)]
pub enum ResolutionFailure {
    /// The entry lists no file at all.
    NoFilesSpecified,
    /// A listed file does not exist or cannot be opened.
    FileNotFound {
        /// The path as the entry lists it.
        path: String,
    },
    /// A listed file is no image that can be decoded, or its format is unknown.
    UnsupportedOrCorruptImage {
        /// The path as the entry lists it.
        path: String,
    },
    /// A directory could not be made or a file not copied while staging.
    StagingIoFailure {
        /// The staged path that could not be written.
        path: String,
    },
}

/// A fatal error of the pipeline.
#[derive(Clone, Debug, PartialEq, Eq)]
pub enum Error {
    /// The starting path is missing or no directory.
    StructuralError {
        /// The offending path.
        path: String,
    },
    /// A manifest declares a wallpaper while no author is in scope.
    InheritanceViolation {
        /// The directory of the offending manifest.
        path: String,
    },
    /// A path has no parent directory to write into.
    InvalidPath {
        /// The offending path.
        path: String,
    },
    /// A wallpaper entry could not be resolved.
    WallpaperResolution {
        /// The id of the offending wallpaper.
        id: String,
        /// What went wrong.
        failure: ResolutionFailure,
    },
}

/// The text of an error message: `subject`, a colon, a blank and `rest`.
pub open spec fn labelled(subject: Seq<char>, rest: Seq<char>) -> Seq<char> {
    subject + ": "@ + rest
}

/// What [`ResolutionFailure::message`] returns.
pub open spec fn failure_message(failure: ResolutionFailure) -> Seq<char> {
    match failure {
        ResolutionFailure::NoFilesSpecified => "Wallpaper defined but no files given"@,
        ResolutionFailure::FileNotFound { path } => "cannot open "@ + path@,
        ResolutionFailure::UnsupportedOrCorruptImage { path } => "cannot decode "@ + path@,
        ResolutionFailure::StagingIoFailure { path } => "cannot stage "@ + path@,
    }
}

/// What [`Error::message`] returns.
pub open spec fn error_message(error: Error) -> Seq<char> {
    match error {
        Error::StructuralError { path } => "Starting path "@ + path@ + " is not a directory"@,
        Error::InheritanceViolation { path } => labelled(
            path@,
            "wallpaper defined, but no author definition found"@,
        ),
        Error::InvalidPath { path } => "invalid path"@,
        Error::WallpaperResolution { id, failure } => labelled(id@, failure_message(failure)),
    }
}

impl ResolutionFailure {
    /// A sentence that describes the failure.
    pub fn message(&self) -> (m: String)
        ensures
            m@ == failure_message(*self),
    {
        match self {
            ResolutionFailure::NoFilesSpecified => "Wallpaper defined but no files given".to_owned(),
            ResolutionFailure::FileNotFound { path } => {
                let mut m = "cannot open ".to_owned();
                m.append(path.as_str());
                m
            },
            ResolutionFailure::UnsupportedOrCorruptImage { path } => {
                let mut m = "cannot decode ".to_owned();
                m.append(path.as_str());
                m
            },
            ResolutionFailure::StagingIoFailure { path } => {
                let mut m = "cannot stage ".to_owned();
                m.append(path.as_str());
                m
            },
        }
    }
}

impl Error {
    /// The message to report: it names the directory or wallpaper at fault.
    pub fn message(&self) -> (m: String)
        ensures
            m@ == error_message(*self),
    {
        match self {
            Error::StructuralError { path } => {
                let mut m = "Starting path ".to_owned();
                m.append(path.as_str());
                m.append(" is not a directory");
                m
            },
            Error::InheritanceViolation { path } => {
                let mut m = path.clone();
                m.append(": ");
                m.append("wallpaper defined, but no author definition found");
                assert(m@ =~= error_message(*self));
                m
            },
            Error::InvalidPath { path: _ } => "invalid path".to_owned(),
            Error::WallpaperResolution { id, failure } => {
                let mut m = id.clone();
                m.append(": ");
                let rest = failure.message();
                m.append(rest.as_str());
                assert(m@ =~= error_message(*self));
                m
            },
        }
    }
}

} // verus!
