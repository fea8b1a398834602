//! The errors the library reports: a kind to tell them apart and the text
//! that the command prints for them.
use vstd::prelude::*;

verus! {

/// What went wrong.
#[derive(Clone, Copy, Debug, PartialEq, Eq, Structural)]
pub enum ErrorKind {
    /// A Rust template name given on the command line is not valid UTF-8.
    TemplateNameNotUtf8,
    /// Python projects cannot be generated yet.
    PythonUnsupported,
    /// A language or template name is not a single plain path component.
    InvalidSelector,
    /// The template's `schema_version` is not 1.
    UnsupportedSchemaVersion,
    /// The template names a language other than `rust` or `python`.
    UnsupportedLanguage,
    /// The template's language differs from the one asked for.
    LanguageMismatch,
    /// The template's name is empty or blank.
    EmptyTemplateName,
    /// The template declares another name than the one it was loaded by.
    TemplateNameMismatch,
    /// The template asks for a manifest mode other than `managed`.
    CustomManifestMode,
    /// A license file is asked for but no license is configured.
    MissingLicense,
    /// The configured license is not one the library knows.
    UnknownLicense,
    /// A dependency has an empty or blank name.
    EmptyDependencyName,
    /// A file template's target path is not relative with plain components only.
    InvalidFilePath,
    /// Two file templates have the same target path.
    DuplicateFilePath,
    /// The Rust project type is not `binary`.
    UnsupportedProjectType,
    /// The Rust edition is not one of 2015, 2018, 2021, 2024.
    UnsupportedEdition,
    /// The target path is empty.
    EmptyTarget,
    /// A component of the target path is a symbolic link.
    SymlinkInTarget,
    /// The target is a file.
    TargetIsFile,
    /// The target is a directory that is not empty.
    TargetNotEmpty,
    /// The target path has no final name to call the project by.
    NoProjectName,
    /// A `}}` stands where no placeholder is open.
    UnexpectedClosingDelimiter,
    /// A `{{` is never closed.
    UnterminatedPlaceholder,
    /// A placeholder names no known value.
    UnknownPlaceholder,
    /// A default file could not be rendered.
    RenderDefaultFile,
    /// A custom file could not be rendered.
    RenderCustomFile,
}

/// An error as contracts speak of it: its kind, the text of its message, and
/// the text of what caused it, if anything did.
pub type Fault = (ErrorKind, Seq<char>, Option<Seq<char>>);

/// A fault with no cause.
pub open spec fn plain(kind: ErrorKind, message: Seq<char>) -> Fault {
    (kind, message, None)
}

/// The full text of a fault: its message, then `: ` and its cause where it has one.
pub open spec fn chained(fault: Fault) -> Seq<char> {
    match fault.2 {
        Some(cause) => fault.1 + ": "@ + cause,
        None => fault.1,
    }
}

/// An error: its kind, the message that describes it, and the full text of
/// the error that caused it.
#[derive(Debug)]
pub struct Error {
    pub kind: ErrorKind,
    pub message: String,
    pub cause: Option<String>,
}

impl Error {
    /// The kind, the message and the cause, as text.
    pub open spec fn fault(self) -> Fault {
        (
            self.kind,
            self.message@,
            match self.cause {
                Some(c) => Some(c@),
                None => None,
            },
        )
    }

    /// An error of `kind` with `message` and no cause.
    pub fn new(kind: ErrorKind, message: String) -> (e: Error)
        ensures
            e.fault() == plain(kind, message@),
    {
        Error { kind, message, cause: None }
    }

    /// An error of `kind` with `message`, caused by `cause`.
    pub fn caused_by(kind: ErrorKind, message: String, cause: &Error) -> (e: Error)
        ensures
            e.fault() == (kind, message@, Some(chained(cause.fault()))),
    {
        Error { kind, message, cause: Some(cause.chain()) }
    }

    /// The message alone, without its cause.
    pub fn to_string(&self) -> (s: String)
        ensures
            s@ == self.message@,
    {
        self.message.clone()
    }

    /// The message followed by its cause, as the command prints an error.
    pub fn chain(&self) -> (s: String)
        ensures
            s@ == chained(self.fault()),
    {
        match &self.cause {
            Some(c) => {
                let mut s = self.message.clone();
                s.append(": ");
                s.append(c.as_str());
                s
            },
            None => self.message.clone(),
        }
    }
}

} // verus!
