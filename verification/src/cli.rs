//! What the command line asks for, once its arguments are parsed.
use vstd::prelude::*;

use crate::error::{plain, Error, ErrorKind, Fault};
use crate::langs::python;
use crate::langs::python::python_unsupported_message;
use crate::path::PathText;

verus! {

/// The template a Rust project is created from when none is named.
pub const DEFAULT_RUST_TEMPLATE: &'static str = "default";

/// A parsed command line.
#[derive(Debug)]
#[allow(inconsistent_fields)]
pub enum Command {
    /// `entre rust TEMPLATE_OR_TARGET [TARGET_PATH]`.
    Rust { template_or_target: PathText, target_path: Option<PathText> },
    /// `entre python TEMPLATE TARGET_PATH`.
    Python { template: String, target_path: PathText },
}

/// What is left to do after the command line is read.
#[derive(Debug)]
pub enum Request {
    /// Create a Rust project at `target` from the template `template`.
    CreateRust { template: String, target: PathText },
    /// Nothing: the command is complete.
    Done,
}

/// The message for a Rust template name that is not valid UTF-8.
pub open spec fn template_not_utf8_message() -> Seq<char> {
    "Rust template name must be valid UTF-8"@
}

/// The template and target that the arguments of `entre rust` name: with one
/// path, that path is the target and the template is `default`; with two,
/// the first names the template and must be valid UTF-8.
pub open spec fn rust_request(template_or_target: PathText, target_path: Option<PathText>) -> Result<
    (Seq<char>, PathText),
    Fault,
> {
    match target_path {
        Some(target) => match template_or_target {
            PathText::Utf8(name) => Ok((name@, target)),
            PathText::NotUtf8 { .. } => Err(plain(ErrorKind::TemplateNameNotUtf8, template_not_utf8_message())),
        },
        None => Ok((DEFAULT_RUST_TEMPLATE@, template_or_target)),
    }
}

/// The template and target that the arguments of `entre rust` name.
pub fn rust_arguments(template_or_target: PathText, target_path: Option<PathText>) -> (r: Result<
    (String, PathText),
    Error,
>)
    ensures
        match r {
            Ok((template, target)) => rust_request(template_or_target, target_path) == Ok::<_, Fault>(
                (template@, target),
            ),
            Err(e) => rust_request(template_or_target, target_path) == Err::<
                (Seq<char>, PathText),
                Fault,
            >(e.fault()),
        },
{
    match target_path {
        Some(target) => match template_or_target {
            PathText::Utf8(name) => Ok((name, target)),
            PathText::NotUtf8 { .. } => Err(
                Error::new(
                    ErrorKind::TemplateNameNotUtf8,
                    "Rust template name must be valid UTF-8".to_owned(),
                ),
            ),
        },
        None => Ok((DEFAULT_RUST_TEMPLATE.to_owned(), template_or_target)),
    }
}

/// Decides what a parsed command line asks for: a Rust project from the
/// template and at the target its arguments name, or, for Python, the error
/// that Python projects are not supported yet.
pub fn run(command: Command) -> (r: Result<Request, Error>)
    ensures
        match command {
            Command::Rust { template_or_target, target_path } => match r {
                Ok(Request::CreateRust { template, target }) => rust_request(
                    template_or_target,
                    target_path,
                ) == Ok::<_, Fault>((template@, target)),
                Ok(Request::Done) => false,
                Err(e) => rust_request(template_or_target, target_path) == Err::<
                    (Seq<char>, PathText),
                    Fault,
                >(e.fault()),
            },
            Command::Python { .. } => r matches Err(e) && e.fault() == plain(
                ErrorKind::PythonUnsupported,
                python_unsupported_message(),
            ),
        },
{
    match command {
        Command::Rust { template_or_target, target_path } => {
            let (template, target) = rust_arguments(template_or_target, target_path)?;
            Ok(Request::CreateRust { template, target })
        },
        Command::Python { template, target_path } => {
            python::create_project(&target_path, template.as_str())?;
            Ok(Request::Done)
        },
    }
}

} // verus!
