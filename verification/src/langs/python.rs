//! Python projects, which cannot be created yet.
use vstd::prelude::*;

use crate::error::{plain, Error, ErrorKind};
use crate::path::PathText;

verus! {

/// The message that Python projects are not supported.
pub open spec fn python_unsupported_message() -> Seq<char> {
    "Python project generation is not supported yet; managed uv support is planned"@
}

/// Creating a Python project always fails: support for it is planned.
pub fn create_project(target: &PathText, template_name: &str) -> (r: Result<(), Error>)
    ensures
        r matches Err(e) && e.fault() == plain(ErrorKind::PythonUnsupported, python_unsupported_message()),
{
    Err(
        Error::new(
            ErrorKind::PythonUnsupported,
            "Python project generation is not supported yet; managed uv support is planned".to_owned(),
        ),
    )
}

} // verus!
