//! Paths as text: their components as `std::path` splits them, and the checks
//! that keep template selectors and target files inside their directories.
use vstd::prelude::*;
use std::path::Component;
use std::path::Path;

use crate::error::{plain, Error, ErrorKind};
use crate::text::concat5;

verus! {

/// A path as it was given: its text when it is valid UTF-8. Otherwise the text
/// it is displayed as, its bytes as the operating system has them, which the
/// library only carries along, and its final component as `Path::file_name`
/// gives it, when that component is valid UTF-8.
#[derive(Debug, PartialEq, Eq)]
pub enum PathText {
    Utf8(String),
    NotUtf8 { display: String, raw: Vec<u8>, file_name: Option<String> },
}

impl PathText {
    /// The text that the path is displayed as.
    pub open spec fn display_text(self) -> Seq<char> {
        match self {
            PathText::Utf8(t) => t@,
            PathText::NotUtf8 { display, .. } => display@,
        }
    }

    /// The text that the path is displayed as.
    pub fn display(&self) -> (r: String)
        ensures
            r@ == self.display_text(),
    {
        match self {
            PathText::Utf8(t) => t.clone(),
            PathText::NotUtf8 { display, .. } => display.clone(),
        }
    }
}

/// One component of a path, as `std::path::Component` has it, with its text.
#[derive(Debug)]
pub enum PathPart {
    Prefix(String),
    RootDir,
    CurDir,
    ParentDir,
    Normal(String),
}

/// A path component with its text as a sequence of characters.
pub enum PartView {
    Prefix(Seq<char>),
    RootDir,
    CurDir,
    ParentDir,
    Normal(Seq<char>),
}

impl View for PathPart {
    type V = PartView;

    open spec fn view(&self) -> PartView {
        match self {
            PathPart::Prefix(p) => PartView::Prefix(p@),
            PathPart::RootDir => PartView::RootDir,
            PathPart::CurDir => PartView::CurDir,
            PathPart::ParentDir => PartView::ParentDir,
            PathPart::Normal(n) => PartView::Normal(n@),
        }
    }
}

/// The component that one `/`-separated segment gives: none for an empty
/// segment or `.`, `ParentDir` for `..`, and otherwise a plain name.
pub open spec fn segment_part(segment: Seq<char>) -> Seq<PartView> {
    if segment.len() == 0 || segment == seq!['.'] {
        Seq::empty()
    } else if segment == seq!['.', '.'] {
        seq![PartView::ParentDir]
    } else {
        seq![PartView::Normal(segment)]
    }
}

/// The components of `s[start..]`, where the segment being read began at
/// `start` and `i` is the next character to read.
pub open spec fn parts_from(s: Seq<char>, start: int, i: int) -> Seq<PartView>
    decreases s.len() - i,
{
    if i >= s.len() {
        segment_part(s.subrange(start, s.len() as int))
    } else if s[i] == '/' {
        segment_part(s.subrange(start, i)) + parts_from(s, i + 1, i + 1)
    } else {
        parts_from(s, start, i + 1)
    }
}

/// The components of a Unix path, as `std::path::Path::components` documents
/// them: a leading `/` gives `RootDir`; a leading `.` followed by `/` or the end
/// gives `CurDir`; then each `/`-separated segment gives its component, where
/// repeated separators and `.` give none and `..` gives `ParentDir`.
pub open spec fn path_components(path: Seq<char>) -> Seq<PartView> {
    if path.len() > 0 && path[0] == '/' {
        seq![PartView::RootDir] + parts_from(path.skip(1), 0, 0)
    } else if path.len() > 0 && path[0] == '.' && (path.len() == 1 || path[1] == '/') {
        seq![PartView::CurDir] + parts_from(path.skip(1), 0, 0)
    } else {
        parts_from(path, 0, 0)
    }
}

/// The views of a sequence of components.
pub open spec fn parts_view(parts: Seq<PathPart>) -> Seq<PartView> {
    parts.map_values(|p: PathPart| p@)
}

/// Calls `std::path::Path::components` on `path` and keeps each component
/// with its text; claims that the components are those that `path_components`
/// states, the Unix behaviour that std documents. A normal component of a
/// UTF-8 path is a part of it, so its text is carried over unchanged.
#[verifier::external_body]
fn components(path: &str) -> (parts: Vec<PathPart>)
    ensures
        parts_view(parts@) == path_components(path@),
{
    let mut parts = Vec::new();
    for component in Path::new(path).components() {
        parts.push(match component {
            Component::Prefix(p) => PathPart::Prefix(p.as_os_str().to_string_lossy().into_owned()),
            Component::RootDir => PathPart::RootDir,
            Component::CurDir => PathPart::CurDir,
            Component::ParentDir => PathPart::ParentDir,
            Component::Normal(n) => PathPart::Normal(n.to_string_lossy().into_owned()),
        });
    }
    parts
}

/// A path is absolute when it starts at the root, `/` (`Path::is_absolute` on Unix).
pub open spec fn is_absolute_path(path: Seq<char>) -> bool {
    path.len() > 0 && path[0] == '/'
}

/// `value` names exactly one plain entry of a directory: a language or template selector.
pub open spec fn valid_selector(value: Seq<char>) -> bool {
    &&& value.len() > 0
    &&& !is_absolute_path(value)
    &&& path_components(value).len() == 1
    &&& path_components(value)[0] is Normal
}

/// `path` is relative and made of plain names only: no root, `.` or `..`.
pub open spec fn valid_file_path(path: Seq<char>) -> bool {
    &&& path.len() > 0
    &&& !is_absolute_path(path)
    &&& forall|i: int| 0 <= i < path_components(path).len() ==> #[trigger] path_components(path)[i] is Normal
}

/// Two paths are equal as `std::path::Path` compares them: component by component.
pub open spec fn same_path(a: Seq<char>, b: Seq<char>) -> bool {
    path_components(a) == path_components(b)
}

/// The final component of `path` when it is a plain name (`Path::file_name`).
pub open spec fn file_name(path: Seq<char>) -> Option<Seq<char>> {
    let parts = path_components(path);
    if parts.len() > 0 && parts.last() is Normal {
        Some(parts.last()->Normal_0)
    } else {
        None
    }
}

/// The message for a selector that is not a single plain name.
pub open spec fn invalid_selector_message(kind: Seq<char>, value: Seq<char>) -> Seq<char> {
    "invalid "@ + kind + " name '"@ + value + "'"@
}

/// The message for a target path that is not relative with plain names only.
pub open spec fn invalid_file_path_message() -> Seq<char> {
    "path must be relative and contain only normal components"@
}

fn starts_at_root(path: &str) -> (r: bool)
    ensures
        r == is_absolute_path(path@),
{
    path.unicode_len() > 0 && path.get_char(0) == '/'
}

fn same_part(a: &PathPart, b: &PathPart) -> (r: bool)
    ensures
        r == (a@ == b@),
{
    match (a, b) {
        (PathPart::Prefix(x), PathPart::Prefix(y)) => *x == *y,
        (PathPart::RootDir, PathPart::RootDir) => true,
        (PathPart::CurDir, PathPart::CurDir) => true,
        (PathPart::ParentDir, PathPart::ParentDir) => true,
        (PathPart::Normal(x), PathPart::Normal(y)) => *x == *y,
        _ => false,
    }
}

/// Whether `a` and `b` are the same path, component by component.
pub fn same_path_text(a: &str, b: &str) -> (r: bool)
    ensures
        r == same_path(a@, b@),
        r == (path_components(a@) == path_components(b@)),
{
    let x = components(a);
    let y = components(b);
    if x.len() != y.len() {
        assert(parts_view(x@).len() != parts_view(y@).len());
        return false;
    }
    let mut i: usize = 0;
    while i < x.len()
        invariant
            x.len() == y.len(),
            i <= x.len(),
            parts_view(x@) == path_components(a@),
            parts_view(y@) == path_components(b@),
            forall|j: int| 0 <= j < i ==> x@[j]@ == y@[j]@,
        decreases x.len() - i,
    {
        if !same_part(&x[i], &y[i]) {
            assert(parts_view(x@)[i as int] != parts_view(y@)[i as int]);
            return false;
        }
        i = i + 1;
    }
    assert(parts_view(x@) =~= parts_view(y@));
    true
}

/// The final component of `path` when it is a plain name.
pub fn file_name_text(path: &str) -> (r: Option<String>)
    ensures
        match r {
            Some(n) => file_name(path@) == Some(n@),
            None => file_name(path@) is None,
        },
{
    let parts = components(path);
    let n: usize = parts.len();
    if n == 0 {
        return None;
    }
    assert(parts_view(parts@).last() == parts@[n - 1]@);
    match &parts[n - 1] {
        PathPart::Normal(name) => Some(name.clone()),
        _ => None,
    }
}

/// Checks that `value` is a single plain name, as a language or template
/// selector must be; `kind` says which of the two it is.
pub fn validate_selector(kind: &str, value: &str) -> (r: Result<(), Error>)
    ensures
        match r {
            Ok(()) => valid_selector(value@),
            Err(e) => !valid_selector(value@) && e.fault() == plain(
                ErrorKind::InvalidSelector,
                invalid_selector_message(kind@, value@),
            ),
        },
{
    let parts = components(value);
    let ok = value.unicode_len() > 0 && !starts_at_root(value) && parts.len() == 1 && match &parts[0] {
        PathPart::Normal(_) => true,
        _ => false,
    };
    proof {
        if parts.len() == 1 {
            assert(parts_view(parts@)[0] == parts@[0]@);
        }
    }
    if ok {
        Ok(())
    } else {
        Err(Error::new(ErrorKind::InvalidSelector, concat5("invalid ", kind, " name '", value, "'")))
    }
}

/// Checks that `path` is relative and made of plain names only, so that a
/// file written there stays inside the project directory.
pub fn validate_file_path(path: &str) -> (r: Result<(), Error>)
    ensures
        match r {
            Ok(()) => valid_file_path(path@),
            Err(e) => !valid_file_path(path@) && e.fault() == plain(
                ErrorKind::InvalidFilePath,
                invalid_file_path_message(),
            ),
        },
{
    let parts = components(path);
    let mut all_normal = true;
    let mut i: usize = 0;
    while i < parts.len()
        invariant
            i <= parts.len(),
            parts_view(parts@) == path_components(path@),
            all_normal == (forall|j: int| 0 <= j < i ==> #[trigger] parts_view(parts@)[j] is Normal),
        decreases parts.len() - i,
    {
        let normal = match &parts[i] {
            PathPart::Normal(_) => true,
            _ => false,
        };
        assert(parts_view(parts@)[i as int] == parts@[i as int]@);
        all_normal = all_normal && normal;
        i = i + 1;
    }
    if path.unicode_len() > 0 && !starts_at_root(path) && all_normal {
        Ok(())
    } else {
        Err(Error::new(ErrorKind::InvalidFilePath, "path must be relative and contain only normal components".to_owned()))
    }
}

/// A valid file path stays below the directory it is written in: it is not
/// empty, does not start at the root, and none of its components is the root,
/// `.` or `..`.
pub proof fn law_valid_file_paths_stay_inside(path: Seq<char>)
    ensures
        valid_file_path(path) ==> {
            &&& path.len() > 0
            &&& path[0] != '/'
            &&& forall|i: int|
                0 <= i < path_components(path).len() ==> {
                    &&& #[trigger] path_components(path)[i] != PartView::RootDir
                    &&& path_components(path)[i] != PartView::CurDir
                    &&& path_components(path)[i] != PartView::ParentDir
                }
        },
        (exists|i: int|
            0 <= i < path_components(path).len() && #[trigger] path_components(path)[i]
                == PartView::ParentDir) ==> !valid_file_path(path),
{
}

/// A valid selector is one plain name: exactly one component, a plain name,
/// and not starting at the root.
pub proof fn law_selector_is_one_name(value: Seq<char>)
    ensures
        valid_selector(value) ==> path_components(value).len() == 1 && path_components(value)[0] is Normal
            && value.len() > 0 && value[0] != '/',
        path_components(value).len() != 1 ==> !valid_selector(value),
{
}

/// The file name of a path is its last component, when that is a plain name.
pub proof fn law_file_name_is_last_component(path: Seq<char>)
    ensures
        file_name(path) matches Some(n) ==> path_components(path).len() > 0 && path_components(
            path,
        ).last() == PartView::Normal(n),
        (path_components(path).len() > 0 && path_components(path).last() is Normal) ==> file_name(
            path,
        ) is Some,
        path_components(path).len() == 0 ==> file_name(path) is None,
{
}

} // verus!
