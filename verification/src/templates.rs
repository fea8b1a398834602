//! Project templates: their configuration, the checks a template must pass
//! before it is used, and the context its placeholders are filled from.
use vstd::prelude::*;

use crate::assets::{APACHE_LICENSE, MIT_LICENSE};
use crate::error::{plain, Error, ErrorKind, Fault};
use crate::path::{
    file_name, file_name_text, path_components, same_path, same_path_text, valid_file_path, valid_selector,
    invalid_file_path_message, invalid_selector_message, validate_file_path, validate_selector,
    PathText,
};
use crate::text::{concat3, concat5, decimal, decimal_text, same_text, trim, trim_text};

verus! {

/// A template's `project.toml`.
#[derive(Debug)]
pub struct ProjectTemplate {
    pub schema_version: u32,
    pub language: String,
    pub template: TemplateMetadata,
    pub project: ProjectConfig,
    pub manifest: ManifestConfig,
    pub defaults: DefaultsConfig,
    pub license: Option<LicenseConfig>,
    pub dependencies: Vec<Dependency>,
    pub dev_dependencies: Vec<Dependency>,
}

/// The `[template]` table: the template's own name and description.
#[derive(Debug)]
pub struct TemplateMetadata {
    pub name: String,
    pub description: Option<String>,
}

/// The `[project]` table: the kind of project and its Rust edition.
#[derive(Debug)]
pub struct ProjectConfig {
    pub kind: String,
    pub edition: String,
}

impl Default for ProjectConfig {
    /// A binary project of the 2024 edition.
    fn default() -> (r: Self)
        ensures
            r.kind@ == "binary"@,
            r.edition@ == "2024"@,
    {
        ProjectConfig { kind: "binary".to_owned(), edition: "2024".to_owned() }
    }
}

/// Who writes the project's manifest.
#[derive(Clone, Copy, Debug, PartialEq, Eq, Structural)]
pub enum ManifestMode {
    Managed,
    Custom,
}

impl Default for ManifestMode {
    /// The manifest is managed by the generator.
    fn default() -> (r: Self)
        ensures
            r == ManifestMode::Managed,
    {
        ManifestMode::Managed
    }
}

/// The `[manifest]` table.
#[derive(Debug)]
pub struct ManifestConfig {
    pub mode: ManifestMode,
}

impl Default for ManifestConfig {
    /// A managed manifest.
    fn default() -> (r: Self)
        ensures
            r.mode == ManifestMode::Managed,
    {
        ManifestConfig { mode: ManifestMode::Managed }
    }
}

/// The `[defaults]` table: which default files the project receives.
#[derive(Debug)]
pub struct DefaultsConfig {
    pub source_files: bool,
    pub readme: bool,
    pub gitignore: bool,
    pub license: bool,
    pub tests: bool,
}

impl Default for DefaultsConfig {
    /// Sources, README and `.gitignore`, but no license and no tests.
    fn default() -> (r: Self)
        ensures
            r.source_files && r.readme && r.gitignore && !r.license && !r.tests,
    {
        DefaultsConfig { source_files: true, readme: true, gitignore: true, license: false, tests: false }
    }
}

/// The `[license]` table.
#[derive(Debug)]
pub struct LicenseConfig {
    pub name: String,
}

/// One dependency to add to the generated project.
#[derive(Debug)]
pub struct Dependency {
    pub name: String,
    pub features: Vec<String>,
    pub default_features: Option<bool>,
    pub optional: Option<bool>,
}

/// How a file is written: only when it does not exist yet, or over what is there.
#[derive(Clone, Copy, Debug, PartialEq, Eq, Structural)]
pub enum FileMode {
    Create,
    Replace,
}

impl Default for FileMode {
    /// Files replace what is there.
    fn default() -> (r: Self)
        ensures
            r == FileMode::Replace,
    {
        FileMode::Replace
    }
}

/// A file template: where the file goes, how it is written, whether its
/// placeholders are filled in, and its content.
#[derive(Debug)]
pub struct FileTemplate {
    pub path: String,
    pub mode: FileMode,
    pub render: bool,
    pub content: String,
}

/// The default of a file template's `render` flag: placeholders are filled in.
pub fn default_true() -> (r: bool)
    ensures
        r,
{
    true
}

/// A template with its file templates, in the order they were loaded.
#[derive(Debug)]
pub struct LoadedTemplate {
    pub project: ProjectTemplate,
    pub files: Vec<FileTemplate>,
}

/// The values that placeholders are replaced by.
#[derive(Debug)]
pub struct TemplateContext {
    pub project_name: String,
    pub language: String,
    pub template_name: String,
}

/// The values of a template context.
pub struct ContextView {
    pub project_name: Seq<char>,
    pub language: Seq<char>,
    pub template_name: Seq<char>,
}

impl View for TemplateContext {
    type V = ContextView;

    open spec fn view(&self) -> ContextView {
        ContextView {
            project_name: self.project_name@,
            language: self.language@,
            template_name: self.template_name@,
        }
    }
}

/// A file to write, with its final content.
#[derive(Debug)]
pub struct GeneratedFile {
    pub path: String,
    pub content: String,
}

/// The path and content of a generated file.
pub open spec fn generated_view(files: Seq<GeneratedFile>) -> Seq<(Seq<char>, Seq<char>)> {
    files.map_values(|f: GeneratedFile| (f.path@, f.content@))
}

/// The text of the license `name`, when the library knows it.
pub open spec fn license_for(name: Seq<char>) -> Option<Seq<char>> {
    if name == "MIT"@ {
        Some(MIT_LICENSE@)
    } else if name == "Apache-2.0"@ {
        Some(APACHE_LICENSE@)
    } else {
        None
    }
}

/// The message for an unknown license.
pub open spec fn unknown_license_message(name: Seq<char>) -> Seq<char> {
    "unknown license '"@ + name + "'"@
}

/// The text of the license `name`; MIT and Apache-2.0 are known.
pub fn license_text(name: &str) -> (r: Result<&'static str, Error>)
    ensures
        match r {
            Ok(t) => license_for(name@) == Some(t@),
            Err(e) => license_for(name@) is None && e.fault() == plain(
                ErrorKind::UnknownLicense,
                unknown_license_message(name@),
            ),
        },
{
    if same_text(name, "MIT") {
        Ok(MIT_LICENSE)
    } else if same_text(name, "Apache-2.0") {
        Ok(APACHE_LICENSE)
    } else {
        Err(Error::new(ErrorKind::UnknownLicense, concat3("unknown license '", name, "'")))
    }
}

/// `s` is empty or white space only.
pub open spec fn is_blank(s: Seq<char>) -> bool {
    trim(s).len() == 0
}

/// Some dependency in `deps` has a blank name.
pub open spec fn has_blank_name(deps: Seq<Dependency>) -> bool {
    exists|i: int| 0 <= i < deps.len() && is_blank(#[trigger] deps[i].name@)
}

/// The first check that `project` fails, with its error, when it is loaded as
/// the template `template_name` of `language`; `None` when it passes them all.
pub open spec fn project_fault(
    project: ProjectTemplate,
    language: Seq<char>,
    template_name: Seq<char>,
) -> Option<Fault> {
    if project.schema_version != 1 {
        Some(
            plain(
                ErrorKind::UnsupportedSchemaVersion,
                "unsupported schema_version "@ + decimal(project.schema_version as nat)
                    + "; expected 1"@,
            ),
        )
    } else if !(project.language@ == "rust"@ || project.language@ == "python"@) {
        Some(plain(ErrorKind::UnsupportedLanguage, "unsupported language '"@ + project.language@ + "'"@))
    } else if project.language@ != language {
        Some(
            plain(
                ErrorKind::LanguageMismatch,
                "template language '"@ + project.language@ + "' does not match CLI language '"@
                    + language + "'"@,
            ),
        )
    } else if is_blank(project.template.name@) {
        Some(plain(ErrorKind::EmptyTemplateName, "template name must not be empty"@))
    } else if project.template.name@ != template_name {
        Some(
            plain(
                ErrorKind::TemplateNameMismatch,
                "template declares name '"@ + project.template.name@ + "' instead of '"@
                    + template_name + "'"@,
            ),
        )
    } else if project.manifest.mode != ManifestMode::Managed {
        Some(plain(ErrorKind::CustomManifestMode, "manifest mode 'custom' is not supported yet"@))
    } else if project.defaults.license && project.license is None {
        Some(plain(ErrorKind::MissingLicense, "defaults.license is true but [license] is missing"@))
    } else if project.license is Some && license_for(project.license->Some_0.name@) is None {
        Some(
            plain(
                ErrorKind::UnknownLicense,
                unknown_license_message(project.license->Some_0.name@),
            ),
        )
    } else if has_blank_name(project.dependencies@) || has_blank_name(
        project.dev_dependencies@,
    ) {
        Some(plain(ErrorKind::EmptyDependencyName, "dependency name must not be empty"@))
    } else {
        None
    }
}

/// Every dependency name, regular and development alike, must be non-blank:
/// a template that passes the checks has none blank, a blank name in either
/// list makes the checks fail, and the dependency error names such a case.
pub proof fn law_dependency_names_are_not_blank(
    project: ProjectTemplate,
    language: Seq<char>,
    template_name: Seq<char>,
)
    ensures
        project_fault(project, language, template_name) is None ==> {
            &&& forall|i: int|
                0 <= i < project.dependencies@.len() ==> !is_blank(
                    #[trigger] project.dependencies@[i].name@,
                )
            &&& forall|i: int|
                0 <= i < project.dev_dependencies@.len() ==> !is_blank(
                    #[trigger] project.dev_dependencies@[i].name@,
                )
        },
        (exists|i: int|
            0 <= i < project.dependencies@.len() && is_blank(
                #[trigger] project.dependencies@[i].name@,
            )) ==> project_fault(project, language, template_name) is Some,
        (exists|i: int|
            0 <= i < project.dev_dependencies@.len() && is_blank(
                #[trigger] project.dev_dependencies@[i].name@,
            )) ==> project_fault(project, language, template_name) is Some,
        project_fault(project, language, template_name) matches Some(f) && f.0
            == ErrorKind::EmptyDependencyName ==> (exists|i: int|
            0 <= i < project.dependencies@.len() && is_blank(
                #[trigger] project.dependencies@[i].name@,
            )) || (exists|i: int|
            0 <= i < project.dev_dependencies@.len() && is_blank(
                #[trigger] project.dev_dependencies@[i].name@,
            )),
{
}

fn is_blank_text(s: &str) -> (r: bool)
    ensures
        r == is_blank(s@),
{
    trim_text(s).is_empty()
}

fn any_blank_name(deps: &Vec<Dependency>) -> (r: bool)
    ensures
        r == has_blank_name(deps@),
{
    let mut i: usize = 0;
    while i < deps.len()
        invariant
            i <= deps.len(),
            forall|j: int| 0 <= j < i ==> !is_blank(#[trigger] deps@[j].name@),
        decreases deps.len() - i,
    {
        if is_blank_text(deps[i].name.as_str()) {
            return true;
        }
        i = i + 1;
    }
    false
}

/// Checks a template loaded for `language` under the name `template_name`:
/// schema version 1, a supported language that matches, a non-blank name that
/// matches, a managed manifest, a known license where one is asked for, and
/// non-blank dependency names. The first check that fails gives the error.
pub fn validate_project(project: &ProjectTemplate, language: &str, template_name: &str) -> (r:
    Result<(), Error>)
    ensures
        match r {
            Ok(()) => project_fault(*project, language@, template_name@) is None,
            Err(e) => project_fault(*project, language@, template_name@) == Some(e.fault()),
        },
{
    if project.schema_version != 1 {
        let n = decimal_text(project.schema_version);
        return Err(
            Error::new(
                ErrorKind::UnsupportedSchemaVersion,
                concat3("unsupported schema_version ", n.as_str(), "; expected 1"),
            ),
        );
    }
    let lang = project.language.as_str();
    if !(same_text(lang, "rust") || same_text(lang, "python")) {
        return Err(
            Error::new(ErrorKind::UnsupportedLanguage, concat3("unsupported language '", lang, "'")),
        );
    }
    if !same_text(lang, language) {
        let mut m = concat3("template language '", lang, "' does not match CLI language '");
        m.append(language);
        m.append("'");
        return Err(Error::new(ErrorKind::LanguageMismatch, m));
    }
    let name = project.template.name.as_str();
    if is_blank_text(name) {
        return Err(
            Error::new(ErrorKind::EmptyTemplateName, "template name must not be empty".to_owned()),
        );
    }
    if !same_text(name, template_name) {
        let m = concat5("template declares name '", name, "' instead of '", template_name, "'");
        return Err(Error::new(ErrorKind::TemplateNameMismatch, m));
    }
    if project.manifest.mode != ManifestMode::Managed {
        return Err(
            Error::new(
                ErrorKind::CustomManifestMode,
                "manifest mode 'custom' is not supported yet".to_owned(),
            ),
        );
    }
    if project.defaults.license && project.license.is_none() {
        return Err(
            Error::new(
                ErrorKind::MissingLicense,
                "defaults.license is true but [license] is missing".to_owned(),
            ),
        );
    }
    if let Some(license) = &project.license {
        match license_text(license.name.as_str()) {
            Ok(_) => {},
            Err(e) => {
                return Err(e);
            },
        }
    }
    if any_blank_name(&project.dependencies) || any_blank_name(&project.dev_dependencies) {
        return Err(
            Error::new(
                ErrorKind::EmptyDependencyName,
                "dependency name must not be empty".to_owned(),
            ),
        );
    }
    Ok(())
}

/// The template directory, relative to the template root, for `language` and `template_name`.
pub open spec fn template_directory(language: Seq<char>, template_name: Seq<char>) -> Seq<char> {
    "templates/"@ + language + "/"@ + template_name
}

/// Checks that `language` and `template_name` each name one plain directory
/// entry and gives the directory that holds the template, below the template
/// root. The language is checked first.
pub fn load_template(language: &str, template_name: &str) -> (r: Result<String, Error>)
    ensures
        match r {
            Ok(dir) => valid_selector(language@) && valid_selector(template_name@) && dir@
                == template_directory(language@, template_name@),
            Err(e) => if !valid_selector(language@) {
                e.fault() == plain(
                    ErrorKind::InvalidSelector,
                    invalid_selector_message("language"@, language@),
                )
            } else {
                !valid_selector(template_name@) && e.fault() == plain(
                    ErrorKind::InvalidSelector,
                    invalid_selector_message("template"@, template_name@),
                )
            },
        },
{
    validate_selector("language", language)?;
    validate_selector("template", template_name)?;
    let mut dir = concat3("templates/", language, "/");
    dir.append(template_name);
    Ok(dir)
}

/// What the file system holds at a target path, reached without symbolic links.
#[derive(Debug, PartialEq, Eq)]
pub enum TargetState {
    /// Neither a file nor a directory; most often nothing at all.
    Missing,
    /// A file.
    File,
    /// A directory, and whether it has entries.
    Dir { has_entries: bool },
}

/// The target path is empty.
pub open spec fn is_empty_target(target: PathText) -> bool {
    match target {
        PathText::Utf8(t) => t@.len() == 0,
        PathText::NotUtf8 { .. } => false,
    }
}

/// The first rule that a target breaks, with its error: the path must not be
/// empty, no component of it may be a symbolic link (`symlink` is the first
/// one found), and it must be new or an empty directory.
pub open spec fn target_fault(target: PathText, symlink: Option<Seq<char>>, state: TargetState) -> Option<
    Fault,
> {
    if is_empty_target(target) {
        Some(plain(ErrorKind::EmptyTarget, "target path must not be empty"@))
    } else if symlink is Some {
        Some(
            plain(
                ErrorKind::SymlinkInTarget,
                "symlink path component '"@ + symlink->Some_0 + "' is not allowed"@,
            ),
        )
    } else {
        match state {
            TargetState::File => Some(
                plain(ErrorKind::TargetIsFile, "target '"@ + target.display_text() + "' is a file"@),
            ),
            TargetState::Dir { has_entries: true } => Some(
                plain(
                    ErrorKind::TargetNotEmpty,
                    "target directory '"@ + target.display_text() + "' is not empty"@,
                ),
            ),
            _ => None,
        }
    }
}

/// Checks that a project may be created at `target`: the path is not empty,
/// none of its components is a symbolic link (`symlink` names the first that
/// is), and it is new or an empty directory (`state`). The first rule broken
/// gives the error.
pub fn validate_target(target: &PathText, symlink: Option<String>, state: TargetState) -> (r:
    Result<(), Error>)
    ensures
        match r {
            Ok(()) => target_fault(
                *target,
                match symlink {
                    Some(s) => Some(s@),
                    None => None,
                },
                state,
            ) is None,
            Err(e) => target_fault(
                *target,
                match symlink {
                    Some(s) => Some(s@),
                    None => None,
                },
                state,
            ) == Some(e.fault()),
        },
{
    let empty = match target {
        PathText::Utf8(t) => t.as_str().is_empty(),
        PathText::NotUtf8 { .. } => false,
    };
    if empty {
        return Err(Error::new(ErrorKind::EmptyTarget, "target path must not be empty".to_owned()));
    }
    if let Some(component) = &symlink {
        return Err(
            Error::new(
                ErrorKind::SymlinkInTarget,
                concat3("symlink path component '", component.as_str(), "' is not allowed"),
            ),
        );
    }
    let display = target.display();
    match state {
        TargetState::File => Err(
            Error::new(ErrorKind::TargetIsFile, concat3("target '", display.as_str(), "' is a file")),
        ),
        TargetState::Dir { has_entries: true } => Err(
            Error::new(
                ErrorKind::TargetNotEmpty,
                concat3("target directory '", display.as_str(), "' is not empty"),
            ),
        ),
        _ => Ok(()),
    }
}

/// The final component of a target path when it is a plain name that is valid UTF-8.
pub open spec fn target_file_name(target: PathText) -> Option<Seq<char>> {
    match target {
        PathText::Utf8(t) => file_name(t@),
        PathText::NotUtf8 { file_name, .. } => match file_name {
            Some(n) => Some(n@),
            None => None,
        },
    }
}

/// The project name that a target path gives: its final component, when that
/// is a non-empty plain name that is valid UTF-8.
pub open spec fn project_name_of(target: PathText) -> Option<Seq<char>> {
    match target_file_name(target) {
        Some(n) => if n.len() > 0 {
            Some(n)
        } else {
            None
        },
        None => None,
    }
}

/// The message for a target without a project name.
pub open spec fn no_project_name_message(target: PathText) -> Seq<char> {
    "target path '"@ + target.display_text() + "' has no project name"@
}

impl TemplateContext {
    /// The context for a project created at `target` from the template
    /// `template_name` of `language`: the project is named after the final
    /// component of `target`.
    pub fn from_target(target: &PathText, language: &str, template_name: &str) -> (r: Result<
        TemplateContext,
        Error,
    >)
        ensures
            match r {
                Ok(c) => project_name_of(*target) == Some(c.project_name@) && c.language@
                    == language@ && c.template_name@ == template_name@,
                Err(e) => project_name_of(*target) is None && e.fault() == plain(
                    ErrorKind::NoProjectName,
                    no_project_name_message(*target),
                ),
            },
    {
        let name = match target {
            PathText::Utf8(t) => file_name_text(t.as_str()),
            PathText::NotUtf8 { file_name, .. } => match file_name {
                Some(n) => Some(n.clone()),
                None => None,
            },
        };
        match name {
            Some(n) => {
                if n.as_str().is_empty() {
                    let d = target.display();
                    return Err(
                        Error::new(
                            ErrorKind::NoProjectName,
                            concat3("target path '", d.as_str(), "' has no project name"),
                        ),
                    );
                }
                Ok(
                    TemplateContext {
                        project_name: n,
                        language: language.to_owned(),
                        template_name: template_name.to_owned(),
                    },
                )
            },
            None => {
                let d = target.display();
                Err(
                    Error::new(
                        ErrorKind::NoProjectName,
                        concat3("target path '", d.as_str(), "' has no project name"),
                    ),
                )
            },
        }
    }
}

/// Every path in `files` is valid and no two are the same path.
pub open spec fn distinct_valid_paths(files: Seq<FileTemplate>) -> bool {
    &&& forall|i: int| 0 <= i < files.len() ==> valid_file_path(#[trigger] files[i].path@)
    &&& forall|i: int, j: int|
        0 <= i < j < files.len() ==> !same_path(#[trigger] files[i].path@, #[trigger] files[j].path@)
}

/// Some file in `files` has the same path as `path`.
pub open spec fn path_taken(files: Seq<FileTemplate>, path: Seq<char>) -> bool {
    exists|i: int| 0 <= i < files.len() && same_path(#[trigger] files[i].path@, path)
}

/// The message for a file template whose target path is invalid; `source`
/// names the file template. Its cause is `invalid_file_path_message()`.
pub open spec fn invalid_target_message(source: Seq<char>, path: Seq<char>) -> Seq<char> {
    source + " contains invalid target path '"@ + path + "'"@
}

/// The message for a file template whose target path is taken already.
pub open spec fn duplicate_target_message(source: Seq<char>, path: Seq<char>) -> Seq<char> {
    source + " duplicates target path '"@ + path + "'"@
}

fn path_in_use(files: &Vec<FileTemplate>, path: &str) -> (r: bool)
    ensures
        r == path_taken(files@, path@),
{
    let mut i: usize = 0;
    while i < files.len()
        invariant
            i <= files.len(),
            forall|j: int| 0 <= j < i ==> !same_path(#[trigger] files@[j].path@, path@),
        decreases files.len() - i,
    {
        if same_path_text(files[i].path.as_str(), path) {
            return true;
        }
        i = i + 1;
    }
    false
}

/// Adds the file template `file`, read from `source`, to the templates loaded
/// so far, after checking that its target path is valid and not taken.
/// On an error, `files` is left as it was.
pub fn add_file_template(files: &mut Vec<FileTemplate>, source: &str, file: FileTemplate) -> (r:
    Result<(), Error>)
    ensures
        match r {
            Ok(()) => {
                &&& valid_file_path(file.path@)
                &&& !path_taken(old(files)@, file.path@)
                &&& forall|i: int|
                    0 <= i < old(files)@.len() ==> path_components(#[trigger] old(files)@[i].path@)
                        != path_components(file.path@)
                &&& final(files)@ == old(files)@.push(file)
            },
            Err(e) => {
                &&& final(files)@ == old(files)@
                &&& if !valid_file_path(file.path@) {
                    e.fault() == (
                        ErrorKind::InvalidFilePath,
                        invalid_target_message(source@, file.path@),
                        Some(invalid_file_path_message()),
                    )
                } else {
                    path_taken(old(files)@, file.path@) && e.fault() == plain(
                        ErrorKind::DuplicateFilePath,
                        duplicate_target_message(source@, file.path@),
                    )
                }
            },
        },
{
    let path = file.path.as_str();
    match validate_file_path(path) {
        Ok(()) => {},
        Err(cause) => {
            let mut m = concat3(source, " contains invalid target path '", path);
            m.append("'");
            return Err(Error::caused_by(ErrorKind::InvalidFilePath, m, &cause));
        },
    }
    if path_in_use(files, path) {
        let mut m = concat3(source, " duplicates target path '", path);
        m.append("'");
        return Err(Error::new(ErrorKind::DuplicateFilePath, m));
    }
    proof {
        law_path_taken_means_equal_components(files@, file.path@);
    }
    files.push(file);
    Ok(())
}

/// A path is taken exactly when some loaded file has a path with the very
/// same sequence of components: same length, and equal component by component.
pub proof fn law_path_taken_means_equal_components(files: Seq<FileTemplate>, path: Seq<char>)
    ensures
        path_taken(files, path) <==> exists|i: int|
            0 <= i < files.len() && path_components(#[trigger] files[i].path@) == path_components(
                path,
            ),
        path_taken(files, path) ==> exists|i: int|
            0 <= i < files.len() && path_components(#[trigger] files[i].path@).len()
                == path_components(path).len() && forall|k: int|
                0 <= k < path_components(path).len() ==> path_components(files[i].path@)[k]
                    == path_components(path)[k],
{
}

/// The file templates of a template never share a target path, and each path
/// is valid: adding a file template, as `add_file_template` admits it, keeps
/// this so.
pub proof fn law_loaded_paths_stay_distinct(
    before: Seq<FileTemplate>,
    file: FileTemplate,
)
    requires
        distinct_valid_paths(before),
        valid_file_path(file.path@),
        !path_taken(before, file.path@),
    ensures
        distinct_valid_paths(before.push(file)),
{
    let after = before.push(file);
    assert forall|i: int, j: int| 0 <= i < j < after.len() implies !same_path(
        #[trigger] after[i].path@,
        #[trigger] after[j].path@,
    ) by {
        if j == before.len() {
            assert(after[i] == before[i]);
            assert(same_path(before[i].path@, file.path@) ==> path_taken(before, file.path@));
        } else {
            assert(after[i] == before[i] && after[j] == before[j]);
        }
    }
    assert forall|i: int| 0 <= i < after.len() implies valid_file_path(
        #[trigger] after[i].path@,
    ) by {
        if i < before.len() {
            assert(after[i] == before[i]);
        }
    }
}

/// A template is admitted exactly when it meets every rule: schema version 1,
/// language `rust` or `python` and the one asked for, a non-blank name equal
/// to the one asked for, a managed manifest, a license configured when a
/// license file is asked for and known when configured, and non-blank
/// dependency names.
pub proof fn law_admitted_templates_meet_every_rule(
    project: ProjectTemplate,
    language: Seq<char>,
    template_name: Seq<char>,
)
    ensures
        project_fault(project, language, template_name) is None <==> {
            &&& project.schema_version == 1
            &&& (project.language@ == "rust"@ || project.language@ == "python"@)
            &&& project.language@ == language
            &&& !is_blank(project.template.name@)
            &&& project.template.name@ == template_name
            &&& project.manifest.mode == ManifestMode::Managed
            &&& (project.defaults.license ==> project.license is Some)
            &&& (project.license matches Some(l) ==> license_for(l.name@) is Some)
            &&& forall|i: int|
                0 <= i < project.dependencies@.len() ==> !is_blank(
                    #[trigger] project.dependencies@[i].name@,
                )
            &&& forall|i: int|
                0 <= i < project.dev_dependencies@.len() ==> !is_blank(
                    #[trigger] project.dev_dependencies@[i].name@,
                )
        },
{
}

/// A project is named after the final component of its target: a non-empty
/// plain name; a UTF-8 target whose last component is not a plain name, or
/// that has none, gives no name.
pub proof fn law_project_named_after_last_component(target: PathText)
    ensures
        target matches PathText::Utf8(t) ==> (project_name_of(target) matches Some(n) ==> {
            &&& n.len() > 0
            &&& path_components(t@).len() > 0
            &&& path_components(t@).last() == crate::path::PartView::Normal(n)
        }),
        target matches PathText::Utf8(t) ==> (path_components(t@).len() == 0 ==> project_name_of(
            target,
        ) is None),
        target matches PathText::NotUtf8 { file_name, .. } ==> (project_name_of(target) matches Some(
            n,
        ) ==> file_name matches Some(f) && f@ == n && n.len() > 0),
{
    if let PathText::Utf8(t) = target {
        crate::path::law_file_name_is_last_component(t@);
    }
}

/// A project may be created exactly in a target whose path is not empty,
/// whose components are no symbolic links, and which is new or an empty
/// directory.
pub proof fn law_target_new_or_empty(target: PathText, symlink: Option<Seq<char>>, state: TargetState)
    ensures
        target_fault(target, symlink, state) is None <==> {
            &&& !is_empty_target(target)
            &&& symlink is None
            &&& (state == TargetState::Missing || state == TargetState::Dir { has_entries: false })
        },
{
}

} // verus!
