//! Rust projects: the checks on a Rust template, its default files, the
//! `cargo add` calls for its dependencies, and the steps that create it.
use vstd::prelude::*;

use crate::assets::{DEFAULT_CLI_TEST, DEFAULT_MAIN_RS, DEFAULT_README, RUST_GITIGNORE};
use crate::error::{plain, Error, ErrorKind, Fault};
use crate::merge::{merge_files, merged, FileView};
use crate::path::PathText;
use crate::render::rendered;
use crate::templates::{
    generated_view, license_for, license_text, no_project_name_message, project_name_of,
    unknown_license_message, ContextView, Dependency, FileMode, GeneratedFile, LoadedTemplate,
    ProjectTemplate, TemplateContext,
};
use crate::text::{concat3, concat5, same_text};

verus! {

/// The first check that a Rust template fails, with its error: the project
/// type must be `binary` and the edition one that Cargo knows.
pub open spec fn rust_project_fault(template: ProjectTemplate) -> Option<Fault> {
    let kind = template.project.kind@;
    let edition = template.project.edition@;
    if kind != "binary"@ {
        Some(
            plain(
                ErrorKind::UnsupportedProjectType,
                "Rust project type '"@ + kind + "' is not supported; expected 'binary'"@,
            ),
        )
    } else if !(edition == "2015"@ || edition == "2018"@ || edition == "2021"@ || edition
        == "2024"@) {
        Some(plain(ErrorKind::UnsupportedEdition, "unsupported Rust edition '"@ + edition + "'"@))
    } else {
        None
    }
}

/// Checks that a Rust template asks for a binary project of a known edition.
pub fn validate_rust_project(template: &ProjectTemplate) -> (r: Result<(), Error>)
    ensures
        match r {
            Ok(()) => rust_project_fault(*template) is None,
            Err(e) => rust_project_fault(*template) == Some(e.fault()),
        },
{
    let kind = template.project.kind.as_str();
    if !same_text(kind, "binary") {
        return Err(
            Error::new(
                ErrorKind::UnsupportedProjectType,
                concat3("Rust project type '", kind, "' is not supported; expected 'binary'"),
            ),
        );
    }
    let edition = template.project.edition.as_str();
    if !(same_text(edition, "2015") || same_text(edition, "2018") || same_text(edition, "2021")
        || same_text(edition, "2024")) {
        return Err(
            Error::new(
                ErrorKind::UnsupportedEdition,
                concat3("unsupported Rust edition '", edition, "'"),
            ),
        );
    }
    Ok(())
}

/// A generated file at `path` holding `content`.
pub fn generated(path: &str, content: &str) -> (f: GeneratedFile)
    ensures
        f.path@ == path@,
        f.content@ == content@,
{
    GeneratedFile { path: path.to_owned(), content: content.to_owned() }
}

/// `files` with the file `(path, content)` added when `wanted`.
pub open spec fn push_if(
    files: Seq<(Seq<char>, Seq<char>)>,
    wanted: bool,
    path: Seq<char>,
    content: Seq<char>,
) -> Seq<(Seq<char>, Seq<char>)> {
    if wanted {
        files.push((path, content))
    } else {
        files
    }
}

/// The default files of a Rust project, in order: `src/main.rs`, `README.md`,
/// `.gitignore`, `LICENSE` and `tests/cli.rs`, each where the template's
/// defaults ask for it. The license must be configured and known.
pub open spec fn default_file_list(template: ProjectTemplate) -> Result<
    Seq<(Seq<char>, Seq<char>)>,
    Fault,
> {
    let d = template.defaults;
    let first = push_if(
        push_if(
            push_if(Seq::empty(), d.source_files, "src/main.rs"@, DEFAULT_MAIN_RS@),
            d.readme,
            "README.md"@,
            DEFAULT_README@,
        ),
        d.gitignore,
        ".gitignore"@,
        RUST_GITIGNORE@,
    );
    if d.license {
        match template.license {
            None => Err(plain(ErrorKind::MissingLicense, "defaults.license is true but [license] is missing"@)),
            Some(l) => match license_for(l.name@) {
                None => Err(plain(ErrorKind::UnknownLicense, unknown_license_message(l.name@))),
                Some(text) => Ok(
                    push_if(first.push(("LICENSE"@, text)), d.tests, "tests/cli.rs"@, DEFAULT_CLI_TEST@),
                ),
            },
        }
    } else {
        Ok(push_if(first, d.tests, "tests/cli.rs"@, DEFAULT_CLI_TEST@))
    }
}

/// The text of the license a template configures, if it configures a known one.
pub open spec fn license_text_of(template: ProjectTemplate) -> Option<Seq<char>> {
    match template.license {
        Some(l) => license_for(l.name@),
        None => None,
    }
}

proof fn lemma_push_if(
    files: Seq<(Seq<char>, Seq<char>)>,
    wanted: bool,
    path: Seq<char>,
    content: Seq<char>,
)
    ensures
        forall|x: (Seq<char>, Seq<char>)|
            files.contains(x) ==> #[trigger] push_if(files, wanted, path, content).contains(x),
        wanted ==> push_if(files, wanted, path, content).contains((path, content)),
        forall|i: int|
            0 <= i < push_if(files, wanted, path, content).len() ==> files.contains(
                #[trigger] push_if(files, wanted, path, content)[i],
            ) || (wanted && push_if(files, wanted, path, content)[i] == (path, content)),
{
    let out = push_if(files, wanted, path, content);
    if wanted {
        assert(out[files.len() as int] == (path, content));
        assert forall|x: (Seq<char>, Seq<char>)| files.contains(x) implies #[trigger] out.contains(
            x,
        ) by {
            let k = choose|k: int| 0 <= k < files.len() && files[k] == x;
            assert(out[k] == x);
        }
        assert forall|i: int| 0 <= i < out.len() implies files.contains(#[trigger] out[i]) || (
        wanted && out[i] == (path, content)) by {
            if i < files.len() {
                assert(out[i] == files[i]);
            }
        }
    }
}

/// Each default file holds the text meant for its path, and is there exactly
/// when the `[defaults]` table asks for it: `src/main.rs` holds the default
/// sources, `README.md` the default README, `.gitignore` the Rust ignore list,
/// `LICENSE` the text of the configured license and `tests/cli.rs` the default
/// test; no other file is produced.
pub proof fn law_default_files_hold_their_texts(template: ProjectTemplate)
    requires
        default_file_list(template) is Ok,
    ensures
        ({
            let files = default_file_list(template)->Ok_0;
            let d = template.defaults;
            &&& d.source_files ==> files.contains(("src/main.rs"@, DEFAULT_MAIN_RS@))
            &&& d.readme ==> files.contains(("README.md"@, DEFAULT_README@))
            &&& d.gitignore ==> files.contains((".gitignore"@, RUST_GITIGNORE@))
            &&& d.tests ==> files.contains(("tests/cli.rs"@, DEFAULT_CLI_TEST@))
            &&& d.license ==> template.license is Some && license_text_of(template) is Some
                && files.contains(("LICENSE"@, license_text_of(template)->Some_0))
            &&& forall|i: int|
                0 <= i < files.len() ==> {
                    ||| (d.source_files && #[trigger] files[i] == ("src/main.rs"@, DEFAULT_MAIN_RS@))
                    ||| (d.readme && files[i] == ("README.md"@, DEFAULT_README@))
                    ||| (d.gitignore && files[i] == (".gitignore"@, RUST_GITIGNORE@))
                    ||| (d.tests && files[i] == ("tests/cli.rs"@, DEFAULT_CLI_TEST@))
                    ||| (d.license && license_text_of(template) is Some && files[i] == (
                        "LICENSE"@,
                        license_text_of(template)->Some_0,
                    ))
                }
        }),
{
    let d = template.defaults;
    let empty = Seq::<(Seq<char>, Seq<char>)>::empty();
    let s1 = push_if(empty, d.source_files, "src/main.rs"@, DEFAULT_MAIN_RS@);
    let s2 = push_if(s1, d.readme, "README.md"@, DEFAULT_README@);
    let s3 = push_if(s2, d.gitignore, ".gitignore"@, RUST_GITIGNORE@);
    lemma_push_if(empty, d.source_files, "src/main.rs"@, DEFAULT_MAIN_RS@);
    lemma_push_if(s1, d.readme, "README.md"@, DEFAULT_README@);
    lemma_push_if(s2, d.gitignore, ".gitignore"@, RUST_GITIGNORE@);
    if d.license {
        let text = license_for(template.license->Some_0.name@)->Some_0;
        let s4 = s3.push(("LICENSE"@, text));
        lemma_push_if(s3, true, "LICENSE"@, text);
        lemma_push_if(s4, d.tests, "tests/cli.rs"@, DEFAULT_CLI_TEST@);
    } else {
        lemma_push_if(s3, d.tests, "tests/cli.rs"@, DEFAULT_CLI_TEST@);
    }
}

/// The default files that the loaded template asks for.
pub fn default_files(loaded: &LoadedTemplate) -> (r: Result<Vec<GeneratedFile>, Error>)
    ensures
        match r {
            Ok(files) => default_file_list(loaded.project) == Ok::<_, Fault>(generated_view(files@)),
            Err(e) => default_file_list(loaded.project) == Err::<Seq<(Seq<char>, Seq<char>)>, Fault>(
                e.fault(),
            ),
        },
{
    let template = &loaded.project;
    let mut files: Vec<GeneratedFile> = Vec::new();
    let ghost mut expected: Seq<(Seq<char>, Seq<char>)> = Seq::empty();
    if template.defaults.source_files {
        files.push(generated("src/main.rs", DEFAULT_MAIN_RS));
    }
    proof {
        expected = push_if(expected, template.defaults.source_files, "src/main.rs"@, DEFAULT_MAIN_RS@);
        assert(generated_view(files@) =~= expected);
    }
    if template.defaults.readme {
        files.push(generated("README.md", DEFAULT_README));
    }
    proof {
        expected = push_if(expected, template.defaults.readme, "README.md"@, DEFAULT_README@);
        assert(generated_view(files@) =~= expected);
    }
    if template.defaults.gitignore {
        files.push(generated(".gitignore", RUST_GITIGNORE));
    }
    proof {
        expected = push_if(expected, template.defaults.gitignore, ".gitignore"@, RUST_GITIGNORE@);
        assert(generated_view(files@) =~= expected);
    }
    if template.defaults.license {
        let license = match &template.license {
            Some(l) => l,
            None => {
                return Err(
                    Error::new(
                        ErrorKind::MissingLicense,
                        "defaults.license is true but [license] is missing".to_owned(),
                    ),
                );
            },
        };
        let text = license_text(license.name.as_str())?;
        files.push(generated("LICENSE", text));
        proof {
            expected = expected.push(("LICENSE"@, text@));
            assert(generated_view(files@) =~= expected);
        }
    }
    if template.defaults.tests {
        files.push(generated("tests/cli.rs", DEFAULT_CLI_TEST));
    }
    proof {
        expected = push_if(expected, template.defaults.tests, "tests/cli.rs"@, DEFAULT_CLI_TEST@);
        assert(generated_view(files@) =~= expected);
    }
    Ok(files)
}

/// The texts of a sequence of strings.
pub open spec fn texts(v: Seq<String>) -> Seq<Seq<char>> {
    v.map_values(|s: String| s@)
}

/// `parts` joined with `sep` between each two.
pub open spec fn joined(parts: Seq<Seq<char>>, sep: Seq<char>) -> Seq<char>
    decreases parts.len(),
{
    if parts.len() == 0 {
        Seq::empty()
    } else if parts.len() == 1 {
        parts[0]
    } else {
        joined(parts.drop_last(), sep) + sep + parts.last()
    }
}

fn join_with(parts: &Vec<String>, sep: &str) -> (r: String)
    ensures
        r@ == joined(texts(parts@), sep@),
{
    let mut r = String::new();
    let mut i: usize = 0;
    while i < parts.len()
        invariant
            i <= parts@.len(),
            r@ == joined(texts(parts@).take(i as int), sep@),
        decreases parts@.len() - i,
    {
        let ghost before = texts(parts@).take(i as int);
        assert(texts(parts@).take(i + 1).drop_last() =~= before);
        if i > 0 {
            r.append(sep);
        }
        r.append(parts[i].as_str());
        proof {
            if i == 0 {
                assert(r@ =~= texts(parts@).take(1)[0]);
            }
        }
        i = i + 1;
    }
    assert(texts(parts@).take(parts@.len() as int) =~= texts(parts@));
    r
}

/// `args` followed by `extra` when `wanted`.
pub open spec fn add_if(args: Seq<Seq<char>>, wanted: bool, extra: Seq<Seq<char>>) -> Seq<Seq<char>> {
    if wanted {
        args + extra
    } else {
        args
    }
}

/// The arguments of the `cargo add` call for `dependency`: `add` and its name,
/// then `--dev` for a development dependency, `--features` with the features
/// joined by commas when there are any, `--optional` when it is optional and
/// `--no-default-features` when its default features are switched off.
pub open spec fn cargo_add_spec(dependency: Dependency, development: bool) -> Seq<Seq<char>> {
    let base = seq!["add"@, dependency.name@];
    let with_dev = add_if(base, development, seq!["--dev"@]);
    let with_features = add_if(
        with_dev,
        dependency.features.len() > 0,
        seq!["--features"@, joined(texts(dependency.features@), ","@)],
    );
    let with_optional = add_if(with_features, dependency.optional == Some(true), seq!["--optional"@]);
    add_if(with_optional, dependency.default_features == Some(false), seq!["--no-default-features"@])
}

/// The arguments of `cargo add` for `dependency`.
pub fn cargo_add_args(dependency: &Dependency, development: bool) -> (args: Vec<String>)
    ensures
        texts(args@) == cargo_add_spec(*dependency, development),
{
    let mut args: Vec<String> = Vec::new();
    args.push("add".to_owned());
    args.push(dependency.name.clone());
    let ghost mut expected = seq!["add"@, dependency.name@];
    assert(texts(args@) =~= expected);
    if development {
        args.push("--dev".to_owned());
    }
    proof {
        expected = add_if(expected, development, seq!["--dev"@]);
        assert(texts(args@) =~= expected);
    }
    let has_features = dependency.features.len() > 0;
    if has_features {
        args.push("--features".to_owned());
        args.push(join_with(&dependency.features, ","));
    }
    proof {
        expected = add_if(
            expected,
            has_features,
            seq!["--features"@, joined(texts(dependency.features@), ","@)],
        );
        assert(texts(args@) =~= expected);
    }
    let optional = match dependency.optional {
        Some(b) => b,
        None => false,
    };
    if optional {
        args.push("--optional".to_owned());
    }
    proof {
        expected = add_if(expected, dependency.optional == Some(true), seq!["--optional"@]);
        assert(texts(args@) =~= expected);
    }
    let no_defaults = match dependency.default_features {
        Some(b) => !b,
        None => false,
    };
    if no_defaults {
        args.push("--no-default-features".to_owned());
    }
    proof {
        expected = add_if(
            expected,
            dependency.default_features == Some(false),
            seq!["--no-default-features"@],
        );
        assert(texts(args@) =~= expected);
    }
    args
}

/// The `cargo add` calls for `deps`, all of the kind `development` says.
pub open spec fn cargo_add_calls(deps: Seq<Dependency>, development: bool) -> Seq<Seq<Seq<char>>> {
    deps.map_values(|d: Dependency| cargo_add_spec(d, development))
}

/// The `cargo add` calls for a template: its dependencies, then its development dependencies.
pub open spec fn install_spec(template: ProjectTemplate) -> Seq<Seq<Seq<char>>> {
    cargo_add_calls(template.dependencies@, false) + cargo_add_calls(
        template.dev_dependencies@,
        true,
    )
}

/// The argument lists of a sequence of calls.
pub open spec fn calls_view(calls: Seq<Vec<String>>) -> Seq<Seq<Seq<char>>> {
    calls.map_values(|c: Vec<String>| texts(c@))
}

fn add_calls(calls: &mut Vec<Vec<String>>, deps: &Vec<Dependency>, development: bool)
    ensures
        calls_view(final(calls)@) == calls_view(old(calls)@) + cargo_add_calls(deps@, development),
{
    let ghost start = calls_view(calls@);
    let mut i: usize = 0;
    while i < deps.len()
        invariant
            i <= deps@.len(),
            calls_view(calls@) == start + cargo_add_calls(deps@.take(i as int), development),
        decreases deps@.len() - i,
    {
        let args = cargo_add_args(&deps[i], development);
        let ghost before = calls_view(calls@);
        calls.push(args);
        proof {
            assert(deps@.take(i + 1) =~= deps@.take(i as int).push(deps@[i as int]));
            assert(cargo_add_calls(deps@.take(i + 1), development) =~= cargo_add_calls(
                deps@.take(i as int),
                development,
            ).push(cargo_add_spec(deps@[i as int], development)));
            assert(calls_view(calls@) =~= before.push(texts(args@)));
        }
        i = i + 1;
    }
    assert(deps@.take(deps@.len() as int) =~= deps@);
}

/// The argument lists of the `cargo add` calls that install a template's
/// dependencies: the regular ones first, then the development ones.
pub fn install_dependencies(template: &ProjectTemplate) -> (calls: Vec<Vec<String>>)
    ensures
        calls_view(calls@) == install_spec(*template),
{
    let mut calls: Vec<Vec<String>> = Vec::new();
    assert(calls_view(calls@) =~= Seq::<Seq<Seq<char>>>::empty());
    add_calls(&mut calls, &template.dependencies, false);
    add_calls(&mut calls, &template.dev_dependencies, true);
    assert(calls_view(calls@) =~= install_spec(*template));
    calls
}

/// One step of creating a project. The caller performs the steps in order
/// and stops at the first that fails.
#[derive(Debug)]
pub enum Step {
    /// Check that the target is a new or empty directory, reached without symbolic links.
    CheckTarget,
    /// Run `cargo` with `args` followed by the target path, in the current directory.
    InitProject { args: Vec<String> },
    /// Remove the file at `path` below the target, if there is one.
    RemoveFile { path: String },
    /// Write `content` to `path` below the target, in `mode`.
    WriteFile { path: String, content: String, mode: FileMode },
    /// Run `cargo` with `args` in the target directory.
    Cargo { args: Vec<String> },
    /// Tell the user the project was created.
    Report { message: String },
    /// Stop with this error.
    Fail(Error),
}

/// A step as contracts see it.
pub enum StepView {
    CheckTarget,
    InitProject(Seq<Seq<char>>),
    RemoveFile(Seq<char>),
    WriteFile(Seq<char>, Seq<char>, FileMode),
    Cargo(Seq<Seq<char>>),
    Report(Seq<char>),
    Fail(Fault),
}

impl View for Step {
    type V = StepView;

    open spec fn view(&self) -> StepView {
        match self {
            Step::CheckTarget => StepView::CheckTarget,
            Step::InitProject { args } => StepView::InitProject(texts(args@)),
            Step::RemoveFile { path } => StepView::RemoveFile(path@),
            Step::WriteFile { path, content, mode } => StepView::WriteFile(path@, content@, *mode),
            Step::Cargo { args } => StepView::Cargo(texts(args@)),
            Step::Report { message } => StepView::Report(message@),
            Step::Fail(e) => StepView::Fail(e.fault()),
        }
    }
}

/// The arguments of `cargo init` for a binary project of `edition`; the target path follows them.
pub open spec fn init_args(edition: Seq<char>) -> Seq<Seq<char>> {
    seq!["init"@, "--bin"@, "--edition"@, edition]
}

/// The views of a sequence of steps.
pub open spec fn steps_view(steps: Seq<Step>) -> Seq<StepView> {
    steps.map_values(|s: Step| s@)
}

/// The message shown once the project is created.
pub open spec fn report_message(target: PathText, template_name: Seq<char>) -> Seq<char> {
    "Created Rust project '"@ + target.display_text() + "' from template '"@ + template_name
        + "'"@
}

/// The steps that write the merged files.
pub open spec fn write_steps(files: Seq<FileView>) -> Seq<StepView> {
    files.map_values(|f: FileView| StepView::WriteFile(f.0, f.1, f.2))
}

/// The steps that run the `cargo add` calls.
pub open spec fn cargo_steps(calls: Seq<Seq<Seq<char>>>) -> Seq<StepView> {
    calls.map_values(|c: Seq<Seq<char>>| StepView::Cargo(c))
}

/// The steps once the project directory exists: write the files, install the
/// dependencies, format the sources and report.
pub open spec fn finishing_steps(
    loaded: LoadedTemplate,
    target: PathText,
    template_name: Seq<char>,
    context: ContextView,
) -> Seq<StepView> {
    match default_file_list(loaded.project) {
        Err(f) => seq![StepView::Fail(f)],
        Ok(defaults) => match merged(defaults, loaded.files@, context) {
            Err(f) => seq![StepView::Fail(f)],
            Ok(files) => write_steps(files) + cargo_steps(install_spec(loaded.project)) + seq![
                StepView::Cargo(seq!["fmt"@]),
                StepView::Report(report_message(target, template_name)),
            ],
        },
    }
}

/// The steps that create a Rust project at `target` from the loaded template
/// `template_name`: check the template, check the target, name the project
/// after the target, run `cargo init`, remove the `src/main.rs` and
/// `.gitignore` it writes, write the default and template files, add the
/// dependencies, format, report. A check that fails ends the steps with its
/// error at the point where it is made.
pub open spec fn creation_plan(loaded: LoadedTemplate, target: PathText, template_name: Seq<char>) -> Seq<
    StepView,
> {
    match rust_project_fault(loaded.project) {
        Some(f) => seq![StepView::Fail(f)],
        None => seq![StepView::CheckTarget] + match project_name_of(target) {
            None => seq![
                StepView::Fail(plain(ErrorKind::NoProjectName, no_project_name_message(target))),
            ],
            Some(name) => seq![
                StepView::InitProject(init_args(loaded.project.project.edition@)),
                StepView::RemoveFile("src/main.rs"@),
                StepView::RemoveFile(".gitignore"@),
            ] + finishing_steps(
                loaded,
                target,
                template_name,
                ContextView { project_name: name, language: "rust"@, template_name },
            ),
        },
    }
}

fn finish(
    loaded: &LoadedTemplate,
    target: &PathText,
    template_name: &str,
    context: &TemplateContext,
    steps: &mut Vec<Step>,
)
    ensures
        steps_view(final(steps)@) == steps_view(old(steps)@) + finishing_steps(
            *loaded,
            *target,
            template_name@,
            context@,
        ),
{
    let ghost start = steps_view(steps@);
    let defaults = match default_files(loaded) {
        Ok(d) => d,
        Err(e) => {
            steps.push(Step::Fail(e));
            assert(steps_view(steps@) =~= start + finishing_steps(*loaded, *target, template_name@, context@));
            return ;
        },
    };
    let ghost defaults_view = generated_view(defaults@);
    let files = match merge_files(defaults, &loaded.files, context) {
        Ok(f) => f,
        Err(e) => {
            steps.push(Step::Fail(e));
            assert(steps_view(steps@) =~= start + finishing_steps(*loaded, *target, template_name@, context@));
            return ;
        },
    };
    let ghost files_view = crate::merge::merged_view(files@);
    let ghost written = steps_view(steps@);
    for entry in it: files
        invariant
            files_view == crate::merge::merged_view(it.seq()),
            steps_view(steps@) == written + write_steps(
                crate::merge::merged_view(it.seq().take(it.index() as int)),
            ),
    {
        let ghost before = steps_view(steps@);
        let (file, mode) = entry;
        proof {
            assert(it.seq().take(it.index() + 1) =~= it.seq().take(it.index() as int).push(entry));
            assert(write_steps(crate::merge::merged_view(it.seq().take(it.index() + 1)))
                =~= write_steps(crate::merge::merged_view(it.seq().take(it.index() as int))).push(
                StepView::WriteFile(file.path@, file.content@, mode),
            ));
        }
        steps.push(Step::WriteFile { path: file.path, content: file.content, mode });
        assert(steps_view(steps@) =~= before.push(StepView::WriteFile(file.path@, file.content@, mode)));
    }
    let calls = install_dependencies(&loaded.project);
    let ghost calls_spec = calls_view(calls@);
    let ghost after_writes = steps_view(steps@);
    for args in it: calls
        invariant
            calls_spec == calls_view(it.seq()),
            steps_view(steps@) == after_writes + cargo_steps(
                calls_view(it.seq().take(it.index() as int)),
            ),
    {
        let ghost before = steps_view(steps@);
        let ghost args_view = texts(args@);
        proof {
            assert(it.seq().take(it.index() + 1) =~= it.seq().take(it.index() as int).push(args));
            assert(cargo_steps(calls_view(it.seq().take(it.index() + 1))) =~= cargo_steps(
                calls_view(it.seq().take(it.index() as int)),
            ).push(StepView::Cargo(args_view)));
        }
        steps.push(Step::Cargo { args });
        assert(steps_view(steps@) =~= before.push(StepView::Cargo(args_view)));
    }
    let ghost after_calls = steps_view(steps@);
    let mut fmt: Vec<String> = Vec::new();
    fmt.push("fmt".to_owned());
    let ghost fmt_view = texts(fmt@);
    assert(fmt_view =~= seq!["fmt"@]);
    steps.push(Step::Cargo { args: fmt });
    assert(steps_view(steps@) =~= after_calls.push(StepView::Cargo(seq!["fmt"@])));
    let display = target.display();
    let message = concat5("Created Rust project '", display.as_str(), "' from template '", template_name, "'");
    let ghost message_view = message@;
    steps.push(Step::Report { message });
    assert(steps_view(steps@) =~= after_calls.push(StepView::Cargo(seq!["fmt"@])).push(StepView::Report(message_view)));
    proof {
        assert(after_writes == written + write_steps(files_view));
        assert(steps_view(steps@) =~= start + finishing_steps(*loaded, *target, template_name@, context@));
    }
}

/// The steps that create a Rust project at `target` from the loaded template
/// `template_name`, ending early with the error of the first check that fails.
pub fn create_project(loaded: &LoadedTemplate, target: &PathText, template_name: &str) -> (steps: Vec<Step>)
    ensures
        steps_view(steps@) == creation_plan(*loaded, *target, template_name@),
{
    let mut steps: Vec<Step> = Vec::new();
    match validate_rust_project(&loaded.project) {
        Ok(()) => {},
        Err(e) => {
            steps.push(Step::Fail(e));
            assert(steps_view(steps@) =~= creation_plan(*loaded, *target, template_name@));
            return steps;
        },
    }
    steps.push(Step::CheckTarget);
    let context = match TemplateContext::from_target(target, "rust", template_name) {
        Ok(c) => c,
        Err(e) => {
            steps.push(Step::Fail(e));
            assert(steps_view(steps@) =~= creation_plan(*loaded, *target, template_name@));
            return steps;
        },
    };
    let mut init: Vec<String> = Vec::new();
    init.push("init".to_owned());
    init.push("--bin".to_owned());
    init.push("--edition".to_owned());
    init.push(loaded.project.project.edition.clone());
    assert(texts(init@) =~= init_args(loaded.project.project.edition@));
    steps.push(Step::InitProject { args: init });
    steps.push(Step::RemoveFile { path: "src/main.rs".to_owned() });
    steps.push(Step::RemoveFile { path: ".gitignore".to_owned() });
    let ghost head = steps_view(steps@);
    finish(loaded, target, template_name, &context, &mut steps);
    proof {
        let name = project_name_of(*target)->Some_0;
        assert(context@ == ContextView { project_name: name, language: "rust"@, template_name: template_name@ });
        assert(steps_view(steps@) =~= creation_plan(*loaded, *target, template_name@));
    }
    steps
}

/// Only the final step of the finishing steps can be a failure.
proof fn lemma_finishing_fail_last(
    loaded: LoadedTemplate,
    target: PathText,
    template_name: Seq<char>,
    context: ContextView,
)
    ensures
        ({
            let f = finishing_steps(loaded, target, template_name, context);
            &&& f.len() > 0
            &&& forall|i: int| 0 <= i < f.len() - 1 ==> !(#[trigger] f[i] is Fail)
            &&& forall|i: int| 0 <= i < f.len() ==> (#[trigger] f[i] is WriteFile || f[i] is Cargo
                || f[i] is Report || f[i] is Fail)
        }),
{
    let f = finishing_steps(loaded, target, template_name, context);
    if let Ok(defaults) = default_file_list(loaded.project) {
        if let Ok(files) = merged(defaults, loaded.files@, context) {
            let w = write_steps(files);
            let c = cargo_steps(install_spec(loaded.project));
            let tail = seq![
                StepView::Cargo(seq!["fmt"@]),
                StepView::Report(report_message(target, template_name)),
            ];
            assert(f == w + c + tail);
            assert forall|i: int| 0 <= i < f.len() implies (#[trigger] f[i] is WriteFile || f[i] is Cargo
                || f[i] is Report) by {
                if i < w.len() {
                    assert(f[i] == w[i]);
                } else if i < w.len() + c.len() {
                    assert(f[i] == c[i - w.len()]);
                } else {
                    assert(f[i] == tail[i - w.len() - c.len()]);
                }
            }
        }
    }
}

/// A failed check ends the steps: no step follows a failure.
pub proof fn law_failure_ends_steps(loaded: LoadedTemplate, target: PathText, template_name: Seq<char>)
    ensures
        ({
            let plan = creation_plan(loaded, target, template_name);
            forall|i: int| 0 <= i < plan.len() - 1 ==> !(#[trigger] plan[i] is Fail)
        }),
{
    let plan = creation_plan(loaded, target, template_name);
    if rust_project_fault(loaded.project) is None {
        if let Some(name) = project_name_of(target) {
            let context = ContextView { project_name: name, language: "rust"@, template_name };
            lemma_finishing_fail_last(loaded, target, template_name, context);
            let head = seq![
                StepView::CheckTarget,
                StepView::InitProject(init_args(loaded.project.project.edition@)),
                StepView::RemoveFile("src/main.rs"@),
                StepView::RemoveFile(".gitignore"@),
            ];
            let f = finishing_steps(loaded, target, template_name, context);
            assert(plan =~= head + f);
            assert forall|i: int| 0 <= i < plan.len() - 1 implies !(#[trigger] plan[i] is Fail) by {
                if i >= 4 {
                    assert(plan[i] == f[i - 4]);
                }
            }
        }
    }
}

/// Files are written only in a checked target, after `cargo init` has run and
/// the `src/main.rs` and `.gitignore` it made are removed.
pub proof fn law_files_written_after_init(
    loaded: LoadedTemplate,
    target: PathText,
    template_name: Seq<char>,
)
    ensures
        ({
            let plan = creation_plan(loaded, target, template_name);
            forall|i: int|
                0 <= i < plan.len() && #[trigger] plan[i] is WriteFile ==> {
                    &&& 4 <= i
                    &&& plan[0] == StepView::CheckTarget
                    &&& plan[1] == StepView::InitProject(init_args(loaded.project.project.edition@))
                    &&& plan[2] == StepView::RemoveFile("src/main.rs"@)
                    &&& plan[3] == StepView::RemoveFile(".gitignore"@)
                }
        }),
{
    let plan = creation_plan(loaded, target, template_name);
    if rust_project_fault(loaded.project) is None {
        if let Some(name) = project_name_of(target) {
            let context = ContextView { project_name: name, language: "rust"@, template_name };
            let head = seq![
                StepView::CheckTarget,
                StepView::InitProject(init_args(loaded.project.project.edition@)),
                StepView::RemoveFile("src/main.rs"@),
                StepView::RemoveFile(".gitignore"@),
            ];
            let f = finishing_steps(loaded, target, template_name, context);
            assert(plan =~= head + f);
        } else {
            assert(plan.len() == 2);
        }
    }
}

/// A template that passes `validate_project` always has its default files:
/// the license it asks for is configured and known.
pub proof fn law_valid_template_has_default_files(
    template: ProjectTemplate,
    language: Seq<char>,
    template_name: Seq<char>,
)
    requires
        crate::templates::project_fault(template, language, template_name) is None,
    ensures
        default_file_list(template) is Ok,
{
}

/// The context a Rust project is rendered with: named after the target, with
/// language `rust` and the template's own name.
pub open spec fn rust_context(target: PathText, template_name: Seq<char>) -> ContextView {
    ContextView {
        project_name: project_name_of(target)->Some_0,
        language: "rust"@,
        template_name,
    }
}

/// When no check fails, every file template is written, at its path and in
/// its mode, with its content rendered exactly when it asks for it, and
/// rendered with the project's name, the language `rust` and the template's
/// name; before any file is written, the target is checked, `cargo init` has
/// run and cargo's own `src/main.rs` and `.gitignore` are removed.
pub proof fn law_templates_written_with_rust_context(
    loaded: LoadedTemplate,
    target: PathText,
    template_name: Seq<char>,
)
    requires
        forall|i: int|
            0 <= i < creation_plan(loaded, target, template_name).len() ==> !(
            #[trigger] creation_plan(loaded, target, template_name)[i] is Fail),
    ensures
        project_name_of(target) is Some,
        default_file_list(loaded.project) is Ok,
        ({
            let plan = creation_plan(loaded, target, template_name);
            let context = rust_context(target, template_name);
            let defaults = default_file_list(loaded.project)->Ok_0;
            let calls = install_spec(loaded.project);
            &&& forall|j: int|
                0 <= j < loaded.files@.len() ==> exists|i: int|
                    4 <= i < plan.len() && plan[i] == StepView::WriteFile(
                        (#[trigger] loaded.files@[j]).path@,
                        crate::merge::template_output(loaded.files@[j], context),
                        loaded.files@[j].mode,
                    )
            &&& forall|j: int|
                0 <= j < defaults.len() && (crate::merge::not_replaced(loaded.files@))(
                    #[trigger] defaults[j],
                ) ==> exists|i: int|
                    4 <= i < plan.len() && plan[i] == StepView::WriteFile(
                        defaults[j].0,
                        rendered(defaults[j].1, context)->Ok_0,
                        FileMode::Replace,
                    )
            &&& forall|j: int|
                0 <= j < calls.len() ==> exists|i: int|
                    4 <= i < plan.len() - 2 && plan[i] == StepView::Cargo(#[trigger] calls[j])
            &&& plan.len() >= 6
            &&& plan[plan.len() - 2] == StepView::Cargo(seq!["fmt"@])
            &&& plan[plan.len() - 1] == StepView::Report(report_message(target, template_name))
        }),
{
    let plan = creation_plan(loaded, target, template_name);
    if rust_project_fault(loaded.project) is Some {
        assert(plan[0] is Fail);
    } else if project_name_of(target) is None {
        assert(plan[1] is Fail);
    } else {
        let context = rust_context(target, template_name);
        let head = seq![
            StepView::CheckTarget,
            StepView::InitProject(init_args(loaded.project.project.edition@)),
            StepView::RemoveFile("src/main.rs"@),
            StepView::RemoveFile(".gitignore"@),
        ];
        let f = finishing_steps(loaded, target, template_name, context);
        assert(plan =~= head + f);
        match default_file_list(loaded.project) {
            Err(_) => {
                assert(plan[4] is Fail);
            },
            Ok(defaults) => {
                match merged(defaults, loaded.files@, context) {
                    Err(_) => {
                        assert(plan[4] is Fail);
                    },
                    Ok(out) => {
                        crate::merge::law_merge_keeps_unreplaced_defaults(
                            defaults,
                            loaded.files@,
                            context,
                        );
                        let kept = defaults.filter(crate::merge::not_replaced(loaded.files@));
                        let w = write_steps(out);
                        assert(f =~= w + (cargo_steps(install_spec(loaded.project)) + seq![
                            StepView::Cargo(seq!["fmt"@]),
                            StepView::Report(report_message(target, template_name)),
                        ]));
                        assert forall|j: int| 0 <= j < loaded.files@.len() implies exists|i: int|
                            4 <= i < plan.len() && plan[i] == StepView::WriteFile(
                                (#[trigger] loaded.files@[j]).path@,
                                crate::merge::template_output(loaded.files@[j], context),
                                loaded.files@[j].mode,
                            ) by {
                            let k = kept.len() + j;
                            assert(plan[4 + k] == w[k]);
                            assert(w[k] == StepView::WriteFile(out[k].0, out[k].1, out[k].2));
                        }
                        assert forall|j: int|
                            0 <= j < defaults.len() && (crate::merge::not_replaced(loaded.files@))(
                                #[trigger] defaults[j],
                            ) implies exists|i: int|
                            4 <= i < plan.len() && plan[i] == StepView::WriteFile(
                                defaults[j].0,
                                rendered(defaults[j].1, context)->Ok_0,
                                FileMode::Replace,
                            ) by {
                            broadcast use vstd::seq_lib::group_filter_ensures;

                            assert(kept.contains(defaults[j]));
                            let k = choose|k: int| 0 <= k < kept.len() && kept[k] == defaults[j];
                            assert(plan[4 + k] == w[k]);
                            assert(w[k] == StepView::WriteFile(out[k].0, out[k].1, out[k].2));
                        }
                        let c = cargo_steps(install_spec(loaded.project));
                        assert forall|j: int| 0 <= j < install_spec(loaded.project).len() implies exists|i: int|
                            4 <= i < plan.len() - 2 && plan[i] == StepView::Cargo(
                                #[trigger] install_spec(loaded.project)[j],
                            ) by {
                            assert(plan[4 + w.len() + j] == c[j]);
                        }
                    },
                }
            },
        }
    }
}

/// Joining puts the separator between each two parts and nowhere else: one
/// part is itself, and one more part adds the separator and that part.
pub proof fn law_join_puts_separator_between(parts: Seq<Seq<char>>, last: Seq<char>, sep: Seq<char>)
    ensures
        joined(seq![last], sep) == last,
        parts.len() > 0 ==> joined(parts.push(last), sep) == joined(parts, sep) + sep + last,
        joined(Seq::<Seq<char>>::empty(), sep) == Seq::<char>::empty(),
{
    assert(seq![last].len() == 1);
    if parts.len() > 0 {
        assert(parts.push(last).drop_last() =~= parts);
    }
}

/// The `cargo add` arguments name the dependency right after `add`, then
/// `--dev` exactly for a development dependency, `--features` with the
/// comma-joined features exactly when there are features, `--optional`
/// exactly when the dependency is optional and `--no-default-features`,
/// last, exactly when its default features are off; there is nothing else.
pub proof fn law_cargo_add_arguments(dependency: Dependency, development: bool)
    ensures
        ({
            let args = cargo_add_spec(dependency, development);
            let dev: int = if development { 1 } else { 0 };
            let features = dependency.features.len() > 0;
            let feat: int = if features { 2 } else { 0 };
            let optional = dependency.optional == Some(true);
            let opt: int = if optional { 1 } else { 0 };
            let no_defaults = dependency.default_features == Some(false);
            let nodef: int = if no_defaults { 1 } else { 0 };
            &&& args.len() == 2 + dev + feat + opt + nodef
            &&& args[0] == "add"@
            &&& args[1] == dependency.name@
            &&& development ==> args[2] == "--dev"@
            &&& features ==> args[2 + dev] == "--features"@ && args[3 + dev] == joined(
                texts(dependency.features@),
                ","@,
            )
            &&& optional ==> args[2 + dev + feat] == "--optional"@
            &&& no_defaults ==> args[2 + dev + feat + opt] == "--no-default-features"@
        }),
{
}

/// The regular dependencies are added first, in order and as regular ones,
/// then the development dependencies, in order and with `--dev`.
pub proof fn law_install_order(template: ProjectTemplate)
    ensures
        ({
            let calls = install_spec(template);
            let deps = template.dependencies@;
            let dev = template.dev_dependencies@;
            &&& calls.len() == deps.len() + dev.len()
            &&& forall|i: int|
                0 <= i < deps.len() ==> #[trigger] calls[i] == cargo_add_spec(deps[i], false)
            &&& forall|i: int|
                0 <= i < dev.len() ==> #[trigger] calls[deps.len() + i] == cargo_add_spec(
                    dev[i],
                    true,
                )
        }),
{
}

/// A Rust template passes exactly when it asks for a binary project of
/// edition 2015, 2018, 2021 or 2024.
pub proof fn law_rust_template_checks(template: ProjectTemplate)
    ensures
        rust_project_fault(template) is None <==> (template.project.kind@ == "binary"@ && (
        template.project.edition@ == "2015"@ || template.project.edition@ == "2018"@
            || template.project.edition@ == "2021"@ || template.project.edition@ == "2024"@)),
{
}

} // verus!
