use entre::assets::{DEFAULT_CLI_TEST, MIT_LICENSE, RUST_GITIGNORE};
use entre::error::ErrorKind;
use entre::langs::rust::{create_project, default_files, generated, validate_rust_project, Step};
use entre::path::PathText;
use entre::templates::{
    DefaultsConfig, Dependency, FileMode, FileTemplate, LicenseConfig, LoadedTemplate,
    ManifestConfig, ProjectConfig, ProjectTemplate, TemplateMetadata,
};

fn loaded(files: Vec<FileTemplate>) -> LoadedTemplate {
    LoadedTemplate {
        project: ProjectTemplate {
            schema_version: 1,
            language: "rust".to_owned(),
            template: TemplateMetadata { name: "basic".to_owned(), description: Some("demo".to_owned()) },
            project: ProjectConfig { kind: "binary".to_owned(), edition: "2021".to_owned() },
            manifest: ManifestConfig::default(),
            defaults: DefaultsConfig {
                source_files: false,
                readme: false,
                gitignore: true,
                license: false,
                tests: false,
            },
            license: None,
            dependencies: vec![Dependency {
                name: "anyhow".to_owned(),
                features: Vec::new(),
                default_features: None,
                optional: None,
            }],
            dev_dependencies: Vec::new(),
        },
        files,
    }
}

fn target(s: &str) -> PathText {
    PathText::Utf8(s.to_owned())
}

fn describe(step: &Step) -> String {
    match step {
        Step::CheckTarget => "check".to_owned(),
        Step::InitProject { args } => format!("cargo {} <target>", args.join(" ")),
        Step::RemoveFile { path } => format!("remove {path}"),
        Step::WriteFile { path, content, mode } => format!("write {path} {mode:?} {content:?}"),
        Step::Cargo { args } => format!("cargo {}", args.join(" ")),
        Step::Report { message } => format!("report {message}"),
        Step::Fail(error) => format!("fail {}", error.chain()),
    }
}

fn plan(loaded: &LoadedTemplate, target: &PathText, template: &str) -> Vec<String> {
    create_project(loaded, target, template).iter().map(describe).collect()
}

#[test]
fn steps_create_a_project_in_order() {
    let files = vec![FileTemplate {
        path: "src/main.rs".to_owned(),
        mode: FileMode::Create,
        render: true,
        content: "// {{ project_name }} from {{ template_name }}".to_owned(),
    }];
    let steps = plan(&loaded(files), &target("work/app"), "basic");
    assert_eq!(
        steps,
        vec![
            "check".to_owned(),
            "cargo init --bin --edition 2021 <target>".to_owned(),
            "remove src/main.rs".to_owned(),
            "remove .gitignore".to_owned(),
            format!("write .gitignore Replace {:?}", RUST_GITIGNORE),
            "write src/main.rs Create \"// app from basic\"".to_owned(),
            "cargo add anyhow".to_owned(),
            "cargo fmt".to_owned(),
            "report Created Rust project 'work/app' from template 'basic'".to_owned(),
        ]
    );
}

#[test]
fn invalid_rust_template_fails_first() {
    let mut template = loaded(Vec::new());
    template.project.project.edition = "2027".to_owned();
    assert_eq!(
        plan(&template, &target("app"), "basic"),
        vec!["fail unsupported Rust edition '2027'".to_owned()]
    );
    template.project.project.kind = "library".to_owned();
    let error = validate_rust_project(&template.project).err().unwrap();
    assert_eq!(error.kind, ErrorKind::UnsupportedProjectType);
    assert_eq!(
        error.to_string(),
        "Rust project type 'library' is not supported; expected 'binary'"
    );
}

#[test]
fn target_without_name_fails_after_the_check() {
    assert_eq!(
        plan(&loaded(Vec::new()), &target("/"), "basic"),
        vec!["check".to_owned(), "fail target path '/' has no project name".to_owned()]
    );
}

#[test]
fn render_errors_fail_after_init() {
    let files = vec![FileTemplate {
        path: "x.txt".to_owned(),
        mode: FileMode::Replace,
        render: true,
        content: "{{ oops }}".to_owned(),
    }];
    assert_eq!(
        plan(&loaded(files), &target("app"), "basic"),
        vec![
            "check".to_owned(),
            "cargo init --bin --edition 2021 <target>".to_owned(),
            "remove src/main.rs".to_owned(),
            "remove .gitignore".to_owned(),
            "fail could not render custom file 'x.txt': unknown template placeholder '{{ oops }}'"
                .to_owned(),
        ]
    );
}

#[test]
fn default_files_follow_the_defaults_table() {
    let mut template = loaded(Vec::new());
    template.project.defaults = DefaultsConfig {
        source_files: true,
        readme: true,
        gitignore: true,
        license: true,
        tests: true,
    };
    let error = default_files(&template).err().unwrap();
    assert_eq!(error.kind, ErrorKind::MissingLicense);
    template.project.license = Some(LicenseConfig { name: "MIT".to_owned() });
    let files = default_files(&template).ok().unwrap();
    let paths: Vec<&str> = files.iter().map(|f| f.path.as_str()).collect();
    assert_eq!(paths, ["src/main.rs", "README.md", ".gitignore", "LICENSE", "tests/cli.rs"]);
    assert_eq!(files[3].content, MIT_LICENSE);
    assert_eq!(files[4].content, DEFAULT_CLI_TEST);
    template.project.license = Some(LicenseConfig { name: "BSD".to_owned() });
    assert_eq!(default_files(&template).err().unwrap().to_string(), "unknown license 'BSD'");
}

#[test]
fn generated_keeps_path_and_content() {
    let file = generated("a/b.txt", "text");
    assert_eq!(file.path, "a/b.txt");
    assert_eq!(file.content, "text");
}
