use entre::error::ErrorKind;
use entre::merge::merge_files;
use entre::path::{same_path_text, validate_file_path, validate_selector, PathText};
use entre::render::render;
use entre::sources::select_template_files;
use entre::templates::{
    add_file_template, validate_target, TargetState, default_true, license_text, load_template, validate_project,
    DefaultsConfig, Dependency, FileMode, FileTemplate, GeneratedFile, LicenseConfig,
    ManifestConfig, ManifestMode, ProjectConfig, ProjectTemplate, TemplateContext,
    TemplateMetadata,
};
use entre::assets::{APACHE_LICENSE, MIT_LICENSE};

fn project() -> ProjectTemplate {
    ProjectTemplate {
        schema_version: 1,
        language: "rust".to_owned(),
        template: TemplateMetadata { name: "demo".to_owned(), description: None },
        project: ProjectConfig { kind: "binary".to_owned(), edition: "2024".to_owned() },
        manifest: ManifestConfig { mode: ManifestMode::Managed },
        defaults: DefaultsConfig::default(),
        license: None,
        dependencies: Vec::new(),
        dev_dependencies: Vec::new(),
    }
}

fn context() -> TemplateContext {
    TemplateContext {
        project_name: "demo".to_owned(),
        language: "rust".to_owned(),
        template_name: "basic".to_owned(),
    }
}

fn file(path: &str, content: &str) -> FileTemplate {
    FileTemplate {
        path: path.to_owned(),
        mode: FileMode::default(),
        render: default_true(),
        content: content.to_owned(),
    }
}

fn error_text(result: Result<(), entre::error::Error>) -> String {
    match result {
        Ok(()) => panic!("expected operation to fail"),
        Err(error) => error.to_string(),
    }
}

#[test]
fn loads_valid_project() {
    let project = project();
    assert!(validate_project(&project, "rust", "demo").is_ok());
    assert_eq!(project.schema_version, 1);
    assert_eq!(project.template.name, "demo");
}

#[test]
fn rejects_unknown_schema_version() {
    let mut project = project();
    project.schema_version = 2;
    let error = error_text(validate_project(&project, "rust", "demo"));
    assert!(error.contains("unsupported schema_version 2"));
    assert_eq!(error, "unsupported schema_version 2; expected 1");
}

#[test]
fn schema_version_is_written_in_decimal() {
    let mut project = project();
    project.schema_version = 4_294_967_295;
    let error = error_text(validate_project(&project, "rust", "demo"));
    assert_eq!(error, "unsupported schema_version 4294967295; expected 1");
    project.schema_version = 0;
    let error = error_text(validate_project(&project, "rust", "demo"));
    assert_eq!(error, "unsupported schema_version 0; expected 1");
}

#[test]
fn rejects_language_mismatch() {
    let error = error_text(validate_project(&project(), "python", "demo"));
    assert!(error.contains("does not match CLI language"));
    assert_eq!(
        error,
        "template language 'rust' does not match CLI language 'python'"
    );
}

#[test]
fn rejects_unsupported_language() {
    let mut project = project();
    project.language = "go".to_owned();
    let error = error_text(validate_project(&project, "go", "demo"));
    assert_eq!(error, "unsupported language 'go'");
}

#[test]
fn rejects_blank_and_mismatched_template_names() {
    let mut project = project();
    project.template.name = " \t\u{3000}".to_owned();
    assert_eq!(
        error_text(validate_project(&project, "rust", "demo")),
        "template name must not be empty"
    );
    project.template.name = "other".to_owned();
    assert_eq!(
        error_text(validate_project(&project, "rust", "demo")),
        "template declares name 'other' instead of 'demo'"
    );
}

#[test]
fn rejects_custom_manifest_mode() {
    let mut project = project();
    project.manifest.mode = ManifestMode::Custom;
    let result = validate_project(&project, "rust", "demo");
    assert_eq!(result.as_ref().err().unwrap().kind, ErrorKind::CustomManifestMode);
    assert_eq!(error_text(result), "manifest mode 'custom' is not supported yet");
}

#[test]
fn license_must_be_configured_and_known() {
    let mut project = project();
    project.defaults.license = true;
    assert_eq!(
        error_text(validate_project(&project, "rust", "demo")),
        "defaults.license is true but [license] is missing"
    );
    project.license = Some(LicenseConfig { name: "GPL-3.0".to_owned() });
    assert_eq!(
        error_text(validate_project(&project, "rust", "demo")),
        "unknown license 'GPL-3.0'"
    );
    project.license = Some(LicenseConfig { name: "Apache-2.0".to_owned() });
    assert!(validate_project(&project, "rust", "demo").is_ok());
    assert_eq!(license_text("MIT").ok().unwrap(), MIT_LICENSE);
    assert_eq!(license_text("Apache-2.0").ok().unwrap(), APACHE_LICENSE);
}

#[test]
fn rejects_blank_dependency_names() {
    let mut project = project();
    project.dev_dependencies = vec![Dependency {
        name: "  ".to_owned(),
        features: Vec::new(),
        default_features: None,
        optional: None,
    }];
    assert_eq!(
        error_text(validate_project(&project, "rust", "demo")),
        "dependency name must not be empty"
    );
}

#[test]
fn selectors_must_be_single_plain_names() {
    assert!(validate_selector("template", "cli_basic").is_ok());
    for bad in ["", "..", ".", "/abs", "a/b", "../x"] {
        assert_eq!(
            error_text(validate_selector("template", bad)),
            format!("invalid template name '{bad}'")
        );
    }
    assert_eq!(load_template("rust", "demo").ok().unwrap(), "templates/rust/demo");
    let error = load_template("../rust", "x/y").err().unwrap();
    assert_eq!(error.to_string(), "invalid language name '../rust'");
    let error = load_template("rust", "x/y").err().unwrap();
    assert_eq!(error.to_string(), "invalid template name 'x/y'");
}

#[test]
fn loads_file_templates_alphabetically() {
    let names: Vec<Vec<u8>> = ["z.toml", "notes.txt", "a.toml", ".toml", "m.toml.bak", "B.toml"]
        .iter()
        .map(|n| n.as_bytes().to_vec())
        .collect();
    assert_eq!(select_template_files(&names), vec![5, 2, 0]);
    assert!(select_template_files(&Vec::new()).is_empty());
}

#[test]
fn file_template_order_is_bytewise() {
    let names: Vec<Vec<u8>> = vec![
        b"b.toml".to_vec(),
        vec![0xff, b'.', b't', b'o', b'm', b'l'],
        b"ab.toml".to_vec(),
        b"a.toml".to_vec(),
        b"..toml".to_vec(),
    ];
    assert_eq!(select_template_files(&names), vec![4, 3, 2, 0, 1]);
}

#[test]
fn rejects_duplicate_target_path() {
    let mut files = Vec::new();
    assert!(add_file_template(&mut files, "files/a.toml", file("same.txt", "a")).is_ok());
    let error = error_text(add_file_template(&mut files, "files/b.toml", file("same.txt", "b")));
    assert!(error.contains("duplicates target path 'same.txt'"));
    assert_eq!(error, "files/b.toml duplicates target path 'same.txt'");
    assert_eq!(files.len(), 1);
    assert_eq!(files[0].content, "a");
}

#[test]
fn duplicate_paths_are_compared_by_component() {
    let mut files = Vec::new();
    assert!(add_file_template(&mut files, "files/a.toml", file("src/lib.rs", "a")).is_ok());
    let error = error_text(add_file_template(&mut files, "files/b.toml", file("src//lib.rs/", "b")));
    assert_eq!(error, "files/b.toml duplicates target path 'src//lib.rs/'");
    assert!(same_path_text("a/./b", "a/b"));
    assert!(!same_path_text("a/b", "b/a"));
}

#[test]
fn rejects_absolute_file_path() {
    let mut files = Vec::new();
    let error = error_text(add_file_template(&mut files, "files/file.toml", file("/tmp/outside", "bad")));
    assert!(error.contains("invalid target path '/tmp/outside'"));
    assert_eq!(error, "files/file.toml contains invalid target path '/tmp/outside'");
    let cause = add_file_template(&mut files, "files/file.toml", file("/tmp/outside", "bad"))
        .err()
        .unwrap();
    assert_eq!(cause.kind, ErrorKind::InvalidFilePath);
    assert_eq!(
        cause.chain(),
        "files/file.toml contains invalid target path '/tmp/outside': path must be relative and contain only normal components"
    );
    assert!(files.is_empty());
}

#[test]
fn rejects_parent_file_path() {
    let mut files = Vec::new();
    let error = error_text(add_file_template(&mut files, "files/file.toml", file("../outside", "bad")));
    assert!(error.contains("invalid target path '../outside'"));
}

#[test]
fn file_paths_must_have_plain_components_only() {
    assert!(validate_file_path("src/main.rs").is_ok());
    assert!(validate_file_path("a/b/").is_ok());
    for bad in ["", "./a", "a/../b", "/a", "."] {
        assert!(validate_file_path(bad).is_err(), "{bad}");
    }
}

#[test]
fn custom_file_overrides_default() {
    let merged = merge_files(
        vec![GeneratedFile {
            path: "src/main.rs".into(),
            content: "default".to_owned(),
        }],
        &[FileTemplate {
            path: "src/main.rs".into(),
            mode: FileMode::Replace,
            render: true,
            content: "custom {{ project_name }}".to_owned(),
        }],
        &context(),
    )
    .ok()
    .unwrap();

    assert_eq!(merged.len(), 1);
    assert_eq!(merged[0].0.content, "custom demo");
}

#[test]
fn merge_keeps_defaults_first_and_custom_modes() {
    let merged = merge_files(
        vec![
            GeneratedFile { path: "README.md".into(), content: "# {{project_name}}".to_owned() },
            GeneratedFile { path: "src//main.rs".into(), content: "{{ broken".to_owned() },
        ],
        &[
            FileTemplate {
                path: "src/main.rs".into(),
                mode: FileMode::Create,
                render: false,
                content: "{{ kept }}".to_owned(),
            },
            file("docs/{{x}}.md", "{{ language }}/{{ template_name }}"),
        ],
        &context(),
    )
    .ok()
    .unwrap();
    assert_eq!(merged.len(), 3);
    assert_eq!(merged[0].0.path, "README.md");
    assert_eq!(merged[0].0.content, "# demo");
    assert_eq!(merged[0].1, FileMode::Replace);
    assert_eq!(merged[1].0.path, "src/main.rs");
    assert_eq!(merged[1].0.content, "{{ kept }}");
    assert_eq!(merged[1].1, FileMode::Create);
    assert_eq!(merged[2].0.path, "docs/{{x}}.md");
    assert_eq!(merged[2].0.content, "rust/basic");
    assert_eq!(merged[2].1, FileMode::Replace);
}

#[test]
fn merge_reports_the_file_that_does_not_render() {
    let error = merge_files(
        vec![GeneratedFile { path: "README.md".into(), content: "{{ nope }}".to_owned() }],
        &[],
        &context(),
    )
    .err()
    .unwrap();
    assert_eq!(error.kind, ErrorKind::RenderDefaultFile);
    assert_eq!(error.to_string(), "could not render default file 'README.md'");
    assert_eq!(
        error.chain(),
        "could not render default file 'README.md': unknown template placeholder '{{ nope }}'"
    );
    let error = merge_files(Vec::new(), &[file("a.txt", "x }} y")], &context())
        .err()
        .unwrap();
    assert_eq!(error.kind, ErrorKind::RenderCustomFile);
    assert_eq!(error.to_string(), "could not render custom file 'a.txt'");
    assert_eq!(
        error.chain(),
        "could not render custom file 'a.txt': unexpected closing placeholder delimiter"
    );
}

#[test]
fn rejects_unknown_placeholder() {
    let error = render("{{ unknown }}", &context()).err().unwrap();
    assert!(error.to_string().contains("unknown template placeholder"));
    assert_eq!(error.to_string(), "unknown template placeholder '{{ unknown }}'");
}

#[test]
fn plain_text_renders_unchanged() {
    for text in ["", "plain", "{ single } braces", "ünïcödé ✓"] {
        assert_eq!(render(text, &context()).ok().unwrap(), text);
    }
}

#[test]
fn placeholders_are_trimmed_and_replaced() {
    let rendered = render(
        "name={{project_name}} lang={{ language }} tpl={{\u{3000}template_name\t}}!",
        &context(),
    )
    .ok()
    .unwrap();
    assert_eq!(rendered, "name=demo lang=rust tpl=basic!");
    assert_eq!(render("{{{project_name}}}", &context()).err().unwrap().to_string(),
        "unknown template placeholder '{{ {project_name }}'");
    assert_eq!(render("{{ project_name }}}", &context()).ok().unwrap(), "demo}");
}

#[test]
fn delimiter_errors_are_reported() {
    let cases = [
        ("a }} b {{ project_name }}", "unexpected closing placeholder delimiter"),
        ("{{ project_name }} }}", "unexpected closing placeholder delimiter"),
        ("start {{ project_name", "unterminated template placeholder"),
        ("}}", "unexpected closing placeholder delimiter"),
    ];
    for (input, message) in cases {
        assert_eq!(render(input, &context()).err().unwrap().to_string(), message, "{input}");
    }
    let error = render("{{ language", &context()).err().unwrap();
    assert_eq!(error.kind, ErrorKind::UnterminatedPlaceholder);
}

#[test]
fn project_is_named_after_the_target() {
    let context = TemplateContext::from_target(&PathText::Utf8("work/demo/".to_owned()), "rust", "basic")
        .ok()
        .unwrap();
    assert_eq!(context.project_name, "demo");
    assert_eq!(context.language, "rust");
    assert_eq!(context.template_name, "basic");
    for bad in ["", "/", "work/..", ".."] {
        let error = TemplateContext::from_target(&PathText::Utf8(bad.to_owned()), "rust", "basic")
            .err()
            .unwrap();
        assert_eq!(error.to_string(), format!("target path '{bad}' has no project name"));
    }
    let error = TemplateContext::from_target(
        &PathText::NotUtf8 { display: "x\u{fffd}".to_owned(), raw: vec![b'x', 0xff], file_name: None },
        "rust",
        "basic",
    )
    .err()
    .unwrap();
    assert_eq!(error.kind, ErrorKind::NoProjectName);
    assert_eq!(error.to_string(), "target path 'x\u{fffd}' has no project name");
    let context = TemplateContext::from_target(
        &PathText::NotUtf8 {
            display: "\u{fffd}/abc".to_owned(),
            raw: vec![0xff, b'/', b'a', b'b', b'c'],
            file_name: Some("abc".to_owned()),
        },
        "rust",
        "basic",
    )
    .ok()
    .unwrap();
    assert_eq!(context.project_name, "abc");
}

#[test]
fn defaults_match_the_documented_values() {
    let project = ProjectConfig::default();
    assert_eq!(project.kind, "binary");
    assert_eq!(project.edition, "2024");
    let defaults = DefaultsConfig::default();
    assert!(defaults.source_files && defaults.readme && defaults.gitignore);
    assert!(!defaults.license && !defaults.tests);
    assert_eq!(ManifestConfig::default().mode, ManifestMode::Managed);
    assert_eq!(FileMode::default(), FileMode::Replace);
    assert!(default_true());
}

#[test]
fn values_are_not_rendered_again() {
    let context = TemplateContext {
        project_name: "{{ language }}".to_owned(),
        language: "rust".to_owned(),
        template_name: "}}".to_owned(),
    };
    assert_eq!(
        render("{{ project_name }}-{{ template_name }}", &context).ok().unwrap(),
        "{{ language }}-}}"
    );
}

#[test]
fn target_must_be_new_or_empty() {
    let target = PathText::Utf8("out".to_owned());
    assert!(validate_target(&target, None, TargetState::Missing).is_ok());
    assert!(validate_target(&target, None, TargetState::Dir { has_entries: false }).is_ok());
    let error = validate_target(&target, None, TargetState::Dir { has_entries: true }).err().unwrap();
    assert_eq!(error.kind, ErrorKind::TargetNotEmpty);
    assert_eq!(error.to_string(), "target directory 'out' is not empty");
    let error = validate_target(&target, None, TargetState::File).err().unwrap();
    assert_eq!(error.to_string(), "target 'out' is a file");
    let error = validate_target(&target, Some("out".to_owned()), TargetState::File).err().unwrap();
    assert_eq!(error.kind, ErrorKind::SymlinkInTarget);
    assert_eq!(error.to_string(), "symlink path component 'out' is not allowed");
    let empty = PathText::Utf8(String::new());
    let error = validate_target(&empty, Some("x".to_owned()), TargetState::File).err().unwrap();
    assert_eq!(error.kind, ErrorKind::EmptyTarget);
    assert_eq!(error.to_string(), "target path must not be empty");
}

#[test]
fn rendering_joined_texts_joins_the_renderings() {
    let a = "x {{ project_name }} y";
    let b = "-{{language}}!";
    let joined = format!("{a}{b}");
    let left = render(a, &context()).ok().unwrap();
    let right = render(b, &context()).ok().unwrap();
    assert_eq!(render(&joined, &context()).ok().unwrap(), format!("{left}{right}"));
    assert!(render("{", &context()).is_ok() && render("{ language }}", &context()).is_err());
}

#[test]
fn components_follow_unix_rules() {
    assert!(same_path_text("./a", "./a/."));
    assert!(!same_path_text("./a", "a"));
    assert!(same_path_text("/a//b/", "/a/b"));
    assert!(!same_path_text("/a", "a"));
    assert!(!same_path_text("a/..", "a"));
    assert!(!same_path_text("a.txt", "b.txt"));
    assert!(validate_file_path("a.txt").is_ok());
    assert!(validate_file_path(".a/b.c").is_ok());
    assert!(validate_file_path("a/./b").is_ok());
    assert!(validate_file_path("../outside").is_err());
}
