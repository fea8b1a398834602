use entre::langs::rust::{cargo_add_args, install_dependencies};
use entre::templates::{
    DefaultsConfig, Dependency, ManifestConfig, ProjectConfig, ProjectTemplate, TemplateMetadata,
};

fn dependency() -> Dependency {
    Dependency {
        name: "serde".to_owned(),
        features: Vec::new(),
        default_features: None,
        optional: None,
    }
}

#[test]
fn cargo_args_for_normal_dependency() {
    assert_eq!(cargo_add_args(&dependency(), false), ["add", "serde"]);
}

#[test]
fn cargo_args_for_dev_dependency() {
    assert_eq!(
        cargo_add_args(&dependency(), true),
        ["add", "serde", "--dev"]
    );
}

#[test]
fn cargo_args_include_features() {
    let mut dependency = dependency();
    dependency.features = vec!["derive".to_owned(), "std".to_owned()];
    assert_eq!(
        cargo_add_args(&dependency, false),
        ["add", "serde", "--features", "derive,std"]
    );
}

#[test]
fn cargo_args_include_optional() {
    let mut dependency = dependency();
    dependency.optional = Some(true);
    assert_eq!(
        cargo_add_args(&dependency, false),
        ["add", "serde", "--optional"]
    );
}

#[test]
fn cargo_args_disable_default_features() {
    let mut dependency = dependency();
    dependency.default_features = Some(false);
    assert_eq!(
        cargo_add_args(&dependency, false),
        ["add", "serde", "--no-default-features"]
    );
}

#[test]
fn cargo_args_combine_all_flags_in_order() {
    let dependency = Dependency {
        name: "tokio".to_owned(),
        features: vec!["rt".to_owned(), "macros".to_owned(), "net".to_owned()],
        default_features: Some(false),
        optional: Some(true),
    };
    assert_eq!(
        cargo_add_args(&dependency, true),
        [
            "add",
            "tokio",
            "--dev",
            "--features",
            "rt,macros,net",
            "--optional",
            "--no-default-features"
        ]
    );
}

#[test]
fn cargo_args_ignore_explicit_defaults() {
    let mut dependency = dependency();
    dependency.optional = Some(false);
    dependency.default_features = Some(true);
    dependency.features = vec!["one".to_owned()];
    assert_eq!(
        cargo_add_args(&dependency, false),
        ["add", "serde", "--features", "one"]
    );
}

fn template_with(dependencies: Vec<Dependency>, dev_dependencies: Vec<Dependency>) -> ProjectTemplate {
    ProjectTemplate {
        schema_version: 1,
        language: "rust".to_owned(),
        template: TemplateMetadata { name: "demo".to_owned(), description: None },
        project: ProjectConfig::default(),
        manifest: ManifestConfig::default(),
        defaults: DefaultsConfig::default(),
        license: None,
        dependencies,
        dev_dependencies,
    }
}

#[test]
fn dependencies_are_installed_before_dev_dependencies() {
    let mut anyhow = dependency();
    anyhow.name = "anyhow".to_owned();
    let mut tempfile = dependency();
    tempfile.name = "tempfile".to_owned();
    let template = template_with(vec![dependency(), anyhow], vec![tempfile]);
    assert_eq!(
        install_dependencies(&template),
        vec![
            vec!["add".to_owned(), "serde".to_owned()],
            vec!["add".to_owned(), "anyhow".to_owned()],
            vec!["add".to_owned(), "tempfile".to_owned(), "--dev".to_owned()],
        ]
    );
}

#[test]
fn no_dependencies_need_no_calls() {
    let template = template_with(Vec::new(), Vec::new());
    assert!(install_dependencies(&template).is_empty());
}
