use entre::cli::{run, rust_arguments, Command, Request, DEFAULT_RUST_TEMPLATE};
use entre::error::ErrorKind;
use entre::path::PathText;

fn text(s: &str) -> PathText {
    PathText::Utf8(s.to_owned())
}

#[test]
fn rust_target_uses_default_template() {
    let (template, target) = rust_arguments(text("project"), None).ok().unwrap();
    assert_eq!(template, DEFAULT_RUST_TEMPLATE);
    assert_eq!(target, text("project"));
}

#[test]
fn rust_template_and_target_are_preserved() {
    let (template, target) = rust_arguments(text("cli_basic"), Some(text("project")))
        .ok()
        .unwrap();
    assert_eq!(template, "cli_basic");
    assert_eq!(target, text("project"));
}

#[test]
fn rust_template_name_must_be_utf8() {
    let error = rust_arguments(PathText::NotUtf8 { display: "bad\u{fffd}".to_owned(), raw: vec![b'b', b'a', b'd', 0xff], file_name: None }, Some(text("project")))
        .err()
        .unwrap();
    assert_eq!(error.kind, ErrorKind::TemplateNameNotUtf8);
    assert_eq!(error.to_string(), "Rust template name must be valid UTF-8");
}

#[test]
fn non_utf8_target_alone_is_accepted() {
    let target = PathText::NotUtf8 { display: "dir\u{fffd}".to_owned(), raw: vec![b'd', 0xfe], file_name: None };
    let (template, kept) = rust_arguments(target, None).ok().unwrap();
    assert_eq!(template, "default");
    assert_eq!(kept, PathText::NotUtf8 { display: "dir\u{fffd}".to_owned(), raw: vec![b'd', 0xfe], file_name: None });
}

#[test]
fn run_asks_for_a_rust_project() {
    let request = run(Command::Rust {
        template_or_target: text("cli_basic"),
        target_path: Some(text("out")),
    })
    .ok()
    .unwrap();
    match request {
        Request::CreateRust { template, target } => {
            assert_eq!(template, "cli_basic");
            assert_eq!(target, text("out"));
        }
        Request::Done => panic!("expected a Rust project"),
    }
}

#[test]
fn python_projects_are_not_supported() {
    let error = run(Command::Python {
        template: "basic".to_owned(),
        target_path: text("out"),
    })
    .err()
    .unwrap();
    assert_eq!(error.kind, ErrorKind::PythonUnsupported);
    assert_eq!(
        error.to_string(),
        "Python project generation is not supported yet; managed uv support is planned"
    );
}
