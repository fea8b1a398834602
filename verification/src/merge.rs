//! Combining the default files of a project with the template's own files:
//! a file template replaces the default file with the same path.
use vstd::prelude::*;

use crate::error::{chained, Error, ErrorKind, Fault};
use crate::render::{render, rendered};
use crate::path::path_components;
use crate::templates::{
    generated_view, law_path_taken_means_equal_components, path_taken, ContextView, FileMode, FileTemplate, GeneratedFile, TemplateContext,
};
use crate::path::same_path_text;
use crate::text::concat3;

verus! {

/// A file to write as contracts see it: path, content and mode.
pub type FileView = (Seq<char>, Seq<char>, FileMode);

/// The view of merged files.
pub open spec fn merged_view(files: Seq<(GeneratedFile, FileMode)>) -> Seq<FileView> {
    files.map_values(|f: (GeneratedFile, FileMode)| (f.0.path@, f.0.content@, f.1))
}

/// `done` followed by the files of `rest`, or the error that stops it.
pub open spec fn then_files(done: Seq<FileView>, rest: Result<Seq<FileView>, Fault>) -> Result<
    Seq<FileView>,
    Fault,
> {
    match rest {
        Ok(t) => Ok(done + t),
        Err(f) => Err(f),
    }
}

/// The message for a default file that does not render; the rendering error is its cause.
pub open spec fn default_render_message(path: Seq<char>) -> Seq<char> {
    "could not render default file '"@ + path + "'"@
}

/// The message for a file template that does not render; the rendering error is its cause.
pub open spec fn custom_render_message(path: Seq<char>) -> Seq<char> {
    "could not render custom file '"@ + path + "'"@
}

/// The default files that no file template replaces, rendered, in order; all
/// replace what is at their path. The first that fails to render gives the error.
pub open spec fn merged_defaults(
    defaults: Seq<(Seq<char>, Seq<char>)>,
    custom: Seq<FileTemplate>,
    context: ContextView,
) -> Result<Seq<FileView>, Fault>
    decreases defaults.len(),
{
    if defaults.len() == 0 {
        Ok(Seq::empty())
    } else {
        let d = defaults[0];
        if path_taken(custom, d.0) {
            merged_defaults(defaults.drop_first(), custom, context)
        } else {
            match rendered(d.1, context) {
                Err(f) => Err((ErrorKind::RenderDefaultFile, default_render_message(d.0), Some(chained(f)))),
                Ok(c) => then_files(
                    seq![(d.0, c, FileMode::Replace)],
                    merged_defaults(defaults.drop_first(), custom, context),
                ),
            }
        }
    }
}

/// The content that the file template `file` is written with.
pub open spec fn custom_content(file: FileTemplate, context: ContextView) -> Result<
    Seq<char>,
    Fault,
> {
    if file.render {
        match rendered(file.content@, context) {
            Ok(c) => Ok(c),
            Err(f) => Err((ErrorKind::RenderCustomFile, custom_render_message(file.path@), Some(chained(f)))),
        }
    } else {
        Ok(file.content@)
    }
}

/// The file templates, each with its content rendered where it asks for it, in order.
pub open spec fn merged_custom(custom: Seq<FileTemplate>, context: ContextView) -> Result<
    Seq<FileView>,
    Fault,
>
    decreases custom.len(),
{
    if custom.len() == 0 {
        Ok(Seq::empty())
    } else {
        let f = custom[0];
        match custom_content(f, context) {
            Err(x) => Err(x),
            Ok(c) => then_files(seq![(f.path@, c, f.mode)], merged_custom(custom.drop_first(), context)),
        }
    }
}

/// All files to write: the remaining default files, then the file templates.
pub open spec fn merged(
    defaults: Seq<(Seq<char>, Seq<char>)>,
    custom: Seq<FileTemplate>,
    context: ContextView,
) -> Result<Seq<FileView>, Fault> {
    match merged_defaults(defaults, custom, context) {
        Err(f) => Err(f),
        Ok(a) => then_files(a, merged_custom(custom, context)),
    }
}

fn overridden(custom: &[FileTemplate], path: &str) -> (r: bool)
    ensures
        r == path_taken(custom@, path@),
{
    let mut i: usize = 0;
    while i < custom.len()
        invariant
            i <= custom@.len(),
            forall|j: int| 0 <= j < i ==> !crate::path::same_path(#[trigger] custom@[j].path@, path@),
        decreases custom@.len() - i,
    {
        if same_path_text(custom[i].path.as_str(), path) {
            return true;
        }
        i = i + 1;
    }
    false
}

/// The files to write, in order: each default file whose path no file template
/// takes, rendered and replacing what is there, then each file template,
/// rendered where it asks for it and written in its own mode.
pub fn merge_files(
    defaults: Vec<GeneratedFile>,
    custom: &[FileTemplate],
    context: &TemplateContext,
) -> (r: Result<Vec<(GeneratedFile, FileMode)>, Error>)
    ensures
        match r {
            Ok(files) => merged(generated_view(defaults@), custom@, context@) == Ok::<_, Fault>(merged_view(files@)),
            Err(e) => merged(generated_view(defaults@), custom@, context@) == Err::<Seq<FileView>, Fault>(e.fault()),
        },
{
    let mut files: Vec<(GeneratedFile, FileMode)> = Vec::new();
    let mut i: usize = 0;
    proof {
        assert(generated_view(defaults@).skip(0) =~= generated_view(defaults@));
        match merged_defaults(generated_view(defaults@), custom@, context@) {
            Ok(t) => {
                assert(merged_view(files@) + t =~= t);
            },
            Err(_) => {},
        }
    }
    while i < defaults.len()
        invariant
            i <= defaults@.len(),
            merged_defaults(generated_view(defaults@), custom@, context@) == then_files(
                merged_view(files@),
                merged_defaults(generated_view(defaults@).skip(i as int), custom@, context@),
            ),
        decreases defaults@.len() - i,
    {
        let ghost rest = generated_view(defaults@).skip(i as int);
        assert(rest.drop_first() =~= generated_view(defaults@).skip(i + 1));
        assert(rest[0] == (defaults@[i as int].path@, defaults@[i as int].content@));
        let d = &defaults[i];
        if !overridden(custom, d.path.as_str()) {
            match render(d.content.as_str(), context) {
                Ok(content) => {
                    let ghost before = merged_view(files@);
                    files.push((GeneratedFile { path: d.path.clone(), content }, FileMode::Replace));
                    proof {
                        assert(merged_view(files@) =~= before + seq![
                            (d.path@, content@, FileMode::Replace),
                        ]);
                        match merged_defaults(generated_view(defaults@).skip(i + 1), custom@, context@) {
                            Ok(t) => {
                                assert(before + (seq![(d.path@, content@, FileMode::Replace)] + t)
                                    =~= merged_view(files@) + t);
                            },
                            Err(_) => {},
                        }
                    }
                },
                Err(cause) => {
                    let m = concat3("could not render default file '", d.path.as_str(), "'");
                    return Err(Error::caused_by(ErrorKind::RenderDefaultFile, m, &cause));
                },
            }
        }
        i = i + 1;
    }
    assert(generated_view(defaults@).skip(i as int) =~= Seq::<(Seq<char>, Seq<char>)>::empty());
    let ghost head = merged_view(files@);
    assert(merged_defaults(generated_view(defaults@), custom@, context@) == Ok::<_, Fault>(head));
    let mut j: usize = 0;
    proof {
        assert(custom@.skip(0) =~= custom@);
    }
    while j < custom.len()
        invariant
            j <= custom@.len(),
            merged_defaults(generated_view(defaults@), custom@, context@) == Ok::<_, Fault>(head),
            merged(generated_view(defaults@), custom@, context@) == then_files(
                merged_view(files@),
                merged_custom(custom@.skip(j as int), context@),
            ),
        decreases custom@.len() - j,
    {
        let ghost rest = custom@.skip(j as int);
        assert(rest.drop_first() =~= custom@.skip(j + 1));
        assert(rest[0] == custom@[j as int]);
        let f = &custom[j];
        let content = if f.render {
            match render(f.content.as_str(), context) {
                Ok(c) => c,
                Err(cause) => {
                    let m = concat3("could not render custom file '", f.path.as_str(), "'");
                    return Err(Error::caused_by(ErrorKind::RenderCustomFile, m, &cause));
                },
            }
        } else {
            f.content.clone()
        };
        let ghost before = merged_view(files@);
        files.push((GeneratedFile { path: f.path.clone(), content }, f.mode));
        proof {
            assert(merged_view(files@) =~= before + seq![(f.path@, content@, f.mode)]);
            match merged_custom(custom@.skip(j + 1), context@) {
                Ok(t) => {
                    assert(before + (seq![(f.path@, content@, f.mode)] + t) =~= merged_view(files@)
                        + t);
                },
                Err(_) => {},
            }
        }
        j = j + 1;
    }
    assert(custom@.skip(j as int) =~= Seq::<FileTemplate>::empty());
    assert(merged_view(files@) + Seq::<FileView>::empty() =~= merged_view(files@));
    Ok(files)
}

/// The default files that survive are never ones a file template replaces,
/// and they replace what is at their path.
pub proof fn lemma_defaults_not_overridden(
    defaults: Seq<(Seq<char>, Seq<char>)>,
    custom: Seq<FileTemplate>,
    context: ContextView,
)
    ensures
        merged_defaults(defaults, custom, context) matches Ok(kept) ==> forall|i: int|
            0 <= i < kept.len() ==> !path_taken(custom, (#[trigger] kept[i]).0) && kept[i].2
                == FileMode::Replace,
    decreases defaults.len(),
{
    if defaults.len() > 0 {
        lemma_defaults_not_overridden(defaults.drop_first(), custom, context);
        let d = defaults[0];
        if !path_taken(custom, d.0) {
            if let Ok(c) = rendered(d.1, context) {
                if let Ok(rest) = merged_defaults(defaults.drop_first(), custom, context) {
                    let kept = seq![(d.0, c, FileMode::Replace)] + rest;
                    assert forall|i: int| 0 <= i < kept.len() implies !path_taken(
                        custom,
                        (#[trigger] kept[i]).0,
                    ) && kept[i].2 == FileMode::Replace by {
                        if i > 0 {
                            assert(kept[i] == rest[i - 1]);
                        }
                    }
                }
            }
        }
    }
}

/// The content a file template is written with: rendered when it asks for it, else as it is.
pub open spec fn template_output(file: FileTemplate, context: ContextView) -> Seq<char> {
    if file.render {
        rendered(file.content@, context)->Ok_0
    } else {
        file.content@
    }
}

/// Each file template gives one file, in order, at its own path, in its own
/// mode, with its content rendered exactly when it asks for it.
pub proof fn lemma_custom_files_kept(custom: Seq<FileTemplate>, context: ContextView)
    ensures
        merged_custom(custom, context) matches Ok(out) ==> {
            &&& out.len() == custom.len()
            &&& forall|i: int|
                0 <= i < custom.len() ==> {
                    &&& (#[trigger] out[i]).0 == custom[i].path@
                    &&& out[i].2 == custom[i].mode
                    &&& (custom[i].render ==> rendered(custom[i].content@, context) is Ok)
                    &&& out[i].1 == template_output(custom[i], context)
                }
        },
    decreases custom.len(),
{
    if custom.len() > 0 {
        lemma_custom_files_kept(custom.drop_first(), context);
        if let Ok(c) = custom_content(custom[0], context) {
            if let Ok(rest) = merged_custom(custom.drop_first(), context) {
                let out = seq![(custom[0].path@, c, custom[0].mode)] + rest;
                assert forall|i: int| 0 <= i < custom.len() implies {
                    &&& (#[trigger] out[i]).0 == custom[i].path@
                    &&& out[i].2 == custom[i].mode
                    &&& (custom[i].render ==> rendered(custom[i].content@, context) is Ok)
                    &&& out[i].1 == template_output(custom[i], context)
                } by {
                    if i > 0 {
                        assert(out[i] == rest[i - 1]);
                        assert(custom.drop_first()[i - 1] == custom[i]);
                    }
                }
            }
        }
    }
}

/// Whether no file template has a path with the same components as that of
/// the default file `d`.
pub open spec fn not_replaced(custom: Seq<FileTemplate>) -> spec_fn((Seq<char>, Seq<char>)) -> bool {
    |d: (Seq<char>, Seq<char>)|
        forall|j: int|
            0 <= j < custom.len() ==> path_components(#[trigger] custom[j].path@) != path_components(
                d.0,
            )
}

/// The surviving default files are exactly those that no file template
/// replaces, in their order, each rendered and replacing what is there.
pub proof fn lemma_defaults_kept(
    defaults: Seq<(Seq<char>, Seq<char>)>,
    custom: Seq<FileTemplate>,
    context: ContextView,
)
    ensures
        merged_defaults(defaults, custom, context) matches Ok(out) ==> {
            let kept = defaults.filter(not_replaced(custom));
            &&& out.len() == kept.len()
            &&& forall|i: int|
                0 <= i < kept.len() ==> {
                    &&& rendered((#[trigger] kept[i]).1, context) is Ok
                    &&& out[i] == (kept[i].0, rendered(kept[i].1, context)->Ok_0, FileMode::Replace)
                }
        },
    decreases defaults.len(),
{
    if defaults.len() == 0 {
        assert(defaults.filter(not_replaced(custom)) =~= Seq::<(Seq<char>, Seq<char>)>::empty());
    } else {
        let d = defaults[0];
        let rest = defaults.drop_first();
        lemma_defaults_kept(rest, custom, context);
        law_path_taken_means_equal_components(custom, d.0);
        assert(defaults =~= seq![d] + rest);
        Seq::filter_distributes_over_add(seq![d], rest, not_replaced(custom));
        reveal_with_fuel(Seq::filter, 2);
        assert(seq![d].drop_last() =~= Seq::<(Seq<char>, Seq<char>)>::empty());
        let kept = defaults.filter(not_replaced(custom));
        let kept_rest = rest.filter(not_replaced(custom));
        if path_taken(custom, d.0) {
            assert(seq![d].filter(not_replaced(custom)) =~= Seq::<(Seq<char>, Seq<char>)>::empty());
            assert(kept =~= kept_rest);
        } else {
            assert(seq![d].filter(not_replaced(custom)) =~= seq![d]);
            assert(kept =~= seq![d] + kept_rest);
            if let Ok(c) = rendered(d.1, context) {
                if let Ok(tail) = merged_defaults(rest, custom, context) {
                    let out = seq![(d.0, c, FileMode::Replace)] + tail;
                    assert forall|i: int| 0 <= i < kept.len() implies {
                        &&& rendered((#[trigger] kept[i]).1, context) is Ok
                        &&& out[i] == (kept[i].0, rendered(kept[i].1, context)->Ok_0, FileMode::Replace)
                    } by {
                        if i > 0 {
                            assert(kept[i] == kept_rest[i - 1]);
                            assert(out[i] == tail[i - 1]);
                        }
                    }
                }
            }
        }
    }
}

/// Merging keeps every default file that no file template replaces, in order,
/// rendered and replacing what is there, followed by every file template, in
/// order, at its path, in its mode and with its content rendered exactly when
/// it asks for it; nothing else is written.
pub proof fn law_merge_keeps_unreplaced_defaults(
    defaults: Seq<(Seq<char>, Seq<char>)>,
    custom: Seq<FileTemplate>,
    context: ContextView,
)
    requires
        merged(defaults, custom, context) is Ok,
    ensures
        ({
            let out = merged(defaults, custom, context)->Ok_0;
            let kept = defaults.filter(not_replaced(custom));
            &&& out.len() == kept.len() + custom.len()
            &&& forall|i: int|
                0 <= i < kept.len() ==> {
                    &&& rendered((#[trigger] kept[i]).1, context) is Ok
                    &&& out[i] == (kept[i].0, rendered(kept[i].1, context)->Ok_0, FileMode::Replace)
                }
            &&& forall|j: int|
                0 <= j < custom.len() ==> {
                    &&& (#[trigger] out[kept.len() + j]).0 == custom[j].path@
                    &&& out[kept.len() + j].1 == template_output(custom[j], context)
                    &&& out[kept.len() + j].2 == custom[j].mode
                }
        }),
{
    lemma_defaults_kept(defaults, custom, context);
    lemma_custom_files_kept(custom, context);
    let a = merged_defaults(defaults, custom, context)->Ok_0;
    let b = merged_custom(custom, context)->Ok_0;
    let out = a + b;
    let kept = defaults.filter(not_replaced(custom));
    assert(merged(defaults, custom, context)->Ok_0 == out);
    assert forall|i: int| 0 <= i < kept.len() implies out[i] == a[i] by {}
    assert forall|j: int| 0 <= j < custom.len() implies #[trigger] out[kept.len() + j] == b[j] by {}
}

/// A file template overrides the default file with the same path: when the
/// files merge, every file template is written at its path in its mode, after
/// the default files, and no default file is written where a file template is.
pub proof fn law_custom_file_overrides_default(
    defaults: Seq<(Seq<char>, Seq<char>)>,
    custom: Seq<FileTemplate>,
    context: ContextView,
)
    requires
        merged(defaults, custom, context) is Ok,
    ensures
        ({
            let out = merged(defaults, custom, context)->Ok_0;
            let k = out.len() - custom.len();
            &&& 0 <= k
            &&& forall|i: int|
                0 <= i < custom.len() ==> (#[trigger] out[k + i]).0 == custom[i].path@ && out[k
                    + i].2 == custom[i].mode
            &&& forall|i: int| 0 <= i < k ==> !path_taken(custom, (#[trigger] out[i]).0)
        }),
{
    lemma_defaults_not_overridden(defaults, custom, context);
    lemma_custom_files_kept(custom, context);
    let a = merged_defaults(defaults, custom, context)->Ok_0;
    let b = merged_custom(custom, context)->Ok_0;
    let out = a + b;
    assert(merged(defaults, custom, context)->Ok_0 == out);
    assert forall|i: int| 0 <= i < custom.len() implies (#[trigger] out[a.len() + i]).0
        == custom[i].path@ && out[a.len() + i].2 == custom[i].mode by {
        assert(out[a.len() + i] == b[i]);
    }
    assert forall|i: int| 0 <= i < a.len() implies !path_taken(custom, (#[trigger] out[i]).0) by {
        assert(out[i] == a[i]);
    }
}

} // verus!
