//! Filling in `{{ name }}` placeholders.
use vstd::prelude::*;

use crate::error::{plain, Error, ErrorKind, Fault};
use crate::templates::{ContextView, TemplateContext};
use crate::text::{
    chars_of, concat3, find_pair, first_pair, has_pair, lemma_first_pair_after,
    lemma_first_pair_exists, lemma_first_pair_found, lemma_first_pair_is,
    lemma_first_pair_of_prefix, lemma_no_pair, lemma_pairs_of_concat, pair_at, same_text, spans,
    trim, trim_bounds, trim_end, trim_start,
};

verus! {

/// The value that the placeholder `name` stands for, if it names one.
pub open spec fn placeholder_value(name: Seq<char>, context: ContextView) -> Option<Seq<char>> {
    if name == "project_name"@ {
        Some(context.project_name)
    } else if name == "language"@ {
        Some(context.language)
    } else if name == "template_name"@ {
        Some(context.template_name)
    } else {
        None
    }
}

/// The message for a `}}` outside any placeholder.
pub open spec fn unexpected_close_message() -> Seq<char> {
    "unexpected closing placeholder delimiter"@
}

/// The message for a `{{` without its `}}`.
pub open spec fn unterminated_message() -> Seq<char> {
    "unterminated template placeholder"@
}

/// The message for a placeholder that names no value.
pub open spec fn unknown_placeholder_message(name: Seq<char>) -> Seq<char> {
    "unknown template placeholder '{{ "@ + name + " }}'"@
}

/// The result of rendering `input`: the text before the first `{{` must hold
/// no `}}`; the first `}}` after it closes the placeholder, whose name, with
/// surrounding white space removed, must name a value; the value replaces the
/// placeholder and the rest is rendered in turn. Text after the last
/// placeholder must hold no `}}` either.
pub open spec fn rendered(input: Seq<char>, context: ContextView) -> Result<
    Seq<char>,
    Fault,
>
    decreases input.len(),
{
    match first_pair(input, '{') {
        None => if has_pair(input, '}') {
            Err(plain(ErrorKind::UnexpectedClosingDelimiter, unexpected_close_message()))
        } else {
            Ok(input)
        },
        Some(start) => {
            proof {
                lemma_first_pair_found(input, '{');
            }
            if has_pair(input.take(start), '}') {
                Err(plain(ErrorKind::UnexpectedClosingDelimiter, unexpected_close_message()))
            } else {
                let rest = input.skip(start + 2);
                match first_pair(rest, '}') {
                    None => Err(plain(ErrorKind::UnterminatedPlaceholder, unterminated_message())),
                    Some(end) => {
                        proof {
                            lemma_first_pair_found(rest, '}');
                        }
                        let name = trim(rest.take(end));
                        match placeholder_value(name, context) {
                            None => Err(
                                plain(ErrorKind::UnknownPlaceholder, unknown_placeholder_message(name)),
                            ),
                            Some(value) => match rendered(rest.skip(end + 2), context) {
                                Ok(tail) => Ok(input.take(start) + value + tail),
                                Err(f) => Err(f),
                            },
                        }
                    },
                }
            }
        },
    }
}

/// `done` followed by what `rest` renders to, or the error that stops it.
pub open spec fn after(done: Seq<char>, rest: Result<Seq<char>, Fault>) -> Result<
    Seq<char>,
    Fault,
> {
    match rest {
        Ok(t) => Ok(done + t),
        Err(f) => Err(f),
    }
}

/// Replaces each `{{ name }}` placeholder in `input` by the value that
/// `context` gives `name`: `project_name`, `language` or `template_name`.
pub fn render(input: &str, context: &TemplateContext) -> (r: Result<String, Error>)
    ensures
        match r {
            Ok(s) => rendered(input@, context@) == Ok::<_, Fault>(s@),
            Err(e) => rendered(input@, context@) == Err::<Seq<char>, Fault>(e.fault()),
        },
{
    let chars = chars_of(input);
    let n: usize = chars.len();
    let mut pos: usize = 0;
    let mut output = String::new();
    proof {
        assert(input@.skip(0) =~= input@);
        match rendered(input@, context@) {
            Ok(t) => {
                assert(output@ + t =~= t);
            },
            Err(_) => {},
        }
    }
    loop
        invariant
            pos <= n,
            n == chars@.len(),
            chars@ == input@,
            rendered(input@, context@) == after(output@, rendered(input@.skip(pos as int), context@)),
        decreases n - pos,
    {
        let ghost rem = input@.skip(pos as int);
        assert(rem =~= chars@.subrange(pos as int, n as int));
        match find_pair(&chars, pos, n, '{') {
            None => {
                proof {
                    lemma_no_pair(rem, '{');
                }
                if find_pair(&chars, pos, n, '}').is_some() {
                    return Err(
                        Error::new(
                            ErrorKind::UnexpectedClosingDelimiter,
                            "unexpected closing placeholder delimiter".to_owned(),
                        ),
                    );
                }
                let tail = input.substring_char(pos, n);
                output.append(tail);
                return Ok(output);
            },
            Some(k) => {
                let start: usize = pos + k;
                proof {
                    lemma_first_pair_is(rem, '{', k as int);
                    assert(rem.take(k as int) =~= chars@.subrange(pos as int, start as int));
                }
                if find_pair(&chars, pos, start, '}').is_some() {
                    return Err(
                        Error::new(
                            ErrorKind::UnexpectedClosingDelimiter,
                            "unexpected closing placeholder delimiter".to_owned(),
                        ),
                    );
                }
                let open_end: usize = start + 2;
                let ghost rest = rem.skip(k + 2);
                assert(rest =~= chars@.subrange(open_end as int, n as int));
                match find_pair(&chars, open_end, n, '}') {
                    None => {
                        proof {
                            lemma_no_pair(rest, '}');
                        }
                        return Err(
                            Error::new(
                                ErrorKind::UnterminatedPlaceholder,
                                "unterminated template placeholder".to_owned(),
                            ),
                        );
                    },
                    Some(e) => {
                        let close: usize = open_end + e;
                        proof {
                            lemma_first_pair_is(rest, '}', e as int);
                            assert(rest.take(e as int) =~= chars@.subrange(
                                open_end as int,
                                close as int,
                            ));
                        }
                        let (lo, hi): (usize, usize) = trim_bounds(&chars, open_end, close);
                        let name = input.substring_char(lo, hi);
                        let ghost value_spec = placeholder_value(name@, context@);
                        let value = if same_text(name, "project_name") {
                            context.project_name.as_str()
                        } else if same_text(name, "language") {
                            context.language.as_str()
                        } else if same_text(name, "template_name") {
                            context.template_name.as_str()
                        } else {
                            return Err(
                                Error::new(
                                    ErrorKind::UnknownPlaceholder,
                                    concat3("unknown template placeholder '{{ ", name, " }}'"),
                                ),
                            );
                        };
                        let before = input.substring_char(pos, start);
                        let ghost old_output = output@;
                        output.append(before);
                        output.append(value);
                        let next: usize = close + 2;
                        proof {
                            assert(rest.skip(e + 2) =~= input@.skip(next as int));
                            assert(before@ == rem.take(k as int));
                            match rendered(input@.skip(next as int), context@) {
                                Ok(t) => {
                                    assert(old_output + (rem.take(k as int) + value@ + t)
                                        =~= output@ + t);
                                },
                                Err(_) => {},
                            }
                        }
                        pos = next;
                    },
                }
            },
        }
    }
}

/// Text without `{{` and `}}` renders to itself.
pub proof fn law_plain_text_renders_unchanged(input: Seq<char>, context: ContextView)
    requires
        !has_pair(input, '{'),
        !has_pair(input, '}'),
    ensures
        rendered(input, context) == Ok::<_, Fault>(input),
{
    lemma_no_pair(input, '{');
}

/// A lone placeholder `{{` inner `}}`, whose inner text holds no `}}` and
/// does not end in `}`, renders to the value its trimmed name stands for;
/// a name that stands for no value is refused with the name in the message.
pub proof fn law_lone_placeholder(inner: Seq<char>, context: ContextView)
    requires
        !has_pair(inner, '}'),
        inner.len() == 0 || inner.last() != '}',
    ensures
        ({
            let input = seq!['{', '{'] + inner + seq!['}', '}'];
            match placeholder_value(trim(inner), context) {
                Some(value) => rendered(input, context) == Ok::<_, Fault>(value),
                None => rendered(input, context) == Err::<Seq<char>, Fault>(
                    plain(ErrorKind::UnknownPlaceholder, unknown_placeholder_message(trim(inner))),
                ),
            }
        }),
{
    let input = seq!['{', '{'] + inner + seq!['}', '}'];
    assert(pair_at(input, 0, '{'));
    lemma_first_pair_is(input, '{', 0);
    assert(!has_pair(input.take(0), '}'));
    let rest = input.skip(2);
    assert(rest =~= inner + seq!['}', '}']);
    let n = inner.len() as int;
    assert(pair_at(rest, n, '}'));
    assert forall|j: int| 0 <= j < n implies !pair_at(rest, j, '}') by {
        if j + 1 < n {
            if pair_at(rest, j, '}') {
                assert(pair_at(inner, j, '}'));
            }
        } else {
            assert(rest[j] == inner.last());
        }
    }
    lemma_first_pair_is(rest, '}', n);
    assert(rest.take(n) =~= inner);
    let tail = rest.skip(n + 2);
    assert(tail =~= Seq::<char>::empty());
    lemma_no_pair(tail, '{');
    assert(!has_pair(tail, '}'));
    assert(input.take(0) =~= Seq::<char>::empty());
    assert(rendered(tail, context) == Ok::<_, Fault>(tail));
    assert(first_pair(input, '{') == Some(0int));
    assert(first_pair(rest, '}') == Some(n));
    if let Some(value) = placeholder_value(trim(inner), context) {
        assert(input.take(0) + value + tail =~= value);
    }
}

/// Text without a first `cc` holds no `cc` at all.
proof fn lemma_no_first_pair(s: Seq<char>, c: char)
    requires
        first_pair(s, c) is None,
    ensures
        !has_pair(s, c),
{
    if has_pair(s, c) {
        let k = choose|k: int| pair_at(s, k, c);
        lemma_first_pair_exists(s, c, k);
    }
}

/// The joining law when `a` holds no placeholder.
proof fn lemma_concat_plain_prefix(a: Seq<char>, b: Seq<char>, context: ContextView)
    requires
        rendered(a, context) is Ok,
        rendered(b, context) is Ok,
        first_pair(a, '{') is None,
        !spans(a, b, '{'),
        !spans(a, b, '}'),
    ensures
        rendered(a + b, context) == Ok::<_, Fault>(
            rendered(a, context)->Ok_0 + rendered(b, context)->Ok_0,
        ),
{
    let ab = a + b;
    lemma_no_first_pair(a, '{');
    assert(!has_pair(a, '}') && rendered(a, context)->Ok_0 == a);
    lemma_first_pair_found(b, '{');
    match first_pair(b, '{') {
        None => {
            lemma_no_first_pair(b, '{');
            assert(!has_pair(b, '}') && rendered(b, context)->Ok_0 == b);
            lemma_pairs_of_concat(a, b, '{');
            lemma_pairs_of_concat(a, b, '}');
            lemma_no_pair(ab, '{');
        },
        Some(k) => {
            lemma_concat_plain_prefix_placeholder(a, b, context, k);
        },
    }
}

/// The joining law when `a` holds no placeholder and `b` has its first at `k`.
#[verifier::spinoff_prover]
proof fn lemma_concat_plain_prefix_placeholder(a: Seq<char>, b: Seq<char>, context: ContextView, k: int)
    requires
        rendered(b, context) is Ok,
        !has_pair(a, '{'),
        !has_pair(a, '}'),
        first_pair(b, '{') == Some(k),
        !spans(a, b, '{'),
        !spans(a, b, '}'),
    ensures
        rendered(a + b, context) == Ok::<_, Fault>(a + rendered(b, context)->Ok_0),
{
    let ab = a + b;
    lemma_first_pair_found(b, '{');
    lemma_first_pair_after(a, b, '{', k);
    let bt = b.take(k);
    assert(!has_pair(bt, '}'));
    assert(ab.take(a.len() + k) =~= a + bt);
    if k > 0 {
        assert(bt[0] == b[0]);
    }
    lemma_pairs_of_concat(a, bt, '}');
    assert(ab.skip(a.len() + k + 2) =~= b.skip(k + 2));
    let rest = b.skip(k + 2);
    lemma_first_pair_found(rest, '}');
    let e = first_pair(rest, '}')->Some_0;
    let v = placeholder_value(trim(rest.take(e)), context)->Some_0;
    let t = rendered(rest.skip(e + 2), context)->Ok_0;
    assert(rendered(b, context)->Ok_0 == bt + v + t);
    assert(ab.take(a.len() + k) + v + t =~= a + (bt + v + t));
}

/// The joining law when `a` has its first placeholder at `k`.
#[verifier::spinoff_prover]
proof fn lemma_concat_placeholder_prefix(a: Seq<char>, b: Seq<char>, context: ContextView, k: int)
    requires
        rendered(a, context) is Ok,
        first_pair(a, '{') == Some(k),
    ensures
        ({
            let rest_a = a.skip(k + 2);
            let e = first_pair(rest_a, '}')->Some_0;
            let tail = rest_a.skip(e + 2);
            let v = placeholder_value(trim(rest_a.take(e)), context)->Some_0;
            &&& first_pair(rest_a, '}') is Some
            &&& placeholder_value(trim(rest_a.take(e)), context) is Some
            &&& rendered(tail, context) is Ok
            &&& tail.len() < a.len()
            &&& (tail.len() > 0 ==> tail.last() == a.last())
            &&& rendered(a, context)->Ok_0 == a.take(k) + v + rendered(tail, context)->Ok_0
            &&& (rendered(tail + b, context) is Ok ==> rendered(a + b, context) == Ok::<_, Fault>(
                a.take(k) + v + rendered(tail + b, context)->Ok_0,
            ))
        }),
{
    let ab = a + b;
    lemma_first_pair_found(a, '{');
    lemma_first_pair_of_prefix(a, b, '{', k);
    assert(ab.take(k) =~= a.take(k));
    let rest_a = a.skip(k + 2);
    assert(ab.skip(k + 2) =~= rest_a + b);
    lemma_first_pair_found(rest_a, '}');
    let e = first_pair(rest_a, '}')->Some_0;
    lemma_first_pair_of_prefix(rest_a, b, '}', e);
    assert((rest_a + b).take(e) =~= rest_a.take(e));
    let tail = rest_a.skip(e + 2);
    assert((rest_a + b).skip(e + 2) =~= tail + b);
    if tail.len() > 0 {
        assert(tail.last() == a.last());
    }
}

/// Rendering distributes over joining two texts that each render, as long as
/// no `{{` or `}}` is formed across the joint: the rendering of `a + b` is
/// the rendering of `a` followed by that of `b`.
pub proof fn law_render_concatenation(a: Seq<char>, b: Seq<char>, context: ContextView)
    requires
        rendered(a, context) is Ok,
        rendered(b, context) is Ok,
        !spans(a, b, '{'),
        !spans(a, b, '}'),
    ensures
        rendered(a + b, context) == Ok::<_, Fault>(
            rendered(a, context)->Ok_0 + rendered(b, context)->Ok_0,
        ),
    decreases a.len(),
{
    match first_pair(a, '{') {
        None => {
            lemma_concat_plain_prefix(a, b, context);
        },
        Some(k) => {
            lemma_concat_placeholder_prefix(a, b, context, k);
            let rest_a = a.skip(k + 2);
            let e = first_pair(rest_a, '}')->Some_0;
            let tail = rest_a.skip(e + 2);
            let v = placeholder_value(trim(rest_a.take(e)), context)->Some_0;
            law_render_concatenation(tail, b, context);
            let t = rendered(tail, context)->Ok_0;
            let y = rendered(b, context)->Ok_0;
            assert(a.take(k) + v + (t + y) =~= (a.take(k) + v + t) + y);
        },
    }
}

/// Each known placeholder stands for its own value, whatever the context:
/// `{{project_name}}` renders to the project's name, `{{language}}` to the
/// language and `{{template_name}}` to the template's name.
pub proof fn law_placeholders_name_their_values(context: ContextView)
    ensures
        rendered(seq!['{', '{'] + "project_name"@ + seq!['}', '}'], context) == Ok::<_, Fault>(
            context.project_name,
        ),
        rendered(seq!['{', '{'] + "language"@ + seq!['}', '}'], context) == Ok::<_, Fault>(
            context.language,
        ),
        rendered(seq!['{', '{'] + "template_name"@ + seq!['}', '}'], context) == Ok::<_, Fault>(
            context.template_name,
        ),
{
    reveal_strlit("project_name");
    reveal_strlit("language");
    reveal_strlit("template_name");
    lemma_name_is_its_own_trim("project_name"@);
    lemma_name_is_its_own_trim("language"@);
    lemma_name_is_its_own_trim("template_name"@);
    law_lone_placeholder("project_name"@, context);
    law_lone_placeholder("language"@, context);
    law_lone_placeholder("template_name"@, context);
}

/// A name of letters and `_` holds no `}}`, does not end in `}`, and is its own trim.
proof fn lemma_name_is_its_own_trim(name: Seq<char>)
    requires
        name.len() > 0,
        forall|i: int| 0 <= i < name.len() ==> ('a' <= #[trigger] name[i] <= 'z' || name[i] == '_'),
    ensures
        trim(name) == name,
        !has_pair(name, '}'),
        name.last() != '}',
{
    assert(!crate::text::is_white_space(name[0]));
    assert(!crate::text::is_white_space(name.last()));
    assert(trim_start(name) == name);
    assert(trim_end(name) == name);
    if has_pair(name, '}') {
        let k = choose|k: int| pair_at(name, k, '}');
        assert(name[k] == '}');
    }
}

/// Text that closes a placeholder it never opened fails; text that opens a
/// placeholder it never closes fails.
pub proof fn law_unbalanced_delimiters_fail(input: Seq<char>, context: ContextView)
    ensures
        (!has_pair(input, '{') && has_pair(input, '}')) ==> rendered(input, context) == Err::<
            Seq<char>,
            Fault,
        >(plain(ErrorKind::UnexpectedClosingDelimiter, unexpected_close_message())),
        (has_pair(input, '{') && !has_pair(input, '}')) ==> rendered(input, context) == Err::<
            Seq<char>,
            Fault,
        >(plain(ErrorKind::UnterminatedPlaceholder, unterminated_message())),
{
    if !has_pair(input, '{') {
        lemma_no_pair(input, '{');
    }
    if has_pair(input, '{') && !has_pair(input, '}') {
        let k = choose|k: int| pair_at(input, k, '{');
        lemma_first_pair_exists(input, '{', k);
        let s = first_pair(input, '{')->Some_0;
        let head = input.take(s);
        if has_pair(head, '}') {
            let j = choose|j: int| pair_at(head, j, '}');
            assert(pair_at(input, j, '}'));
        }
        let rest = input.skip(s + 2);
        if has_pair(rest, '}') {
            let j = choose|j: int| pair_at(rest, j, '}');
            assert(pair_at(input, s + 2 + j, '}'));
        }
        lemma_no_pair(rest, '}');
    }
}

} // verus!
