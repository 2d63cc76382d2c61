//! The template engine that renders templates: a `minijinja::Environment`,
//! modelled by the templates it holds and by whether undefined values are errors.
use crate::json::{json_model, Json};
use crate::positional::positional_template;
use vstd::prelude::*;

verus! {

#[verifier::external_type_specification]
#[verifier::external_body]
pub struct ExEnvironment<'source>(minijinja::Environment<'source>);

/// The templates an environment holds: each name mapped to its source text.
pub uninterp spec fn env_templates(env: minijinja::Environment<'static>) -> Map<Seq<char>, Seq<char>>;

/// Whether the environment treats every use of an undefined value as an error
/// (`UndefinedBehavior::Strict`).
pub uninterp spec fn env_strict(env: minijinja::Environment<'static>) -> bool;

/// What adding the template `source` under `name` yields: success, or the
/// compile error's kind description and displayed message.
pub uninterp spec fn template_compiles(name: Seq<char>, source: Seq<char>) -> Result<(), (Seq<char>, Seq<char>)>;

/// `tpl` is the template text of some positional template: literal text
/// without `{`, and the expressions `{{ "{" }}`, `{{ "" }}` and `{{ _k }}`.
pub open spec fn positional_shaped(tpl: Seq<char>) -> bool {
    exists|s: Seq<char>| tpl == #[trigger] positional_template(s)
}

/// `c` may start an identifier: an ASCII letter or `_`.
pub open spec fn identifier_start(c: char) -> bool {
    ('a' <= c && c <= 'z') || ('A' <= c && c <= 'Z') || c == '_'
}

/// `x` is an identifier: an ASCII letter or `_`, then ASCII letters, digits
/// and `_`.
pub open spec fn identifier(x: Seq<char>) -> bool {
    &&& x.len() > 0
    &&& identifier_start(x[0])
    &&& forall|i: int| 0 <= i < x.len() ==> identifier_start(#[trigger] x[i]) || ('0' <= x[i] && x[i] <= '9')
}

/// The expressions a simple template may print: a variable named by an
/// identifier, the string `"{"`, or the empty string.
pub open spec fn simple_expression(x: Seq<char>) -> bool {
    identifier(x) || x == seq!['"', '{', '"'] || x == seq!['"', '"']
}

/// The tag `{{ x }}`.
pub open spec fn print_tag(x: Seq<char>) -> Seq<char> {
    seq!['{', '{', ' '] + x + seq![' ', '}', '}']
}

/// A piece of a simple template: one character other than `{`, or a tag
/// `{{ x }}` printing a simple expression.
pub open spec fn simple_piece(p: Seq<char>) -> bool {
    ||| (p.len() == 1 && p[0] != '{')
    ||| (p.len() >= 6 && simple_expression(p.subrange(3, p.len() - 3)) && p == print_tag(p.subrange(3, p.len() - 3)))
}

/// `tpl` is a simple template: literal text without `{`, and tags `{{ x }}`
/// that print a variable or a string literal; no block, comment, function,
/// filter, test or other template is used. Every positional template text is
/// one.
pub open spec fn simple_template(tpl: Seq<char>) -> bool {
    exists|pieces: Seq<Seq<char>>| tpl == pieces.flatten() && forall|i: int| 0 <= i < pieces.len() ==> #[trigger] simple_piece(pieces[i])
}

/// `name` selects no auto-escaping by the default rule, which goes by the
/// name's extension: it starts with `_` or `<` and holds no `.`.
pub open spec fn unescaped_name(name: Seq<char>) -> bool {
    &&& name.len() > 0
    &&& (name[0] == '_' || name[0] == '<')
    &&& forall|i: int| 0 <= i < name.len() ==> #[trigger] name[i] != '.'
}

/// What compiling the template text `tpl` and rendering it (`Template::render`)
/// with the context `ctx` yields, in an environment created by
/// `Environment::new` whose undefined values are errors when `strict`, under a
/// name that selects no auto-escaping: the rendered text, or the description
/// of the error's kind. Applied to simple templates only (`simple_template`,
/// which covers positional template texts): they use no function (so no
/// `debug()`), filter, test, block or other template, so the result depends
/// on nothing else.
pub uninterp spec fn positional_rendering(strict: bool, tpl: Seq<char>, ctx: Json) -> Result<Seq<char>, Seq<char>>;

/// A rendering result agrees with `p`: the same text, or an error whose kind
/// has `p`'s description.
pub open spec fn agrees_with(r: Result<String, (String, String)>, p: Result<Seq<char>, Seq<char>>) -> bool {
    match r {
        Ok(s) => p == Ok::<Seq<char>, Seq<char>>(s@),
        Err((k, _)) => p == Err::<Seq<char>, Seq<char>>(k@),
    }
}

/// A rendering result of the wrappers below, by the views of its parts.
pub open spec fn outcome_view(r: Result<String, (String, String)>) -> Result<Seq<char>, (Seq<char>, Seq<char>)> {
    match r {
        Ok(s) => Ok(s@),
        Err((k, m)) => Err((k@, m@)),
    }
}

/// `Environment::new`: no templates, the default (lenient) undefined behaviour.
#[verifier::external_body]
pub(crate) fn env_new() -> (r: minijinja::Environment<'static>)
    ensures
        env_templates(r) =~= Map::empty(),
        !env_strict(r),
{
    minijinja::Environment::new()
}

/// `Environment::set_undefined_behavior(UndefinedBehavior::Strict)`; the
/// templates are kept.
#[verifier::external_body]
pub(crate) fn env_set_strict(env: &mut minijinja::Environment<'static>)
    ensures
        env_templates(*final(env)) == env_templates(*old(env)),
        env_strict(*final(env)),
{
    env.set_undefined_behavior(minijinja::UndefinedBehavior::Strict);
}

/// `Environment::add_template_owned`. On success the template is stored under
/// `name`; on a compile error no other template changes, and one stored under
/// `name` may be dropped. A compile error of a simple template under
/// an unescaped name is the error any rendering of it gives (compiling does
/// not depend on the name but for the message).
#[verifier::external_body]
pub(crate) fn env_add_template(env: &mut minijinja::Environment<'static>, name: String, source: String) -> (r: Result<(), (String, String)>)
    ensures
        r matches Err((k, _)) ==> (simple_template(source@) && unescaped_name(name@) ==> forall|strict: bool, ctx: Json|
            #[trigger] positional_rendering(strict, source@, ctx) == Err::<Seq<char>, Seq<char>>(k@)),
        env_strict(*final(env)) == env_strict(*old(env)),
        match r {
            Ok(()) => template_compiles(name@, source@) == Ok::<(), (Seq<char>, Seq<char>)>(())
                && env_templates(*final(env)) == env_templates(*old(env)).insert(name@, source@),
            Err((k, m)) => template_compiles(name@, source@) == Err::<(), (Seq<char>, Seq<char>)>((k@, m@))
                && (forall|n: Seq<char>| n != name@ ==> (#[trigger] env_templates(*final(env)).contains_key(n)
                    <==> env_templates(*old(env)).contains_key(n)))
                && (forall|n: Seq<char>| #[trigger] env_templates(*final(env)).contains_key(n)
                    ==> env_templates(*old(env)).contains_key(n)
                    && env_templates(*final(env))[n] == env_templates(*old(env))[n]),
        },
{
    match env.add_template_owned(name, source) {
        Ok(()) => Ok(()),
        Err(e) => Err((e.kind().to_string(), e.to_string())),
    }
}

/// `Environment::remove_template`.
#[verifier::external_body]
pub(crate) fn env_remove_template(env: &mut minijinja::Environment<'static>, name: &str)
    ensures
        env_strict(*final(env)) == env_strict(*old(env)),
        env_templates(*final(env)) == env_templates(*old(env)).remove(name@),
{
    env.remove_template(name);
}

/// When compiling failed (`c`), the rendering result is that failure.
pub open spec fn compile_failure_is(r: Result<String, (String, String)>, c: Result<(), (Seq<char>, Seq<char>)>) -> bool {
    c matches Err(f) ==> outcome_view(r) == Err::<Seq<char>, (Seq<char>, Seq<char>)>(f)
}

/// The name `render_str` compiles its template under: `<string>`.
pub open spec fn string_template_name() -> Seq<char> {
    seq!['<', 's', 't', 'r', 'i', 'n', 'g', '>']
}

/// `Environment::render_str`, which compiles `source` as a template named
/// `<string>` (through the same `CompiledTemplate::new` as adding a template)
/// and renders it with `ctx`. A compile error is the result; otherwise the
/// rendering is stated for simple templates only: in general the
/// rendered text is not a function of the arguments (the built-in `debug()`
/// prints the environment, whose templates are walked in the order of a
/// per-instance seeded hash map).
#[verifier::external_body]
pub(crate) fn env_render_str(env: &minijinja::Environment<'static>, source: &str, ctx: &serde_json::Value) -> (r: Result<String, (String, String)>)
    ensures
        compile_failure_is(r, template_compiles(string_template_name(), source@)),
        r is Ok ==> template_compiles(string_template_name(), source@) is Ok,
        simple_template(source@) ==> agrees_with(r, positional_rendering(env_strict(*env), source@, json_model(*ctx))),
{
    match env.render_str(source, ctx) {
        Ok(s) => Ok(s),
        Err(e) => Err((e.kind().to_string(), e.to_string())),
    }
}

/// The characters that Rust's `Debug` formatting of a string writes for `c`,
/// for the characters it is stated for (see `debug_escapable`): a backslash
/// before `"` and `\`, `\n`, `\r`, `\t` for the line breaks and the tab, and
/// the character itself otherwise.
pub open spec fn debug_char(c: char) -> Seq<char> {
    if c == '"' {
        seq!['\\', '"']
    } else if c == '\\' {
        seq!['\\', '\\']
    } else if c == '\n' {
        seq!['\\', 'n']
    } else if c == '\r' {
        seq!['\\', 'r']
    } else if c == '\t' {
        seq!['\\', 't']
    } else {
        seq![c]
    }
}

/// The characters between the quotes of the `Debug` text of `s`.
pub open spec fn debug_escaped(s: Seq<char>) -> Seq<char>
    decreases s.len(),
{
    if s.len() == 0 {
        seq![]
    } else {
        debug_char(s[0]) + debug_escaped(s.skip(1))
    }
}

/// `s` holds only printable ASCII characters, line breaks and tabs: those for
/// which `debug_char` is the `Debug` text (other control characters and
/// non-ASCII characters are escaped by rules that take Unicode tables).
pub open spec fn debug_escapable(s: Seq<char>) -> bool {
    forall|i: int| 0 <= i < s.len() ==> {
        let c = #[trigger] s[i];
        (' ' <= c && c <= '~') || c == '\n' || c == '\r' || c == '\t'
    }
}

/// The message of the error for a template `name` that is not held:
/// `template not found: template "name" does not exist`, the name in `Debug` form.
pub open spec fn not_found_message(name: Seq<char>) -> Seq<char> {
    "template not found: template \""@ + debug_escaped(name) + "\" does not exist"@
}

/// `Environment::get_template(name)` followed by `Template::render(ctx)`. A name
/// that the environment does not hold (and that no loader supplies: none is
/// set) gives a "template not found" error whose message quotes the name in
/// `Debug` form; its text is stated where `debug_escaped` gives that form.
/// The rendering of a template the environment holds is stated for simple
/// templates under unescaped names only (see `env_render_str`).
#[verifier::external_body]
pub(crate) fn env_render_template(env: &minijinja::Environment<'static>, name: &str, ctx: &serde_json::Value) -> (r: Result<String, (String, String)>)
    ensures
        r is Ok ==> env_templates(*env).contains_key(name@),
        env_templates(*env).contains_key(name@) && unescaped_name(name@) && simple_template(env_templates(*env)[name@])
            ==> agrees_with(r, positional_rendering(env_strict(*env), env_templates(*env)[name@], json_model(*ctx))),
        r matches Err((k, m)) ==> (env_templates(*env).contains_key(name@) || (k@ == "template not found"@
            && (debug_escapable(name@) ==> m@ == not_found_message(name@)))),
{
    let template = match env.get_template(name) {
        Ok(t) => t,
        Err(e) => return Err((e.kind().to_string(), e.to_string())),
    };
    match template.render(ctx) {
        Ok(s) => Ok(s),
        Err(e) => Err((e.kind().to_string(), e.to_string())),
    }
}

} // verus!
