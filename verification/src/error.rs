//! Error codes registered with their messages or templates, and the errors
//! that carry them.
use crate::jinja::{debug_escapable, env_add_template, env_new, not_found_message, env_render_template, env_set_strict, env_strict, env_templates, template_compiles};
use crate::json::{json_model, json_text, json_to_text, Json};
use crate::template::{render_result, result_view};
use crate::template_error::{failure_view, kind_of_description, ErrorKind, TemplateError};
use crate::text::str_eq;
use vstd::prelude::*;
use vstd::string::StringExecFns;

verus! {

/// How a registered error code is displayed.
pub enum ErrRegistrationKind {
    /// A fixed message.
    Raw { err_msg: &'static str },
    /// A template rendered with the error's arguments.
    Template { err_tpl: &'static str },
}

/// An error code and how errors with it are displayed.
pub struct ErrRegistration {
    pub err_code: &'static str,
    pub kind: ErrRegistrationKind,
}

/// Why registering error codes failed.
#[derive(Debug)]
pub enum InitError {
    /// The code was registered before.
    DuplicateErrCode { err_code: String },
    /// The template of the code does not compile.
    TemplateRegistration { err_code: String, error: TemplateError },
}

/// `InitError` as plain values.
pub enum InitFailure {
    DuplicateErrCode(Seq<char>),
    TemplateRegistration(Seq<char>, (ErrorKind, Seq<char>)),
}

impl InitError {
    pub open spec fn view_failure(&self) -> InitFailure {
        match self {
            InitError::DuplicateErrCode { err_code } => InitFailure::DuplicateErrCode(err_code@),
            InitError::TemplateRegistration { err_code, error } => InitFailure::TemplateRegistration(err_code@, error.view_parts()),
        }
    }
}

/// Some code in `codes` is `code`.
pub open spec fn code_in(codes: Seq<Seq<char>>, code: Seq<char>) -> bool {
    exists|j: int| 0 <= j < codes.len() && codes[j] == code
}

/// The codes of `regs`, in order.
pub open spec fn registration_codes(regs: Seq<ErrRegistration>) -> Seq<Seq<char>> {
    Seq::new(regs.len(), |i: int| regs[i].err_code@)
}

/// What registering `regs` in order yields: the templates by code, or the
/// failure at the first registration that repeats an earlier code or whose
/// template does not compile.
pub open spec fn registration_outcome(regs: Seq<ErrRegistration>) -> Result<Map<Seq<char>, Seq<char>>, InitFailure>
    decreases regs.len(),
{
    if regs.len() == 0 {
        Ok(Map::empty())
    } else {
        match registration_outcome(regs.drop_last()) {
            Err(f) => Err(f),
            Ok(t) => {
                let code = regs.last().err_code@;
                if code_in(registration_codes(regs.drop_last()), code) {
                    Err(InitFailure::DuplicateErrCode(code))
                } else {
                    match regs.last().kind {
                        ErrRegistrationKind::Raw { .. } => Ok(t),
                        ErrRegistrationKind::Template { err_tpl } => match template_compiles(code, err_tpl@) {
                            Err(f) => Err(InitFailure::TemplateRegistration(code, failure_view(f))),
                            Ok(()) => Ok(t.insert(code, err_tpl@)),
                        },
                    }
                }
            },
        }
    }
}

/// Whether some code in `seen` equals `code`.
pub fn contains_code(seen: &Vec<&'static str>, code: &str) -> (r: bool)
    ensures
        r == exists|j: int| 0 <= j < seen@.len() && seen@[j]@ == code@,
{
    let mut i: usize = 0;
    while i < seen.len()
        invariant
            i <= seen@.len(),
            forall|j: int| 0 <= j < i ==> seen@[j]@ != code@,
        decreases seen@.len() - i,
    {
        if str_eq(seen[i], code) {
            return true;
        }
        i = i + 1;
    }
    false
}

/// The templates of the registered error codes, in an environment whose
/// undefined values are errors.
pub struct ErrorTemplates {
    pub(crate) env: minijinja::Environment<'static>,
}

impl ErrorTemplates {
    /// The templates, by error code.
    pub closed spec fn templates(&self) -> Map<Seq<char>, Seq<char>> {
        env_templates(self.env)
    }

    /// The environment is strict.
    #[verifier::type_invariant]
    spec fn strict(&self) -> bool {
        env_strict(self.env)
    }

    /// Undefined values are errors in the templates' environment.
    pub closed spec fn undefined_is_error(&self) -> bool {
        env_strict(self.env)
    }

    /// The templates of a strict environment.
    pub(crate) fn from_env(env: minijinja::Environment<'static>) -> (r: ErrorTemplates)
        requires
            env_strict(env),
        ensures
            r.templates() == env_templates(env),
            r.undefined_is_error(),
    {
        ErrorTemplates { env }
    }

    /// Renders the template registered for `code` with `args`; a code with no
    /// template gives a "template not found" error. What a registered template
    /// renders is not stated (see `template`).
    pub fn render(&self, code: &str, args: &serde_json::Value) -> (r: Result<String, TemplateError>)
        ensures
            r is Ok ==> self.templates().contains_key(code@),
            !self.templates().contains_key(code@) ==> (r matches Err(e) && e.kind == ErrorKind::TemplateNotFound
                && (debug_escapable(code@) ==> e.message@ == not_found_message(code@))),
    {
        let rendered = env_render_template(&self.env, code, args);
        proof {
            reveal_strlit("not a primitive");
            reveal_strlit("not a key type");
            reveal_strlit("invalid operation");
            reveal_strlit("syntax error");
            reveal_strlit("template not found");
            if !self.templates().contains_key(code@) {
                let f = rendered->Err_0;
                assert(f.0@ == "template not found"@);
                assert(kind_of_description(f.0@) == ErrorKind::TemplateNotFound);
            }
        }
        render_result(rendered)
    }
}

/// Registers the error codes of `registrations` in order: a code may be
/// registered once, and each template is compiled under its code.
fn register_all(registrations: &[ErrRegistration]) -> (r: Result<ErrorTemplates, InitError>)
    ensures
        match registration_outcome(registrations@) {
            Ok(t) => r matches Ok(templates) && templates.templates() == t && templates.undefined_is_error(),
            Err(f) => r matches Err(e) && e.view_failure() == f,
        },
{
    let mut env = env_new();
    env_set_strict(&mut env);
    let mut seen: Vec<&'static str> = Vec::new();
    let n = registrations.len();
    let mut i: usize = 0;
    assert(registrations@.take(0) =~= Seq::<ErrRegistration>::empty());
    while i < n
        invariant
            n == registrations@.len(),
            i <= n,
            env_strict(env),
            registration_outcome(registrations@.take(i as int)) == Ok::<Map<Seq<char>, Seq<char>>, InitFailure>(env_templates(env)),
            seen@.len() == i,
            forall|j: int| 0 <= j < i ==> #[trigger] seen@[j]@ == registrations@[j].err_code@,
        decreases n - i,
    {
        let reg = &registrations[i];
        let ghost prefix = registrations@.take(i as int);
        let ghost next = registrations@.take(i + 1);
        assert(next.drop_last() =~= prefix);
        assert(next.last() == *reg);
        assert(registration_codes(prefix) =~= seen@.map_values(|c: &'static str| c@));
        if contains_code(&seen, reg.err_code) {
            let code = String::from_str(reg.err_code);
            proof {
                let j = choose|j: int| 0 <= j < seen@.len() && seen@[j]@ == reg.err_code@;
                assert(registration_codes(prefix)[j] == reg.err_code@);
                assert(code_in(registration_codes(prefix), reg.err_code@));
                lemma_failure_persists(registrations@, i + 1);
            }
            return Err(InitError::DuplicateErrCode { err_code: code });
        }
        seen.push(reg.err_code);
        match reg.kind {
            ErrRegistrationKind::Raw { .. } => {},
            ErrRegistrationKind::Template { err_tpl } => {
                assert(!env_templates(env).contains_key(reg.err_code@)) by {
                    lemma_registered_codes(prefix, env_templates(env), reg.err_code@);
                }
                match env_add_template(&mut env, String::from_str(reg.err_code), String::from_str(err_tpl)) {
                    Ok(()) => {},
                    Err(f) => {
                        proof { lemma_failure_persists(registrations@, i + 1); }
                        return Err(InitError::TemplateRegistration {
                            err_code: String::from_str(reg.err_code),
                            error: TemplateError::from_failure(f),
                        });
                    },
                }
            },
        }
        i = i + 1;
    }
    assert(registrations@.take(n as int) =~= registrations@);
    Ok(ErrorTemplates::from_env(env))
}

/// Whether the error codes of `registrations` can be registered: the first
/// registration that repeats an earlier code or whose template does not
/// compile gives the error.
pub fn check_registrations(registrations: &[ErrRegistration]) -> (r: Result<(), InitError>)
    ensures
        match registration_outcome(registrations@) {
            Ok(_) => r is Ok,
            Err(f) => r matches Err(e) && e.view_failure() == f,
        },
{
    match register_all(registrations) {
        Ok(_) => Ok(()),
        Err(e) => Err(e),
    }
}

/// The templates of the error codes of `registrations`, which can be
/// registered (`check_registrations`).
pub fn init(registrations: &[ErrRegistration]) -> (r: ErrorTemplates)
    requires
        registration_outcome(registrations@) is Ok,
    ensures
        r.templates() == registration_outcome(registrations@)->Ok_0,
        r.undefined_is_error(),
{
    match register_all(registrations) {
        Ok(t) => t,
        Err(_) => vstd::pervasive::unreached(),
    }
}

/// The templates of the error codes of `registrations`, or the error of the
/// first registration that cannot be made.
pub fn try_init(registrations: &[ErrRegistration]) -> (r: Result<ErrorTemplates, InitError>)
    ensures
        match registration_outcome(registrations@) {
            Ok(t) => r matches Ok(templates) && templates.templates() == t && templates.undefined_is_error(),
            Err(f) => r matches Err(e) && e.view_failure() == f,
        },
{
    match check_registrations(registrations) {
        Ok(()) => Ok(init(registrations)),
        Err(e) => Err(e),
    }
}

/// Once a prefix of the registrations fails, registering all of them fails the same way.
proof fn lemma_failure_persists(regs: Seq<ErrRegistration>, k: int)
    requires
        0 <= k <= regs.len(),
        registration_outcome(regs.take(k)) is Err,
    ensures
        registration_outcome(regs) == registration_outcome(regs.take(k)),
    decreases regs.len() - k,
{
    if k < regs.len() {
        assert(regs.take(k + 1).drop_last() =~= regs.take(k));
        lemma_failure_persists(regs, k + 1);
    } else {
        assert(regs.take(k) =~= regs);
    }
}

/// Every template that registering `regs` stores is stored under one of their codes.
proof fn lemma_registered_codes(regs: Seq<ErrRegistration>, t: Map<Seq<char>, Seq<char>>, code: Seq<char>)
    requires
        registration_outcome(regs) == Ok::<Map<Seq<char>, Seq<char>>, InitFailure>(t),
        !code_in(registration_codes(regs), code),
    ensures
        !t.contains_key(code),
    decreases regs.len(),
{
    if regs.len() > 0 {
        let prev = regs.drop_last();
        let t0 = registration_outcome(prev)->Ok_0;
        assert(registration_codes(prev) =~= registration_codes(regs).drop_last());
        assert(registration_codes(regs).last() == regs.last().err_code@);
        if code_in(registration_codes(prev), code) {
            let j = choose|j: int| 0 <= j < registration_codes(prev).len() && registration_codes(prev)[j] == code;
            assert(registration_codes(regs)[j] == code);
        }
        lemma_registered_codes(prev, t0, code);
    }
}

/// An error with a fixed message.
#[derive(Debug)]
pub struct RawErr {
    pub err_code: &'static str,
    pub err_msg: &'static str,
}

impl RawErr {
    /// The text the error displays: its message.
    pub fn message(&self) -> (r: String)
        ensures
            r@ == self.err_msg@,
    {
        String::from_str(self.err_msg)
    }
}

/// An error whose message is its code's template rendered with its arguments.
#[derive(Debug)]
pub struct FmtErr {
    pub err_code: &'static str,
    pub err_tpl: &'static str,
    pub err_args: serde_json::Value,
}

/// The text shown when an error's template cannot be rendered.
pub open spec fn render_failed_message(code: Seq<char>, tpl: Seq<char>, args: Json, cause: Seq<char>) -> Seq<char> {
    "[render failed. err_code: "@ + code + ", err_tpl: "@ + tpl + ", err_args: "@ + json_text(args) + ", cause: "@
        + cause + "]"@
}

/// The text an error with `code`, `tpl` and `args` displays for the rendering
/// result `rendered`: the text, or the render-failed text with the error's
/// message as the cause.
pub open spec fn fmt_display(code: Seq<char>, tpl: Seq<char>, args: Json, rendered: Result<Seq<char>, (ErrorKind, Seq<char>)>) -> Seq<char> {
    match rendered {
        Ok(s) => s,
        Err((_, m)) => render_failed_message(code, tpl, args, m),
    }
}

impl FmtErr {
    /// The text the error displays for the result of rendering its template:
    /// the rendered text, or the render-failed text with the error's message
    /// as the cause.
    pub fn display_text(&self, rendered: Result<String, TemplateError>) -> (r: String)
        ensures
            r@ == fmt_display(self.err_code@, self.err_tpl@, json_model(self.err_args), result_view(rendered)),
    {
        match rendered {
            Ok(s) => s,
            Err(e) => {
                let cause = e.message;
                let mut out = String::from_str("[render failed. err_code: ");
                out.append(self.err_code);
                out.append(", err_tpl: ");
                out.append(self.err_tpl);
                out.append(", err_args: ");
                let args_text = json_to_text(&self.err_args);
                out.append(args_text.as_str());
                out.append(", cause: ");
                out.append(cause.as_str());
                out.append("]");
                assert(out@ =~= render_failed_message(self.err_code@, self.err_tpl@, json_model(self.err_args), cause@));
                out
            },
        }
    }

    /// The text the error displays: `display_text` of rendering the template
    /// registered for its code with its arguments. For a code with no template
    /// the cause is the "template not found" error.
    pub fn message(&self, templates: &ErrorTemplates) -> (r: String)
        ensures
            !templates.templates().contains_key(self.err_code@) && debug_escapable(self.err_code@) ==> r@
                == render_failed_message(self.err_code@, self.err_tpl@, json_model(self.err_args), not_found_message(self.err_code@)),
            !templates.templates().contains_key(self.err_code@) ==> exists|cause: Seq<char>|
                r@ == render_failed_message(self.err_code@, self.err_tpl@, json_model(self.err_args), cause),
            exists|rendered: Result<Seq<char>, (ErrorKind, Seq<char>)>| (rendered is Ok ==> templates.templates().contains_key(
                self.err_code@)) && r@ == fmt_display(self.err_code@, self.err_tpl@, json_model(self.err_args), rendered),
    {
        self.display_text(templates.render(self.err_code, &self.err_args))
    }
}

/// Errors of the system itself, with fixed messages.
pub enum BaseRawErrs {
    /// Generic system error
    SysRawErr,
}

impl BaseRawErrs {
    /// The error of this variant: code `99909999` (prefix `999`, number
    /// `09999`), message `System Error`.
    pub fn to_err(&self) -> (r: RawErr)
        ensures
            r.err_code@ == "99909999"@,
            r.err_msg@ == "System Error"@,
    {
        match self {
            BaseRawErrs::SysRawErr => RawErr { err_code: "99909999", err_msg: "System Error" },
        }
    }

    /// The registrations of this enum's codes.
    pub fn registrations() -> (r: Vec<ErrRegistration>)
        ensures
            r@.len() == 1,
            r@[0].err_code@ == "99909999"@,
            r@[0].kind matches ErrRegistrationKind::Raw { err_msg } && err_msg@ == "System Error"@,
    {
        let mut v = Vec::new();
        v.push(ErrRegistration { err_code: "99909999", kind: ErrRegistrationKind::Raw { err_msg: "System Error" } });
        v
    }
}

/// Errors of the system itself, with a cause.
pub enum BaseFmtErrs {
    /// Generic system error with cause
    SysFmtErr,
}

impl BaseFmtErrs {
    /// The error of this variant with `args`: code `99999999` (prefix `999`,
    /// number `99999`), template `System Error, cause: {{ cause }}`.
    pub fn to_err(&self, args: serde_json::Value) -> (r: FmtErr)
        ensures
            r.err_code@ == "99999999"@,
            r.err_tpl@ == "System Error, cause: {{ cause }}"@,
            json_model(r.err_args) == json_model(args),
    {
        match self {
            BaseFmtErrs::SysFmtErr => FmtErr {
                err_code: "99999999",
                err_tpl: "System Error, cause: {{ cause }}",
                err_args: args,
            },
        }
    }

    /// The registrations of this enum's codes.
    pub fn registrations() -> (r: Vec<ErrRegistration>)
        ensures
            r@.len() == 1,
            r@[0].err_code@ == "99999999"@,
            r@[0].kind matches ErrRegistrationKind::Template { err_tpl } && err_tpl@ == "System Error, cause: {{ cause }}"@,
    {
        let mut v = Vec::new();
        v.push(ErrRegistration {
            err_code: "99999999",
            kind: ErrRegistrationKind::Template { err_tpl: "System Error, cause: {{ cause }}" },
        });
        v
    }
}

/// What registration stores is what an error with the code renders: after a
/// successful registration, every code registered with a template holds that
/// template, and a code registered with a fixed message holds none.
pub proof fn law_registered_templates(regs: Seq<ErrRegistration>, i: int)
    requires
        registration_outcome(regs) is Ok,
        0 <= i < regs.len(),
    ensures
        match regs[i].kind {
            ErrRegistrationKind::Template { err_tpl } => registration_outcome(regs)->Ok_0.contains_key(regs[i].err_code@)
                && registration_outcome(regs)->Ok_0[regs[i].err_code@] == err_tpl@,
            ErrRegistrationKind::Raw { .. } => !registration_outcome(regs)->Ok_0.contains_key(regs[i].err_code@),
        },
    decreases regs.len(),
{
    let last = regs.len() - 1;
    let prev = regs.drop_last();
    let t0 = registration_outcome(prev)->Ok_0;
    law_registered_codes_unique(regs);
    if i < last {
        law_registered_templates(prev, i);
        assert(regs[i] == prev[i]);
        assert(regs[i].err_code@ != regs[last].err_code@);
    } else {
        lemma_registered_codes(prev, t0, regs[i].err_code@);
    }
}

/// Registration succeeds only when every code is registered once.
pub proof fn law_registered_codes_unique(regs: Seq<ErrRegistration>)
    requires
        registration_outcome(regs) is Ok,
    ensures
        forall|i: int, j: int| 0 <= i < regs.len() && 0 <= j < regs.len() && i != j
            ==> #[trigger] regs[i].err_code@ != #[trigger] regs[j].err_code@,
    decreases regs.len(),
{
    if regs.len() > 0 {
        let prev = regs.drop_last();
        law_registered_codes_unique(prev);
        assert forall|i: int, j: int| 0 <= i < regs.len() && 0 <= j < regs.len() && i != j
            implies #[trigger] regs[i].err_code@ != #[trigger] regs[j].err_code@ by {
            if i < prev.len() && j < prev.len() {
                assert(regs[i] == prev[i] && regs[j] == prev[j]);
            } else if i < prev.len() {
                assert(registration_codes(prev)[i] == regs[i].err_code@);
            } else {
                assert(registration_codes(prev)[j] == regs[j].err_code@);
            }
        }
    }
}

/// Every template registration compiles under its code.
pub open spec fn templates_compile(regs: Seq<ErrRegistration>) -> bool {
    forall|i: int| 0 <= i < regs.len() ==> match (#[trigger] regs[i]).kind {
        ErrRegistrationKind::Template { err_tpl } => template_compiles(regs[i].err_code@, err_tpl@) is Ok,
        ErrRegistrationKind::Raw { .. } => true,
    }
}

/// Registration is refused only for a repeated code or a template that does
/// not compile: registrations with pairwise distinct codes whose templates all
/// compile are accepted, whatever their messages and templates are.
pub proof fn law_distinct_codes_are_accepted(regs: Seq<ErrRegistration>)
    requires
        forall|i: int, j: int| 0 <= i < j < regs.len() ==> #[trigger] regs[i].err_code@ != #[trigger] regs[j].err_code@,
        templates_compile(regs),
    ensures
        registration_outcome(regs) is Ok,
    decreases regs.len(),
{
    if regs.len() > 0 {
        let prev = regs.drop_last();
        let last = regs.len() - 1;
        assert forall|i: int, j: int| 0 <= i < j < prev.len() implies #[trigger] prev[i].err_code@ != #[trigger] prev[j].err_code@ by {
            assert(prev[i] == regs[i] && prev[j] == regs[j]);
        }
        assert forall|i: int| 0 <= i < prev.len() implies match (#[trigger] prev[i]).kind {
            ErrRegistrationKind::Template { err_tpl } => template_compiles(prev[i].err_code@, err_tpl@) is Ok,
            ErrRegistrationKind::Raw { .. } => true,
        } by {
            assert(prev[i] == regs[i]);
        }
        law_distinct_codes_are_accepted(prev);
        if code_in(registration_codes(prev), regs.last().err_code@) {
            let j = choose|j: int| 0 <= j < registration_codes(prev).len() && registration_codes(prev)[j] == regs.last().err_code@;
            assert(prev[j] == regs[j]);
            assert(regs[j].err_code@ != regs[last].err_code@);
        }
        assert(regs[last] == regs.last());
    }
}

/// A refused registration names its cause truly: a duplicate code is the code
/// of two registrations, and a template error is the compile error of a
/// registration's template under its code.
pub proof fn law_refusal_has_a_cause(regs: Seq<ErrRegistration>)
    requires
        registration_outcome(regs) is Err,
    ensures
        match registration_outcome(regs)->Err_0 {
            InitFailure::DuplicateErrCode(c) => exists|i: int, j: int| 0 <= i < j < regs.len()
                && #[trigger] regs[i].err_code@ == c && #[trigger] regs[j].err_code@ == c,
            InitFailure::TemplateRegistration(c, e) => exists|i: int| 0 <= i < regs.len() && #[trigger] regs[i].err_code@ == c
                && (regs[i].kind matches ErrRegistrationKind::Template { err_tpl } && template_compiles(c, err_tpl@) matches Err(g)
                && failure_view(g) == e),
        },
    decreases regs.len(),
{
    let prev = regs.drop_last();
    let last = regs.len() - 1;
    if registration_outcome(prev) is Err {
        law_refusal_has_a_cause(prev);
        match registration_outcome(prev)->Err_0 {
            InitFailure::DuplicateErrCode(c) => {
                let (i, j) = choose|i: int, j: int| 0 <= i < j < prev.len()
                    && #[trigger] prev[i].err_code@ == c && #[trigger] prev[j].err_code@ == c;
                assert(prev[i] == regs[i] && prev[j] == regs[j]);
            },
            InitFailure::TemplateRegistration(c, e) => {
                let i = choose|i: int| 0 <= i < prev.len() && #[trigger] prev[i].err_code@ == c
                    && (prev[i].kind matches ErrRegistrationKind::Template { err_tpl } && template_compiles(c, err_tpl@) matches Err(g)
                    && failure_view(g) == e);
                assert(prev[i] == regs[i]);
            },
        }
    } else {
        assert(regs[last] == regs.last());
        if code_in(registration_codes(prev), regs.last().err_code@) {
            let j = choose|j: int| 0 <= j < registration_codes(prev).len() && registration_codes(prev)[j] == regs.last().err_code@;
            assert(prev[j] == regs[j]);
            assert(regs[j].err_code@ == regs.last().err_code@ && regs[last].err_code@ == regs.last().err_code@);
        }
    }
}

} // verus!
