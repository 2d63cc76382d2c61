//! Error codes and templates registered in two separate lists: templates
//! first, then the codes, each of which may be registered once.
use crate::error::{code_in, contains_code, ErrorTemplates, InitError, InitFailure};
use crate::jinja::{env_add_template, env_new, env_set_strict, env_strict, env_templates, template_compiles};
use crate::json::{json_model, json_text, json_to_text, Json};
use crate::template::result_view;
use crate::template_error::{failure_view, ErrorKind, TemplateError};
use vstd::prelude::*;
use vstd::string::StringExecFns;

verus! {

/// A template registered for an error code.
pub struct TemplateRegistration {
    pub err_code: &'static str,
    pub err_tpl: &'static str,
}

/// An error code in use.
pub struct ErrCodeRegistration {
    pub err_code: &'static str,
}

/// What registering the templates `regs` in order yields: the templates by
/// code (a later template replaces an earlier one with the same code), or the
/// failure of the first template that does not compile.
pub open spec fn template_registration_outcome(regs: Seq<TemplateRegistration>) -> Result<Map<Seq<char>, Seq<char>>, InitFailure>
    decreases regs.len(),
{
    if regs.len() == 0 {
        Ok(Map::empty())
    } else {
        match template_registration_outcome(regs.drop_last()) {
            Err(f) => Err(f),
            Ok(t) => {
                let r = regs.last();
                match template_compiles(r.err_code@, r.err_tpl@) {
                    Err(f) => Err(InitFailure::TemplateRegistration(r.err_code@, failure_view(f))),
                    Ok(()) => Ok(t.insert(r.err_code@, r.err_tpl@)),
                }
            },
        }
    }
}

/// The first code in `codes` that repeats an earlier one.
pub open spec fn first_duplicate(codes: Seq<Seq<char>>) -> Option<Seq<char>>
    decreases codes.len(),
{
    if codes.len() == 0 {
        None
    } else {
        match first_duplicate(codes.drop_last()) {
            Some(c) => Some(c),
            None => if code_in(codes.drop_last(), codes.last()) {
                Some(codes.last())
            } else {
                None
            },
        }
    }
}

/// The codes of `regs`, in order.
pub open spec fn code_list(regs: Seq<ErrCodeRegistration>) -> Seq<Seq<char>> {
    Seq::new(regs.len(), |i: int| regs[i].err_code@)
}

/// Registers the templates, then checks that no code is registered twice.
fn register_all(templates: &[TemplateRegistration], codes: &[ErrCodeRegistration]) -> (r: Result<ErrorTemplates, InitError>)
    ensures
        match template_registration_outcome(templates@) {
            Err(f) => r matches Err(e) && e.view_failure() == f,
            Ok(t) => match first_duplicate(code_list(codes@)) {
                Some(c) => r matches Err(e) && e.view_failure() == InitFailure::DuplicateErrCode(c),
                None => r matches Ok(et) && et.templates() == t && et.undefined_is_error(),
            },
        },
{
    let mut env = env_new();
    env_set_strict(&mut env);
    let n = templates.len();
    let mut i: usize = 0;
    assert(templates@.take(0) =~= Seq::<TemplateRegistration>::empty());
    while i < n
        invariant
            n == templates@.len(),
            i <= n,
            env_strict(env),
            template_registration_outcome(templates@.take(i as int)) == Ok::<Map<Seq<char>, Seq<char>>, InitFailure>(env_templates(env)),
        decreases n - i,
    {
        let reg = &templates[i];
        assert(templates@.take(i + 1).drop_last() =~= templates@.take(i as int));
        assert(templates@.take(i + 1).last() == *reg);
        match env_add_template(&mut env, String::from_str(reg.err_code), String::from_str(reg.err_tpl)) {
            Ok(()) => {},
            Err(f) => {
                proof { lemma_template_failure_persists(templates@, i + 1); }
                return Err(InitError::TemplateRegistration {
                    err_code: String::from_str(reg.err_code),
                    error: TemplateError::from_failure(f),
                });
            },
        }
        i = i + 1;
    }
    assert(templates@.take(n as int) =~= templates@);
    let mut seen: Vec<&'static str> = Vec::new();
    let m = codes.len();
    let mut j: usize = 0;
    assert(code_list(codes@).take(0) =~= Seq::<Seq<char>>::empty());
    while j < m
        invariant
            m == codes@.len(),
            j <= m,
            first_duplicate(code_list(codes@).take(j as int)) is None,
            template_registration_outcome(templates@) == Ok::<Map<Seq<char>, Seq<char>>, InitFailure>(env_templates(env)),
            env_strict(env),
            seen@.len() == j,
            forall|k: int| 0 <= k < j ==> #[trigger] seen@[k]@ == codes@[k].err_code@,
        decreases m - j,
    {
        let reg = &codes[j];
        let ghost prefix = code_list(codes@).take(j as int);
        assert(code_list(codes@).take(j + 1).drop_last() =~= prefix);
        assert(code_list(codes@).take(j + 1).last() == reg.err_code@);
        if contains_code(&seen, reg.err_code) {
            proof {
                let k = choose|k: int| 0 <= k < seen@.len() && seen@[k]@ == reg.err_code@;
                assert(prefix[k] == reg.err_code@);
                lemma_duplicate_persists(code_list(codes@), j + 1);
            }
            return Err(InitError::DuplicateErrCode { err_code: String::from_str(reg.err_code) });
        }
        proof {
            assert forall|k: int| 0 <= k < prefix.len() implies prefix[k] != reg.err_code@ by {
                assert(seen@[k]@ == codes@[k].err_code@);
            }
        }
        seen.push(reg.err_code);
        j = j + 1;
    }
    assert(code_list(codes@).take(m as int) =~= code_list(codes@));
    Ok(ErrorTemplates::from_env(env))
}

/// Whether the templates can be registered and the codes are unique: the first
/// template that does not compile, else the first repeated code, gives the error.
pub fn check_registrations(templates: &[TemplateRegistration], codes: &[ErrCodeRegistration]) -> (r: Result<(), InitError>)
    ensures
        match template_registration_outcome(templates@) {
            Err(f) => r matches Err(e) && e.view_failure() == f,
            Ok(_) => match first_duplicate(code_list(codes@)) {
                Some(c) => r matches Err(e) && e.view_failure() == InitFailure::DuplicateErrCode(c),
                None => r is Ok,
            },
        },
{
    match register_all(templates, codes) {
        Ok(_) => Ok(()),
        Err(e) => Err(e),
    }
}

/// The registered templates, when they compile and no code is registered
/// twice (`check_registrations`).
pub fn init(templates: &[TemplateRegistration], codes: &[ErrCodeRegistration]) -> (r: ErrorTemplates)
    requires
        template_registration_outcome(templates@) is Ok,
        first_duplicate(code_list(codes@)) is None,
    ensures
        r.templates() == template_registration_outcome(templates@)->Ok_0,
        r.undefined_is_error(),
{
    match register_all(templates, codes) {
        Ok(t) => t,
        Err(_) => vstd::pervasive::unreached(),
    }
}

/// The registered templates, or the error of the first template that does not
/// compile, else of the first repeated code.
pub fn try_init(templates: &[TemplateRegistration], codes: &[ErrCodeRegistration]) -> (r: Result<ErrorTemplates, InitError>)
    ensures
        match template_registration_outcome(templates@) {
            Err(f) => r matches Err(e) && e.view_failure() == f,
            Ok(t) => match first_duplicate(code_list(codes@)) {
                Some(c) => r matches Err(e) && e.view_failure() == InitFailure::DuplicateErrCode(c),
                None => r matches Ok(et) && et.templates() == t && et.undefined_is_error(),
            },
        },
{
    match check_registrations(templates, codes) {
        Ok(()) => Ok(init(templates, codes)),
        Err(e) => Err(e),
    }
}

/// Once a prefix of the templates fails, registering all of them fails the same way.
proof fn lemma_template_failure_persists(regs: Seq<TemplateRegistration>, k: int)
    requires
        0 <= k <= regs.len(),
        template_registration_outcome(regs.take(k)) is Err,
    ensures
        template_registration_outcome(regs) == template_registration_outcome(regs.take(k)),
    decreases regs.len() - k,
{
    if k < regs.len() {
        assert(regs.take(k + 1).drop_last() =~= regs.take(k));
        lemma_template_failure_persists(regs, k + 1);
    } else {
        assert(regs.take(k) =~= regs);
    }
}

/// Once a prefix of the codes holds a duplicate, so does the whole list, the same one.
proof fn lemma_duplicate_persists(codes: Seq<Seq<char>>, k: int)
    requires
        0 <= k <= codes.len(),
        first_duplicate(codes.take(k)) is Some,
    ensures
        first_duplicate(codes) == first_duplicate(codes.take(k)),
    decreases codes.len() - k,
{
    if k < codes.len() {
        assert(codes.take(k + 1).drop_last() =~= codes.take(k));
        lemma_duplicate_persists(codes, k + 1);
    } else {
        assert(codes.take(k) =~= codes);
    }
}

/// An error with a fixed message.
#[derive(Debug)]
pub struct RawErr {
    pub err_code: &'static str,
    pub err_msg: &'static str,
}

impl RawErr {
    /// The text the error displays: its message.
    pub fn message(&self) -> (r: String)
        ensures
            r@ == self.err_msg@,
    {
        String::from_str(self.err_msg)
    }
}

/// An error whose message is its code's template rendered with its arguments.
#[derive(Debug)]
pub struct FmtErr {
    pub err_code: &'static str,
    pub err_tpl: &'static str,
    pub err_args: serde_json::Value,
}

/// The text shown when an error's template cannot be rendered.
pub open spec fn render_failed_text(code: Seq<char>, tpl: Seq<char>, args: Json) -> Seq<char> {
    "[render failed. err_code: "@ + code + ", err_tpl: "@ + tpl + ", err_args: "@ + json_text(args) + "]"@
}

/// The text an error with `code`, `tpl` and `args` displays for the rendering
/// result `rendered`: the text, or the render-failed text.
pub open spec fn legacy_display(code: Seq<char>, tpl: Seq<char>, args: Json, rendered: Result<Seq<char>, (ErrorKind, Seq<char>)>) -> Seq<char> {
    match rendered {
        Ok(s) => s,
        Err(_) => render_failed_text(code, tpl, args),
    }
}

impl FmtErr {
    /// The text the error displays for the result of rendering its template:
    /// the rendered text, or the render-failed text.
    pub fn display_text(&self, rendered: Result<String, TemplateError>) -> (r: String)
        ensures
            r@ == legacy_display(self.err_code@, self.err_tpl@, json_model(self.err_args), result_view(rendered)),
    {
        match rendered {
            Ok(s) => s,
            Err(_) => {
                let mut out = String::from_str("[render failed. err_code: ");
                out.append(self.err_code);
                out.append(", err_tpl: ");
                out.append(self.err_tpl);
                out.append(", err_args: ");
                let args_text = json_to_text(&self.err_args);
                out.append(args_text.as_str());
                out.append("]");
                assert(out@ =~= render_failed_text(self.err_code@, self.err_tpl@, json_model(self.err_args)));
                out
            },
        }
    }

    /// The text the error displays: `display_text` of rendering the template
    /// registered for its code with its arguments; the render-failed text for
    /// a code with no template.
    pub fn message(&self, templates: &ErrorTemplates) -> (r: String)
        ensures
            !templates.templates().contains_key(self.err_code@) ==> r@ == render_failed_text(self.err_code@,
                self.err_tpl@, json_model(self.err_args)),
            exists|rendered: Result<Seq<char>, (ErrorKind, Seq<char>)>| (rendered is Ok ==> templates.templates().contains_key(
                self.err_code@)) && r@ == legacy_display(self.err_code@, self.err_tpl@, json_model(self.err_args), rendered),
    {
        self.display_text(templates.render(self.err_code, &self.err_args))
    }
}

/// The code check passes only when every code is registered once.
pub proof fn law_codes_unique(codes: Seq<Seq<char>>)
    requires
        first_duplicate(codes) is None,
    ensures
        forall|i: int, j: int| 0 <= i < codes.len() && 0 <= j < codes.len() && i != j
            ==> #[trigger] codes[i] != #[trigger] codes[j],
    decreases codes.len(),
{
    if codes.len() > 0 {
        let prev = codes.drop_last();
        law_codes_unique(prev);
        assert forall|i: int, j: int| 0 <= i < codes.len() && 0 <= j < codes.len() && i != j
            implies #[trigger] codes[i] != #[trigger] codes[j] by {
            if i < prev.len() && j < prev.len() {
                assert(codes[i] == prev[i] && codes[j] == prev[j]);
            } else if i < prev.len() {
                assert(prev[i] == codes[i]);
            } else {
                assert(prev[j] == codes[j]);
            }
        }
    }
}

/// The code check refuses exactly the lists with a repeated code, and the
/// code it names is repeated.
pub proof fn law_duplicate_is_a_repeated_code(codes: Seq<Seq<char>>)
    ensures
        first_duplicate(codes) is None <==> forall|i: int, j: int| 0 <= i < j < codes.len() ==> #[trigger] codes[i] != #[trigger] codes[j],
        first_duplicate(codes) matches Some(c) ==> exists|i: int, j: int| 0 <= i < j < codes.len() && #[trigger] codes[i] == c
            && #[trigger] codes[j] == c,
    decreases codes.len(),
{
    if codes.len() > 0 {
        let prev = codes.drop_last();
        let last = codes.len() - 1;
        law_duplicate_is_a_repeated_code(prev);
        if first_duplicate(prev) is None {
            if code_in(prev, codes.last()) {
                let j = choose|j: int| 0 <= j < prev.len() && prev[j] == codes.last();
                assert(codes[j] == prev[j] && codes[last] == codes.last());
            } else {
                assert forall|i: int, j: int| 0 <= i < j < codes.len() implies #[trigger] codes[i] != #[trigger] codes[j] by {
                    if j < last {
                        assert(codes[i] == prev[i] && codes[j] == prev[j]);
                    } else {
                        assert(codes[i] == prev[i]);
                    }
                }
            }
        } else {
            let c = first_duplicate(prev)->Some_0;
            let (i, j) = choose|i: int, j: int| 0 <= i < j < prev.len() && #[trigger] prev[i] == c && #[trigger] prev[j] == c;
            assert(codes[i] == prev[i] && codes[j] == prev[j]);
        }
    }
}

/// The templates are refused only for one that does not compile: when every
/// template compiles under its code, registering them succeeds and each code
/// holds the template registered last under it; a refusal is the compile
/// error of one of them.
pub proof fn law_templates_accepted_when_they_compile(regs: Seq<TemplateRegistration>)
    ensures
        (forall|i: int| 0 <= i < regs.len() ==> template_compiles((#[trigger] regs[i]).err_code@, regs[i].err_tpl@) is Ok)
            ==> template_registration_outcome(regs) is Ok,
        template_registration_outcome(regs) matches Err(f) ==> exists|i: int| 0 <= i < regs.len()
            && (template_compiles((#[trigger] regs[i]).err_code@, regs[i].err_tpl@) matches Err(g)
            && f == InitFailure::TemplateRegistration(regs[i].err_code@, failure_view(g))),
    decreases regs.len(),
{
    if regs.len() > 0 {
        let prev = regs.drop_last();
        let last = regs.len() - 1;
        law_templates_accepted_when_they_compile(prev);
        assert(regs[last] == regs.last());
        if forall|i: int| 0 <= i < regs.len() ==> template_compiles((#[trigger] regs[i]).err_code@, regs[i].err_tpl@) is Ok {
            assert forall|i: int| 0 <= i < prev.len() implies template_compiles((#[trigger] prev[i]).err_code@, prev[i].err_tpl@) is Ok by {
                assert(prev[i] == regs[i]);
            }
            assert(template_compiles(regs[last].err_code@, regs[last].err_tpl@) is Ok);
        }
        if template_registration_outcome(prev) is Err {
            let f = template_registration_outcome(prev)->Err_0;
            let i = choose|i: int| 0 <= i < prev.len() && (template_compiles((#[trigger] prev[i]).err_code@, prev[i].err_tpl@) matches Err(g)
                && f == InitFailure::TemplateRegistration(prev[i].err_code@, failure_view(g)));
            assert(prev[i] == regs[i]);
        }
    }
}

} // verus!
