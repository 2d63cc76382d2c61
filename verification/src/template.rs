//! Rendering templates: once from source, through a bounded cache of registered
//! templates, and from positional `{}` templates.
//!
//! What the template engine renders is not stated: its text is not a function
//! of the template and the arguments alone (the built-in `debug()` prints the
//! environment in an order that varies between instances). What is stated
//! exactly is everything around the rendering: which templates the engine
//! holds and under which names, the cache and its eviction order, the
//! identifiers issued, compile errors of registered templates, the errors of
//! positional arguments, and the template text and context that positional
//! rendering hands to the engine.
use crate::cache::{has_key, key_at, lru_capacity, lru_entries, lru_get, lru_new, lru_peek, lru_push, lru_wf, push_effect};
use crate::jinja::{outcome_view, positional_rendering, positional_shaped, simple_template, string_template_name, unescaped_name, env_add_template, env_new, env_remove_template, env_render_str, env_render_template, env_set_strict, env_strict, env_templates, template_compiles};
use crate::json::{entry_views, json_as_array, json_clone, json_model, json_object, object_of, Json};
use crate::positional::{argument_name, lemma_positional_is_simple, placeholder_count, positional_template, to_named_template};
use crate::template_error::{detailed_message, failure_view, kind_of_description, ErrorKind, TemplateError};
use crate::text::{decimal, lemma_decimal_digits, lemma_decimal_injective, push_char, push_decimal};
use vstd::prelude::*;
use vstd::string::StringExecFns;

verus! {

/// How many distinct template sources an engine keeps registered.
pub const REGISTERED_TEMPLATE_CAPACITY: usize = 1024;

/// The name under which the template with identifier `id` is registered: `__t` and `id`.
pub open spec fn template_name(id: nat) -> Seq<char> {
    seq!['_', '_', 't'] + decimal(id)
}

/// Different identifiers give different names.
proof fn lemma_template_name_injective(a: nat, b: nat)
    requires
        template_name(a) == template_name(b),
    ensures
        a == b,
{
    assert(decimal(a) =~= template_name(a).skip(3));
    assert(decimal(b) =~= template_name(b).skip(3));
    lemma_decimal_injective(a, b);
}

/// Names of registered templates select no auto-escaping.
proof fn lemma_template_name_unescaped(id: nat)
    ensures
        unescaped_name(template_name(id)),
{
    let n = template_name(id);
    assert forall|i: int| 0 <= i < n.len() implies #[trigger] n[i] != '.' by {
        if i >= 3 {
            assert(n[i] == decimal(id)[i - 3]);
            lemma_decimal_digits(id, i - 3);
        }
    }
}

/// A positional template text is a simple template.
proof fn lemma_shaped_simple(tpl: Seq<char>)
    requires
        positional_shaped(tpl),
    ensures
        simple_template(tpl),
{
    let s = choose|s: Seq<char>| tpl == positional_template(s);
    lemma_positional_is_simple(s);
}

/// A rendering result agrees with the outcome `p` of `positional_rendering`:
/// the same text, or an error whose kind has `p`'s description.
pub open spec fn rendering_agrees(r: Result<Seq<char>, (ErrorKind, Seq<char>)>, p: Result<Seq<char>, Seq<char>>) -> bool {
    match r {
        Ok(s) => p == Ok::<Seq<char>, Seq<char>>(s),
        Err((k, _)) => p is Err && k == kind_of_description(p->Err_0),
    }
}

/// A rendering result as plain values.
pub open spec fn result_view(r: Result<String, TemplateError>) -> Result<Seq<char>, (ErrorKind, Seq<char>)> {
    match r {
        Ok(s) => Ok(s@),
        Err(e) => Err(e.view_parts()),
    }
}

/// A rendering outcome with the error's kind read from its description.
pub open spec fn outcome_result(o: Result<Seq<char>, (Seq<char>, Seq<char>)>) -> Result<Seq<char>, (ErrorKind, Seq<char>)> {
    match o {
        Ok(s) => Ok(s),
        Err(f) => Err(failure_view(f)),
    }
}

/// The result of a rendering as the template engine reported it: the text, or
/// the error with its kind read from the kind's description.
pub fn render_result(rendered: Result<String, (String, String)>) -> (r: Result<String, TemplateError>)
    ensures
        result_view(r) == outcome_result(outcome_view(rendered)),
{
    match rendered {
        Ok(s) => Ok(s),
        Err(f) => Err(TemplateError::from_failure(f)),
    }
}

/// The templates after registering `source` under `name` and then dropping the
/// template of the evicted cache entry, if any.
pub open spec fn templates_after_registration(
    templates: Map<Seq<char>, Seq<char>>,
    name: Seq<char>,
    source: Seq<char>,
    evicted: Option<(Seq<char>, Seq<char>)>,
) -> Map<Seq<char>, Seq<char>> {
    match evicted {
        Some(e) => templates.insert(name, source).remove(e.1),
        None => templates.insert(name, source),
    }
}

/// What registering the new source `source` does to an engine with templates
/// `t0`, cache entries `c0` and next identifier `n0 < u64::MAX`, giving `t1`,
/// `c1`, `n1`: the identifier is taken and the source compiled under its name;
/// on a compile error nothing else changes and `failure` is that error;
/// otherwise the source becomes the most recently used cache entry (evicting
/// the least recently used one when the cache is full, whose template is
/// dropped).
pub open spec fn registration(
    t0: Map<Seq<char>, Seq<char>>, c0: Seq<(Seq<char>, Seq<char>)>, n0: nat,
    t1: Map<Seq<char>, Seq<char>>, c1: Seq<(Seq<char>, Seq<char>)>, n1: nat,
    source: Seq<char>, failure: Option<(ErrorKind, Seq<char>)>,
) -> bool {
    let name = template_name(n0);
    &&& n1 == n0 + 1
    &&& match template_compiles(name, source) {
        Err(f) => t1 == t0 && c1 == c0 && failure == Some(failure_view(f)),
        Ok(()) => failure is None && exists|evicted: Option<(Seq<char>, Seq<char>)>| {
            &&& push_effect(c0, REGISTERED_TEMPLATE_CAPACITY as nat, source, name, c1, evicted)
            &&& t1 == templates_after_registration(t0, name, source, evicted)
        },
    }
}

/// The compile error of a result, if it is one.
pub open spec fn error_of(r: Result<Seq<char>, (ErrorKind, Seq<char>)>) -> Option<(ErrorKind, Seq<char>)> {
    match r {
        Ok(_) => None,
        Err(e) => Some(e),
    }
}

/// The relation between an engine before (`t0`, `c0`, `n0`: templates, cache
/// entries, next identifier) and after (`t1`, `c1`, `n1`) a cached rendering of
/// `source`, and its result `r`.
///
/// A source found in the cache is rendered from the template it is registered
/// under, with nothing changed. Otherwise it is registered (`registration`) and,
/// unless it does not compile (that error is the result), its new template is
/// rendered. When the identifiers are used up the source is rendered once
/// instead, with nothing changed.
pub open spec fn cached_render(
    t0: Map<Seq<char>, Seq<char>>, c0: Seq<(Seq<char>, Seq<char>)>, n0: nat,
    t1: Map<Seq<char>, Seq<char>>, c1: Seq<(Seq<char>, Seq<char>)>, n1: nat,
    source: Seq<char>, r: Result<Seq<char>, (ErrorKind, Seq<char>)>,
) -> bool {
    if has_key(c0, source) || n0 >= u64::MAX {
        t1 == t0 && c1 == c0 && n1 == n0
    } else {
        exists|failure: Option<(ErrorKind, Seq<char>)>| {
            &&& registration(t0, c0, n0, t1, c1, n1, source, failure)
            &&& (failure matches Some(e) ==> r == Err::<Seq<char>, (ErrorKind, Seq<char>)>(e))
        }
    }
}

/// The context that positional arguments `items` are rendered with: an object
/// mapping `_k` to the `k`-th item.
pub open spec fn positional_context(items: Seq<Json>) -> Json {
    Json::Object(object_of(Seq::new(items.len(), |k: int| (argument_name(k as nat), items[k]))))
}

/// The detail of an argument-count error: `prefix`, the expected count,
/// `, got ` and the given count.
pub open spec fn count_detail(prefix: Seq<char>, expected: nat, got: nat) -> Seq<char> {
    prefix + decimal(expected) + ", got "@ + decimal(got)
}

/// The error that positional arguments `args` for the positional template
/// `source` give before anything is rendered, if any: arguments that are not an
/// array, or fewer or more items than placeholders.
pub open spec fn positional_arguments_error(source: Seq<char>, args: Json) -> Option<(ErrorKind, Seq<char>)> {
    match args {
        Json::Array(items) => {
            let count = placeholder_count(source);
            if items.len() < count {
                Some((ErrorKind::MissingArgument, detailed_message(ErrorKind::MissingArgument,
                    count_detail("not enough arguments: expected "@, count, items.len()))))
            } else if items.len() > count {
                Some((ErrorKind::TooManyArguments, detailed_message(ErrorKind::TooManyArguments,
                    count_detail("too many arguments: expected "@, count, items.len()))))
            } else {
                None
            }
        },
        _ => Some((ErrorKind::BadSerialization, detailed_message(ErrorKind::BadSerialization,
            "positional args must be an array"@))),
    }
}

/// The items of an array, empty for any other value.
pub open spec fn array_items(j: Json) -> Seq<Json> {
    match j {
        Json::Array(items) => items,
        _ => Seq::empty(),
    }
}

/// The template text and the context that positional rendering hands to the
/// template engine, or the error of the arguments.
pub fn positional_arguments(source: &str, args: serde_json::Value) -> (r: Result<(String, serde_json::Value), TemplateError>)
    ensures
        match positional_arguments_error(source@, json_model(args)) {
            Some(e) => r matches Err(err) && err.view_parts() == e,
            None => r matches Ok((tpl, ctx)) && tpl@ == positional_template(source@)
                && json_model(ctx) == positional_context(array_items(json_model(args))),
        },
{
    let (tpl, count) = to_named_template(source);
    let arr = match json_as_array(&args) {
        Some(a) => a,
        None => {
            return Err(TemplateError::with_detail(ErrorKind::BadSerialization, "positional args must be an array"));
        },
    };
    let ghost items = array_items(json_model(args));
    let len = arr.len();
    if len < count {
        let mut detail = String::from_str("not enough arguments: expected ");
        push_decimal(&mut detail, count as u64);
        detail.append(", got ");
        push_decimal(&mut detail, len as u64);
        return Err(TemplateError::with_detail(ErrorKind::MissingArgument, detail.as_str()));
    } else if len > count {
        let mut detail = String::from_str("too many arguments: expected ");
        push_decimal(&mut detail, count as u64);
        detail.append(", got ");
        push_decimal(&mut detail, len as u64);
        return Err(TemplateError::with_detail(ErrorKind::TooManyArguments, detail.as_str()));
    }
    let mut entries: Vec<(String, serde_json::Value)> = Vec::new();
    let mut i: usize = 0;
    while i < len
        invariant
            len == arr@.len(),
            len == items.len(),
            i <= len,
            entries@.len() == i,
            forall|k: int| 0 <= k < len ==> #[trigger] json_model(arr@[k]) == items[k],
            entry_views(entries@) =~= Seq::new(i as nat, |k: int| (argument_name(k as nat), items[k])),
        decreases len - i,
    {
        let mut key = String::new();
        push_char(&mut key, '_');
        push_decimal(&mut key, i as u64);
        assert(key@ =~= argument_name(i as nat));
        let value = json_clone(&arr[i]);
        let ghost before = entries@;
        entries.push((key, value));
        assert(entries@ == before.push((key, value)));
        assert forall|k: int| 0 <= k < i + 1 implies #[trigger] entry_views(entries@)[k] == (argument_name(k as nat), items[k]) by {
            if k < i {
                assert(entries@[k] == before[k]);
                assert(entry_views(before)[k] == (argument_name(k as nat), items[k]));
            } else {
                assert(entries@[k] == (key, value));
                assert(json_model(arr@[k]) == items[k]);
            }
        }
        assert(entry_views(entries@) =~= Seq::new((i + 1) as nat, |k: int| (argument_name(k as nat), items[k])));
        i = i + 1;
    }
    let named_args = json_object(entries);
    assert(json_model(named_args) == positional_context(items));
    Ok((tpl, named_args))
}

/// `n` is the name of an identifier below `next`.
pub open spec fn generated_before(n: Seq<char>, next: nat) -> bool {
    exists|id: nat| id < next && n == template_name(id)
}

/// Renders templates in an environment whose undefined values are errors, and
/// keeps the most recently used template sources registered under generated
/// names so that they are compiled once.
pub struct TemplateEngine {
    env: minijinja::Environment<'static>,
    registered: lru::LruCache<String, String>,
    next_id: u64,
}

impl TemplateEngine {
    /// The engine's invariant: strict environment; a cache of the fixed
    /// capacity; the environment's templates are exactly the registered ones,
    /// each stored under its name; names distinct and generated from
    /// identifiers already issued.
    pub closed spec fn wf(&self) -> bool {
        let e = lru_entries(self.registered);
        &&& env_strict(self.env)
        &&& lru_wf(self.registered)
        &&& lru_capacity(self.registered) == REGISTERED_TEMPLATE_CAPACITY
        &&& forall|i: int| 0 <= i < e.len() ==> #[trigger] env_templates(self.env).contains_key(e[i].1)
            && env_templates(self.env)[e[i].1] == e[i].0
        &&& forall|n: Seq<char>| #[trigger] env_templates(self.env).contains_key(n)
            ==> exists|i: int| 0 <= i < e.len() && e[i].1 == n
        &&& forall|i: int, j: int| 0 <= i < e.len() && 0 <= j < e.len() && i != j ==> #[trigger] e[i].1 != #[trigger] e[j].1
        &&& forall|i: int| 0 <= i < e.len() ==> #[trigger] generated_before(e[i].1, self.next_id as nat)
    }

    /// The templates the engine's environment holds, by name.
    pub closed spec fn templates(&self) -> Map<Seq<char>, Seq<char>> {
        env_templates(self.env)
    }

    /// The registered sources and their template names, least recently used first.
    pub closed spec fn cached(&self) -> Seq<(Seq<char>, Seq<char>)> {
        lru_entries(self.registered)
    }

    /// The identifier the next registered template is named after.
    pub closed spec fn next_id(&self) -> nat {
        self.next_id as nat
    }

    /// An engine with no templates.
    pub fn new() -> (r: TemplateEngine)
        ensures
            r.templates() == Map::<Seq<char>, Seq<char>>::empty(),
            r.cached() == Seq::<(Seq<char>, Seq<char>)>::empty(),
            r.next_id() == 0,
            r.wf(),
    {
        let mut env = env_new();
        env_set_strict(&mut env);
        TemplateEngine { env, registered: lru_new(REGISTERED_TEMPLATE_CAPACITY), next_id: 0 }
    }

    /// Renders `source` once with `args` in the engine's environment, without
    /// registering it (the template is named `<string>`).
    pub fn render_once(&self, source: &str, args: &serde_json::Value) -> (r: Result<String, TemplateError>)
        requires
            self.wf(),
        ensures
            template_compiles(string_template_name(), source@) matches Err(f) ==> result_view(r)
                == Err::<Seq<char>, (ErrorKind, Seq<char>)>(failure_view(f)),
            r is Ok ==> template_compiles(string_template_name(), source@) is Ok,
            positional_shaped(source@) ==> rendering_agrees(result_view(r), positional_rendering(true, source@, json_model(*args))),
            simple_template(source@) ==> rendering_agrees(result_view(r), positional_rendering(true, source@, json_model(*args))),
    {
        proof { if positional_shaped(source@) { lemma_shaped_simple(source@); } }
        render_result(env_render_str(&self.env, source, args))
    }

    /// The template registered for `source`, rendered with `args`, when there
    /// is one; the cache's order is kept.
    fn try_render_from_cache(&self, source: &str, args: &serde_json::Value) -> (r: Option<Result<String, TemplateError>>)
        requires
            self.wf(),
        ensures
            r is Some <==> has_key(self.cached(), source@),
            r matches Some(res) ==> (positional_shaped(source@) ==> rendering_agrees(result_view(res),
                positional_rendering(true, source@, json_model(*args)))),
            r matches Some(res) ==> (simple_template(source@) ==> rendering_agrees(result_view(res),
                positional_rendering(true, source@, json_model(*args)))),
    {
        proof { if positional_shaped(source@) { lemma_shaped_simple(source@); } }
        match lru_peek(&self.registered, source) {
            Some(name) => {
                proof {
                    let e = lru_entries(self.registered);
                    let i = choose|i: int| key_at(e, i, source@) && name@ == e[i].1;
                    assert(generated_before(e[i].1, self.next_id as nat));
                    let id = choose|id: nat| id < self.next_id && e[i].1 == template_name(id);
                    lemma_template_name_unescaped(id);
                    assert(env_templates(self.env).contains_key(e[i].1));
                }
                Some(render_result(env_render_template(&self.env, name.as_str(), args)))
            },
            None => None,
        }
    }

    /// The name for the next registered template, when identifiers are left.
    fn next_template_id(&mut self) -> (r: Option<String>)
        requires
            old(self).wf(),
        ensures
            final(self).wf(),
            final(self).templates() == old(self).templates(),
            final(self).cached() == old(self).cached(),
            old(self).next_id() < u64::MAX ==> (r matches Some(name) && name@ == template_name(old(self).next_id())
                && final(self).next_id() == old(self).next_id() + 1),
            old(self).next_id() >= u64::MAX ==> r is None && final(self).next_id() == old(self).next_id(),
    {
        if self.next_id == u64::MAX {
            return None;
        }
        let id = self.next_id;
        self.next_id = id + 1;
        proof {
            let e = lru_entries(self.registered);
            assert forall|i: int| 0 <= i < e.len() implies #[trigger] generated_before(e[i].1, self.next_id as nat) by {
                assert(generated_before(e[i].1, id as nat));
                let k = choose|k: nat| k < id && e[i].1 == template_name(k);
                assert(k < self.next_id && e[i].1 == template_name(k));
            }
        }
        let mut name = String::new();
        push_char(&mut name, '_');
        push_char(&mut name, '_');
        push_char(&mut name, 't');
        push_decimal(&mut name, id);
        assert(name@ =~= template_name(id as nat));
        Some(name)
    }

    /// The name `source` is registered under, registering it first when it is
    /// not: a registered source becomes the most recently used one; a new one
    /// is registered under a fresh name (`registration`). `Ok(None)` when no
    /// identifier is left, the compile error when the source does not compile.
    fn ensure_template_registered(&mut self, source: &str) -> (r: Result<Option<String>, TemplateError>)
        requires
            old(self).wf(),
        ensures
            final(self).wf(),
            r is Err && simple_template(source@) ==> (template_compiles(template_name(old(self).next_id()), source@)
                matches Err(f) && forall|strict: bool, ctx: Json| #[trigger] positional_rendering(strict, source@, ctx)
                == Err::<Seq<char>, Seq<char>>(f.0)),
            has_key(old(self).cached(), source@) ==> exists|i: int| {
                &&& key_at(old(self).cached(), i, source@)
                &&& r matches Ok(Some(n)) && n@ == old(self).cached()[i].1
                &&& final(self).cached() == old(self).cached().remove(i).push(old(self).cached()[i])
                &&& final(self).templates() == old(self).templates()
                &&& final(self).next_id() == old(self).next_id()
            },
            !has_key(old(self).cached(), source@) && old(self).next_id() >= u64::MAX ==> (r matches Ok(None)
                && final(self).templates() == old(self).templates() && final(self).cached() == old(self).cached()
                && final(self).next_id() == old(self).next_id()),
            !has_key(old(self).cached(), source@) && old(self).next_id() < u64::MAX ==> registration(
                old(self).templates(), old(self).cached(), old(self).next_id(), final(self).templates(),
                final(self).cached(), final(self).next_id(), source@,
                match r { Err(e) => Some(e.view_parts()), Ok(_) => None })
                && (r is Ok ==> (r matches Ok(Some(n)) && n@ == template_name(old(self).next_id()))),
    {
        let ghost t0 = env_templates(self.env);
        let ghost c0 = lru_entries(self.registered);
        let ghost id = self.next_id as nat;
        match lru_get(&mut self.registered, source) {
            Some(name) => {
                proof {
                    let i = choose|i: int| key_at(c0, i, source@) && name@ == c0[i].1
                        && lru_entries(self.registered) == c0.remove(i).push(c0[i]);
                    let c1 = lru_entries(self.registered);
                    let last = c1.len() - 1;
                    assert forall|j: int| 0 <= j < c1.len() implies #[trigger] c1[j] == (if j == last { c0[i] } else if j < i {
                        c0[j] } else { c0[j + 1] }) by {}
                    assert forall|j: int| 0 <= j < c1.len() implies #[trigger] t0.contains_key(c1[j].1) && t0[c1[j].1] == c1[j].0 by {
                        if j == last { assert(c1[j] == c0[i]); } else if j < i { assert(c1[j] == c0[j]); } else { assert(c1[j] == c0[j + 1]); }
                    }
                    assert forall|n: Seq<char>| #[trigger] t0.contains_key(n) implies exists|j: int| 0 <= j < c1.len() && c1[j].1 == n by {
                        let k = choose|k: int| 0 <= k < c0.len() && c0[k].1 == n;
                        if k == i { assert(c1[last] == c0[k]); } else if k < i { assert(c1[k] == c0[k]); } else { assert(c1[k - 1] == c0[k]); }
                    }
                    assert forall|a: int, b: int| 0 <= a < c1.len() && 0 <= b < c1.len() && a != b implies #[trigger] c1[a].1 != #[trigger] c1[b].1 by {
                        let pa = if a == last { i } else if a < i { a } else { a + 1 };
                        let pb = if b == last { i } else if b < i { b } else { b + 1 };
                        assert(c1[a] == c0[pa] && c1[b] == c0[pb]);
                        assert(c0[pa].1 != c0[pb].1);
                    }
                    assert forall|j: int| 0 <= j < c1.len() implies #[trigger] generated_before(c1[j].1, self.next_id as nat) by {
                        let pj = if j == last { i } else if j < i { j } else { j + 1 };
                        assert(c1[j] == c0[pj]);
                        assert(generated_before(c0[pj].1, self.next_id as nat));
                    }
                }
                return Ok(Some(name));
            },
            None => {
                assert(lru_entries(self.registered) == c0);
                assert(self.wf());
            },
        }
        let name = match self.next_template_id() {
            Some(n) => n,
            None => return Ok(None),
        };
        proof {
            // The fresh name differs from every name in use.
            assert forall|j: int| 0 <= j < c0.len() implies #[trigger] c0[j].1 != name@ by {
                assert(generated_before(c0[j].1, id));
                let k = choose|k: nat| k < id && c0[j].1 == template_name(k);
                if c0[j].1 == name@ {
                    lemma_template_name_injective(k, id);
                }
            }
            assert forall|n: Seq<char>| t0.contains_key(n) implies n != name@ by {
                let k = choose|k: int| 0 <= k < c0.len() && c0[k].1 == n;
                assert(c0[k].1 != name@);
            }
        }
        proof { lemma_template_name_unescaped(id); }
        match env_add_template(&mut self.env, name.clone(), String::from_str(source)) {
            Ok(()) => {},
            Err(f) => {
                assert(env_templates(self.env) =~= t0);
                let e = TemplateError::from_failure(f);
                proof {
                    assert forall|j: int| 0 <= j < c0.len() implies #[trigger] generated_before(c0[j].1, self.next_id as nat) by {
                        assert(generated_before(c0[j].1, id));
                        let k = choose|k: nat| k < id && c0[j].1 == template_name(k);
                        assert(k < self.next_id && c0[j].1 == template_name(k));
                    }
                }
                return Err(e);
            },
        }
        let ghost t_added = env_templates(self.env);
        assert(t_added == t0.insert(name@, source@));
        let evicted = lru_push(&mut self.registered, String::from_str(source), name.clone());
        let ghost ev = match &evicted {
            Some(p) => Some((p.0@, p.1@)),
            None => None::<(Seq<char>, Seq<char>)>,
        };
        if let Some((_, evicted_name)) = evicted {
            env_remove_template(&mut self.env, evicted_name.as_str());
        }
        proof {
            let c1 = lru_entries(self.registered);
            let t1 = env_templates(self.env);
            let full = c0.len() >= REGISTERED_TEMPLATE_CAPACITY;
            assert(t1 == templates_after_registration(t0, name@, source@, ev));
            assert forall|j: int| 0 <= j < c1.len() implies #[trigger] c1[j] == (if j == c1.len() - 1 { (source@, name@) }
                else if full { c0[j + 1] } else { c0[j] }) by {}
            // Every entry after the push is an entry from before, or the new one.
            assert forall|i: int| 0 <= i < c1.len() implies #[trigger] t1.contains_key(c1[i].1)
                && t1[c1[i].1] == c1[i].0 by {
                if i == c1.len() - 1 {
                    assert(c1[i] == (source@, name@));
                } else if full {
                    assert(c1[i] == c0[i + 1]);
                    assert(c0[i + 1].1 != c0[0].1);
                } else {
                    assert(c1[i] == c0[i]);
                }
            }
            assert forall|n: Seq<char>| #[trigger] t1.contains_key(n) implies exists|j: int| 0 <= j < c1.len() && c1[j].1 == n by {
                if n == name@ {
                    assert(c1[c1.len() - 1] == (source@, name@));
                } else {
                    let k = choose|k: int| 0 <= k < c0.len() && c0[k].1 == n;
                    if full {
                        assert(ev == Some(c0[0]));
                        assert(k != 0);
                        assert(c1[k - 1] == c0[k]);
                    } else {
                        assert(c1[k] == c0[k]);
                    }
                }
            }
            assert forall|i: int, j: int| 0 <= i < c1.len() && 0 <= j < c1.len() && i != j
                implies #[trigger] c1[i].1 != #[trigger] c1[j].1 by {
                let last = c1.len() - 1;
                if i < last && j < last {
                    if full { assert(c0[i + 1].1 != c0[j + 1].1); } else { assert(c0[i].1 != c0[j].1); }
                }
            }
            assert forall|j: int| 0 <= j < c1.len() implies #[trigger] generated_before(c1[j].1, self.next_id as nat) by {
                if j == c1.len() - 1 {
                    assert(c1[j].1 == template_name(id));
                    assert(id < self.next_id);
                } else {
                    let pj = if full { j + 1 } else { j };
                    assert(c1[j] == c0[pj]);
                    assert(generated_before(c0[pj].1, id));
                    let k = choose|k: nat| k < id && c0[pj].1 == template_name(k);
                    assert(k < self.next_id && c1[j].1 == template_name(k));
                }
            }
            assert(push_effect(c0, REGISTERED_TEMPLATE_CAPACITY as nat, source@, name@, c1, ev));
        }
        Ok(Some(name))
    }

    /// Renders `source` with `args` from its registered template, registering
    /// it first when it is not registered. A hit in the cache keeps the
    /// cache's order.
    pub fn render_cached(&mut self, source: &str, args: &serde_json::Value) -> (r: Result<String, TemplateError>)
        requires
            old(self).wf(),
        ensures
            final(self).wf(),
            cached_render(old(self).templates(), old(self).cached(), old(self).next_id(), final(self).templates(),
                final(self).cached(), final(self).next_id(), source@, result_view(r)),
            positional_shaped(source@) ==> rendering_agrees(result_view(r), positional_rendering(true, source@, json_model(*args))),
            simple_template(source@) ==> rendering_agrees(result_view(r), positional_rendering(true, source@, json_model(*args))),
    {
        proof { if positional_shaped(source@) { lemma_shaped_simple(source@); } }
        if let Some(res) = self.try_render_from_cache(source, args) {
            return res;
        }
        let ghost id = self.next_id as nat;
        match self.ensure_template_registered(source) {
            Err(e) => {
                proof {
                    if simple_template(source@) {
                        let f = template_compiles(template_name(id), source@)->Err_0;
                        assert(positional_rendering(true, source@, json_model(*args)) == Err::<Seq<char>, Seq<char>>(f.0));
                    }
                }
                Err(e)
            },
            Ok(None) => self.render_once(source, args),
            Ok(Some(name)) => {
                proof {
                    lemma_template_name_unescaped(id);
                    let c1 = lru_entries(self.registered);
                    assert(c1[c1.len() - 1] == (source@, name@));
                    assert(env_templates(self.env).contains_key(c1[c1.len() - 1].1));
                }
                render_result(env_render_template(&self.env, name.as_str(), args))
            },
        }
    }

    /// Renders the positional template `source` with the items of the array
    /// `args`: the template text and context of `positional_arguments` are
    /// rendered through the cache when `cached` holds and once otherwise.
    pub fn render_positional(&mut self, source: &str, args: serde_json::Value, cached: bool) -> (r: Result<String, TemplateError>)
        requires
            old(self).wf(),
        ensures
            final(self).wf(),
            match positional_arguments_error(source@, json_model(args)) {
                Some(e) => result_view(r) == Err::<Seq<char>, (ErrorKind, Seq<char>)>(e)
                    && final(self).templates() == old(self).templates() && final(self).cached() == old(self).cached()
                    && final(self).next_id() == old(self).next_id(),
                None => rendering_agrees(result_view(r), positional_rendering(true, positional_template(source@),
                    positional_context(array_items(json_model(args))))) && if cached {
                    cached_render(old(self).templates(), old(self).cached(), old(self).next_id(), final(self).templates(),
                        final(self).cached(), final(self).next_id(), positional_template(source@), result_view(r))
                } else {
                    final(self).templates() == old(self).templates() && final(self).cached() == old(self).cached()
                        && final(self).next_id() == old(self).next_id()
                },
            },
    {
        let (tpl, named_args) = match positional_arguments(source, args) {
            Ok(p) => p,
            Err(e) => return Err(e),
        };
        assert(positional_shaped(tpl@)) by {
            assert(tpl@ == positional_template(source@));
        }
        proof { lemma_positional_is_simple(source@); }
        if cached {
            self.render_cached(tpl.as_str(), &named_args)
        } else {
            self.render_once(tpl.as_str(), &named_args)
        }
    }
}

/// Renders `source` once with `args` in a new engine.
pub fn format_template_once(source: &str, args: serde_json::Value) -> (r: Result<String, TemplateError>)
    ensures
        template_compiles(string_template_name(), source@) matches Err(f) ==> result_view(r)
            == Err::<Seq<char>, (ErrorKind, Seq<char>)>(failure_view(f)),
        r is Ok ==> template_compiles(string_template_name(), source@) is Ok,
        positional_shaped(source@) ==> rendering_agrees(result_view(r), positional_rendering(true, source@, json_model(args))),
        simple_template(source@) ==> rendering_agrees(result_view(r), positional_rendering(true, source@, json_model(args))),
{
    proof { if positional_shaped(source@) { lemma_shaped_simple(source@); } }
    let engine = TemplateEngine::new();
    engine.render_once(source, &args)
}

/// Renders `source` with `args` through a new engine's template cache: the
/// source is registered as `__t0` and that template rendered, so a source that
/// does not compile under that name gives its compile error.
pub fn format_template_cached(source: &str, args: serde_json::Value) -> (r: Result<String, TemplateError>)
    ensures
        template_compiles(template_name(0), source@) matches Err(f) ==> result_view(r)
            == Err::<Seq<char>, (ErrorKind, Seq<char>)>(failure_view(f)),
        r is Ok ==> template_compiles(template_name(0), source@) is Ok,
        positional_shaped(source@) ==> rendering_agrees(result_view(r), positional_rendering(true, source@, json_model(args))),
        simple_template(source@) ==> rendering_agrees(result_view(r), positional_rendering(true, source@, json_model(args))),
{
    proof { if positional_shaped(source@) { lemma_shaped_simple(source@); } }
    let mut engine = TemplateEngine::new();
    let r = engine.render_cached(source, &args);
    proof { lemma_fresh_cached(source@, result_view(r), engine.templates(), engine.cached(), engine.next_id()); }
    r
}

/// Renders the positional template `source` with the items of the array `args`
/// in a new engine, through its cache when `cached` holds.
pub fn format_positional(source: &str, args: serde_json::Value, cached: bool) -> (r: Result<String, TemplateError>)
    ensures
        match positional_arguments_error(source@, json_model(args)) {
            Some(e) => result_view(r) == Err::<Seq<char>, (ErrorKind, Seq<char>)>(e),
            None => rendering_agrees(result_view(r), positional_rendering(true, positional_template(source@),
                positional_context(array_items(json_model(args))))),
        },
{
    let mut engine = TemplateEngine::new();
    engine.render_positional(source, args, cached)
}

/// A cached rendering in a new engine registers the source as `__t0`; a source
/// that does not compile gives its compile error.
proof fn lemma_fresh_cached(
    source: Seq<char>, r: Result<Seq<char>, (ErrorKind, Seq<char>)>,
    t1: Map<Seq<char>, Seq<char>>, c1: Seq<(Seq<char>, Seq<char>)>, n1: nat,
)
    requires
        cached_render(Map::empty(), Seq::empty(), 0, t1, c1, n1, source, r),
    ensures
        template_compiles(template_name(0), source) matches Err(f) ==> r == Err::<Seq<char>, (ErrorKind, Seq<char>)>(failure_view(f)),
        r is Ok ==> template_compiles(template_name(0), source) is Ok,
{
    let empty = Seq::<(Seq<char>, Seq<char>)>::empty();
    assert(!has_key(empty, source));
}

/// An engine keeps at most `REGISTERED_TEMPLATE_CAPACITY` sources registered,
/// each once; its templates are exactly the registered ones, each stored under
/// its name.
pub proof fn law_cache_bounded(engine: &TemplateEngine)
    requires
        engine.wf(),
    ensures
        engine.cached().len() <= REGISTERED_TEMPLATE_CAPACITY,
        forall|i: int, j: int| 0 <= i < engine.cached().len() && 0 <= j < engine.cached().len() && i != j
            ==> #[trigger] engine.cached()[i].0 != #[trigger] engine.cached()[j].0,
        forall|i: int| 0 <= i < engine.cached().len() ==> #[trigger] engine.templates().contains_key(engine.cached()[i].1)
            && engine.templates()[engine.cached()[i].1] == engine.cached()[i].0,
        forall|n: Seq<char>| #[trigger] engine.templates().contains_key(n)
            ==> exists|i: int| 0 <= i < engine.cached().len() && engine.cached()[i].1 == n,
{
    let e = engine.cached();
    let t = engine.templates();
    assert forall|i: int| 0 <= i < e.len() implies #[trigger] t.contains_key(e[i].1) && t[e[i].1] == e[i].0 by {
        assert(env_templates(engine.env).contains_key(lru_entries(engine.registered)[i].1));
    }
    assert forall|n: Seq<char>| #[trigger] t.contains_key(n) implies exists|i: int| 0 <= i < e.len() && e[i].1 == n by {
        assert(env_templates(engine.env).contains_key(n));
    }
}

/// Once a cached rendering of `source` found it registered or registered it,
/// rendering it through the cache again changes nothing: the source stays
/// registered under the same template.
pub proof fn law_cached_source_is_reused(
    t0: Map<Seq<char>, Seq<char>>, c0: Seq<(Seq<char>, Seq<char>)>, n0: nat,
    t1: Map<Seq<char>, Seq<char>>, c1: Seq<(Seq<char>, Seq<char>)>, n1: nat,
    t2: Map<Seq<char>, Seq<char>>, c2: Seq<(Seq<char>, Seq<char>)>, n2: nat,
    source: Seq<char>,
    r1: Result<Seq<char>, (ErrorKind, Seq<char>)>, r2: Result<Seq<char>, (ErrorKind, Seq<char>)>,
)
    requires
        cached_render(t0, c0, n0, t1, c1, n1, source, r1),
        cached_render(t1, c1, n1, t2, c2, n2, source, r2),
        has_key(c0, source) || (n0 < u64::MAX && template_compiles(template_name(n0), source) is Ok),
    ensures
        has_key(c1, source),
        t2 == t1,
        c2 == c1,
        n2 == n1,
{
    if !has_key(c0, source) {
        let ce = choose|failure: Option<(ErrorKind, Seq<char>)>| {
            &&& registration(t0, c0, n0, t1, c1, n1, source, failure)
            &&& (failure matches Some(e) ==> r1 == Err::<Seq<char>, (ErrorKind, Seq<char>)>(e))
        };
        let name = template_name(n0);
        let evicted = choose|evicted: Option<(Seq<char>, Seq<char>)>| {
            &&& push_effect(c0, REGISTERED_TEMPLATE_CAPACITY as nat, source, name, c1, evicted)
            &&& t1 == templates_after_registration(t0, name, source, evicted)
        };
        assert(key_at(c1, c1.len() - 1, source));
    }
}

/// Two rendering results are the same text, or errors of the same kind.
pub open spec fn same_outcome(r1: Result<Seq<char>, (ErrorKind, Seq<char>)>, r2: Result<Seq<char>, (ErrorKind, Seq<char>)>) -> bool {
    match (r1, r2) {
        (Ok(s1), Ok(s2)) => s1 == s2,
        (Err((k1, _)), Err((k2, _))) => k1 == k2,
        _ => false,
    }
}

/// The `cached` flag of positional rendering only chooses whether the template
/// is reused: with the same source and arguments, rendering through the cache
/// (`format_positional(source, args, true)`, or `render_positional` of any
/// engine) and rendering once give the same text, or errors of the same kind.
pub proof fn law_cached_flag_only_chooses_reuse(
    source: Seq<char>, args: Json,
    r_cached: Result<Seq<char>, (ErrorKind, Seq<char>)>, r_once: Result<Seq<char>, (ErrorKind, Seq<char>)>,
)
    requires
        positional_arguments_error(source, args) is None,
        rendering_agrees(r_cached, positional_rendering(true, positional_template(source), positional_context(array_items(args)))),
        rendering_agrees(r_once, positional_rendering(true, positional_template(source), positional_context(array_items(args)))),
    ensures
        same_outcome(r_cached, r_once),
{
}

/// For a positional template text, caching never changes the output: a
/// cached rendering (`format_template_cached`, `render_cached`) and a one-off
/// rendering (`format_template_once`, `render_once`) with the same context give
/// the same text, or errors of the same kind.
pub proof fn law_caching_keeps_output(
    tpl: Seq<char>, ctx: Json,
    r_cached: Result<Seq<char>, (ErrorKind, Seq<char>)>, r_once: Result<Seq<char>, (ErrorKind, Seq<char>)>,
)
    requires
        simple_template(tpl),
        rendering_agrees(r_cached, positional_rendering(true, tpl, ctx)),
        rendering_agrees(r_once, positional_rendering(true, tpl, ctx)),
    ensures
        same_outcome(r_cached, r_once),
{
}

/// Registering another new source keeps a registered source's entry, with
/// its name, unless that entry is the least recently used one of a full
/// cache (then it is the one evicted).
pub proof fn law_other_registration_keeps_entry(
    c0: Seq<(Seq<char>, Seq<char>)>, cap: nat, k: Seq<char>, v: Seq<char>,
    c1: Seq<(Seq<char>, Seq<char>)>, out: Option<(Seq<char>, Seq<char>)>, s: Seq<char>, i: int,
)
    requires
        push_effect(c0, cap, k, v, c1, out),
        !has_key(c0, k),
        key_at(c0, i, s),
        !(c0.len() >= cap && i == 0),
    ensures
        exists|j: int| key_at(c1, j, s) && c1[j].1 == c0[i].1,
{
    if c0.len() >= cap {
        assert(c1[i - 1] == c0[i]);
        assert(key_at(c1, i - 1, s));
    } else {
        assert(c1[i] == c0[i]);
        assert(key_at(c1, i, s));
    }
}

/// The `k`-th positional argument is passed under the name `_k`: the context of
/// positional arguments maps each argument name to its item.
pub proof fn law_positional_context_names(items: Seq<Json>, k: int)
    requires
        0 <= k < items.len(),
    ensures
        positional_context(items) matches Json::Object(m) && m.contains_key(argument_name(k as nat))
            && m[argument_name(k as nat)] == items[k],
{
    let entries = Seq::new(items.len(), |j: int| (argument_name(j as nat), items[j]));
    lemma_object_of_distinct_names(entries, items, k);
}

proof fn lemma_object_of_distinct_names(entries: Seq<(Seq<char>, Json)>, items: Seq<Json>, k: int)
    requires
        entries.len() <= items.len(),
        forall|j: int| 0 <= j < entries.len() ==> #[trigger] entries[j] == (argument_name(j as nat), items[j]),
        0 <= k < entries.len(),
    ensures
        object_of(entries).contains_key(argument_name(k as nat)),
        object_of(entries)[argument_name(k as nat)] == items[k],
    decreases entries.len(),
{
    let last = entries.len() - 1;
    if k < last {
        let prev = entries.drop_last();
        lemma_object_of_distinct_names(prev, items, k);
        if argument_name(last as nat) == argument_name(k as nat) {
            assert(decimal(last as nat) =~= argument_name(last as nat).skip(1));
            assert(decimal(k as nat) =~= argument_name(k as nat).skip(1));
            lemma_decimal_injective(last as nat, k as nat);
        }
    }
}

} // verus!
