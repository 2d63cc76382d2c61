use serde_json::Value;
use wjj_std::{format_positional, format_template_cached, format_template_once, ErrorKind, TemplateEngine};

fn s(v: &str) -> Value {
    Value::String(v.to_string())
}

fn obj(pairs: Vec<(&str, Value)>) -> Value {
    let mut m = serde_json::Map::new();
    for (k, v) in pairs {
        m.insert(k.to_string(), v);
    }
    Value::Object(m)
}

fn arr(items: Vec<Value>) -> Value {
    Value::Array(items)
}

// ===== format_template_once / format_template_cached =====

#[test]
fn test_template_once_basic() {
    let result = format_template_once("Hello {{ name }}", obj(vec![("name", s("Alice"))])).unwrap();
    assert_eq!(result, "Hello Alice");
}

#[test]
fn test_template_cached_basic() {
    let result = format_template_cached("Hello {{ name }}", obj(vec![("name", s("Bob"))])).unwrap();
    assert_eq!(result, "Hello Bob");
}

#[test]
fn test_template_cached_hits_cache() {
    let tpl = "value is {{ v }}";
    let r1 = format_template_cached(tpl, obj(vec![("v", Value::from(1))])).unwrap();
    let r2 = format_template_cached(tpl, obj(vec![("v", Value::from(2))])).unwrap();
    assert_eq!(r1, "value is 1");
    assert_eq!(r2, "value is 2");
}

#[test]
fn test_template_undefined_strict() {
    let result = format_template_once("{{ missing }}", obj(vec![]));
    assert!(result.is_err());
}

// ===== format_positional =====

#[test]
fn test_positional_basic() {
    let result = format_positional("Hello {}", arr(vec![s("Alice")]), false).unwrap();
    assert_eq!(result, "Hello Alice");
}

#[test]
fn test_positional_multiple_args() {
    let result = format_positional("{} has {} messages", arr(vec![s("Alice"), Value::from(3)]), false).unwrap();
    assert_eq!(result, "Alice has 3 messages");
}

#[test]
fn test_positional_cached() {
    let tpl = "Hi {}";
    let r1 = format_positional(tpl, arr(vec![s("A")]), true).unwrap();
    let r2 = format_positional(tpl, arr(vec![s("B")]), true).unwrap();
    assert_eq!(r1, "Hi A");
    assert_eq!(r2, "Hi B");
}

#[test]
fn test_positional_escape_braces() {
    let result = format_positional("score: {}%, literal: {{}}", arr(vec![Value::from(95)]), false).unwrap();
    assert_eq!(result, "score: 95%, literal: {}");
}

#[test]
fn test_positional_no_placeholder() {
    let result = format_positional("no placeholders", arr(vec![]), false).unwrap();
    assert_eq!(result, "no placeholders");
}

#[test]
fn test_positional_not_enough_args() {
    let result = format_positional("{} and {}", arr(vec![s("only_one")]), false);
    assert!(result.is_err());
    let err = result.unwrap_err();
    assert_eq!(err.kind(), ErrorKind::MissingArgument);
}

#[test]
fn test_positional_too_many_args() {
    let result = format_positional("{}", arr(vec![s("a"), s("b")]), false);
    assert!(result.is_err());
    let err = result.unwrap_err();
    assert_eq!(err.kind(), ErrorKind::TooManyArguments);
}

#[test]
fn test_positional_not_array() {
    let result = format_positional("{}", s("not array"), false);
    assert!(result.is_err());
    let err = result.unwrap_err();
    assert_eq!(err.kind(), ErrorKind::BadSerialization);
}

// ===== further cases =====

#[test]
fn positional_error_messages_are_exact() {
    let err = format_positional("{} and {}", arr(vec![s("x")]), false).unwrap_err();
    assert_eq!(err.to_message(), "missing argument: not enough arguments: expected 2, got 1");
    let err = format_positional("{}", arr(vec![s("a"), s("b"), s("c")]), true).unwrap_err();
    assert_eq!(err.to_message(), "too many arguments: too many arguments: expected 1, got 3");
    let err = format_positional("{}", Value::Null, false).unwrap_err();
    assert_eq!(err.to_message(), "could not serialize to value: positional args must be an array");
}

#[test]
fn positional_many_placeholders_numbered_in_order() {
    let items: Vec<Value> = (0..12).map(Value::from).collect();
    let tpl = "{}{}{}{}{}{}{}{}{}{}{}{}";
    let result = format_positional(tpl, arr(items), false).unwrap();
    assert_eq!(result, "01234567891011");
}

#[test]
fn positional_brace_sequences() {
    // `{{` is read before `{}`, so `{{}` is a brace followed by a lone `}`.
    let result = format_positional("a{{}b", arr(vec![]), false).unwrap();
    assert_eq!(result, "a{}b");
    let result = format_positional("}}{}", arr(vec![s("z")]), true).unwrap();
    assert_eq!(result, "}z");
}

#[test]
fn cached_engine_registers_and_reuses() {
    let mut engine = TemplateEngine::new();
    let a = engine.render_cached("x={{ x }}", &obj(vec![("x", Value::from(7))])).unwrap();
    let b = engine.render_cached("x={{ x }}", &obj(vec![("x", Value::from(8))])).unwrap();
    assert_eq!(a, "x=7");
    assert_eq!(b, "x=8");
    // The first registered source is stored as `__t0` and can be included by name.
    let c = engine.render_once("{% include '__t0' %}!", &obj(vec![("x", Value::from(9))])).unwrap();
    assert_eq!(c, "x=9!");
}

#[test]
fn cached_engine_evicts_least_recently_used() {
    let mut engine = TemplateEngine::new();
    let empty = obj(vec![]);
    for i in 0..1025 {
        let src = format!("t{}", i);
        assert_eq!(engine.render_cached(&src, &empty).unwrap(), src);
    }
    // `__t0` (for "t0") was the least recently used and has been dropped.
    assert!(engine.render_once("{% include '__t0' %}", &empty).is_err());
    assert_eq!(engine.render_once("{% include '__t1' %}", &empty).unwrap(), "t1");
    assert_eq!(engine.render_once("{% include '__t1024' %}", &empty).unwrap(), "t1024");
}

#[test]
fn cached_compile_error_is_reported() {
    let err = format_template_cached("{% if %}", obj(vec![])).unwrap_err();
    assert_eq!(err.kind(), ErrorKind::SyntaxError);
    let err = format_template_once("{{ a.b }}", obj(vec![])).unwrap_err();
    assert_eq!(err.kind(), ErrorKind::UndefinedError);
}

#[test]
fn kinds_read_back_from_descriptions() {
    let kinds = [
        ErrorKind::NonPrimitive, ErrorKind::SyntaxError, ErrorKind::TemplateNotFound, ErrorKind::TooManyArguments,
        ErrorKind::MissingArgument, ErrorKind::UndefinedError, ErrorKind::BadSerialization, ErrorKind::UnknownBlock,
        ErrorKind::Unknown,
    ];
    for k in kinds {
        assert_eq!(ErrorKind::from_description(k.description()), k);
    }
    assert_eq!(ErrorKind::from_description("something else"), ErrorKind::Unknown);
}

#[test]
fn positional_escapes_are_literal_text() {
    let result = format_positional("a {{{{ b }}}}", arr(vec![]), false).unwrap();
    assert_eq!(result, "a {{ b }}");
    let result = format_positional("a {{{{ b }}}}", arr(vec![]), true).unwrap();
    assert_eq!(result, "a {{ b }}");
    let result = format_positional("{% if %}{#{}", arr(vec![s("x")]), false).unwrap();
    assert_eq!(result, "{% if %}{#x");
    let result = format_positional("{}\n", arr(vec![s("line")]), false).unwrap();
    assert_eq!(result, "line\n");
}

#[test]
fn positional_arguments_hand_over_template_and_context() {
    let (tpl, ctx) = wjj_std::template::positional_arguments("{{{}", arr(vec![s("v")])).unwrap();
    assert_eq!(tpl, "{{ \"{\" }}{{ _0 }}{{ \"\" }}");
    assert_eq!(ctx, obj(vec![("_0", s("v"))]));
}

#[test]
fn cached_flag_does_not_change_positional_output() {
    let cases: Vec<(&str, Value)> = vec![
        ("Hello {}", arr(vec![s("Alice")])),
        ("{{}} and {} {{{{", arr(vec![Value::from(3)])),
        ("plain\n", arr(vec![])),
        ("{} {}", arr(vec![Value::Null, obj(vec![("k", Value::from(true))])])),
    ];
    for (src, args) in cases {
        let a = format_positional(src, args.clone(), true).unwrap();
        let b = format_positional(src, args, false).unwrap();
        assert_eq!(a, b);
    }
}

#[test]
fn render_once_reports_compile_errors() {
    let engine = TemplateEngine::new();
    let err = engine.render_once("{% if %}", &obj(vec![])).unwrap_err();
    assert_eq!(err.kind(), ErrorKind::SyntaxError);
}
