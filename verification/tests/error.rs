use serde_json::Value;
use wjj_std::error::{check_registrations, init, try_init, BaseFmtErrs, BaseRawErrs, ErrRegistration, ErrRegistrationKind, FmtErr, InitError};
use wjj_std::err::{try_init as legacy_try_init, ErrCodeRegistration, FmtErr as LegacyFmtErr, TemplateRegistration};
use wjj_std::ErrorKind;

fn obj(pairs: Vec<(&str, Value)>) -> Value {
    let mut m = serde_json::Map::new();
    for (k, v) in pairs {
        m.insert(k.to_string(), v);
    }
    Value::Object(m)
}

fn sample_registrations() -> Vec<ErrRegistration> {
    vec![
        ErrRegistration { err_code: "00100001", kind: ErrRegistrationKind::Template { err_tpl: "User {{ name }} not found" } },
        ErrRegistration { err_code: "00200001", kind: ErrRegistrationKind::Raw { err_msg: "Database connection failed" } },
    ]
}

#[test]
fn fmt_err_renders_registered_template() {
    let templates = init(&sample_registrations());
    let err = FmtErr { err_code: "00100001", err_tpl: "User {{ name }} not found", err_args: obj(vec![("name", Value::from("Alice"))]) };
    assert_eq!(err.message(&templates), "User Alice not found");
}

#[test]
fn fmt_err_falls_back_when_rendering_fails() {
    let templates = init(&sample_registrations());
    let err = FmtErr { err_code: "00100001", err_tpl: "User {{ name }} not found", err_args: obj(vec![]) };
    let text = err.message(&templates);
    assert!(text.starts_with("[render failed. err_code: 00100001, err_tpl: User {{ name }} not found, err_args: {}, cause: undefined value"));
    assert!(text.ends_with("]"));
}

#[test]
fn fmt_err_without_template_falls_back() {
    let templates = init(&sample_registrations());
    let err = FmtErr { err_code: "00200001", err_tpl: "x", err_args: obj(vec![("a", Value::from(1))]) };
    let text = err.message(&templates);
    assert!(text.starts_with("[render failed. err_code: 00200001, err_tpl: x, err_args: {\"a\":1}, cause: template not found"));
}

#[test]
fn init_rejects_duplicate_codes() {
    let mut regs = sample_registrations();
    regs.push(ErrRegistration { err_code: "00200001", kind: ErrRegistrationKind::Raw { err_msg: "again" } });
    match try_init(&regs) {
        Err(InitError::DuplicateErrCode { err_code }) => assert_eq!(err_code, "00200001"),
        _ => panic!("duplicate not detected"),
    }
}

#[test]
fn init_reports_template_that_does_not_compile() {
    let regs = vec![ErrRegistration { err_code: "00300001", kind: ErrRegistrationKind::Template { err_tpl: "{% if %}" } }];
    match try_init(&regs) {
        Err(InitError::TemplateRegistration { err_code, error }) => {
            assert_eq!(err_code, "00300001");
            assert_eq!(error.kind(), ErrorKind::SyntaxError);
        },
        _ => panic!("compile error not reported"),
    }
}

#[test]
fn base_errors() {
    let raw = BaseRawErrs::SysRawErr.to_err();
    assert_eq!(raw.err_code, "99909999");
    assert_eq!(raw.message(), "System Error");
    let mut regs = BaseRawErrs::registrations();
    regs.extend(BaseFmtErrs::registrations());
    assert!(check_registrations(&regs).is_ok());
    let templates = init(&regs);
    let fmt = BaseFmtErrs::SysFmtErr.to_err(obj(vec![("cause", Value::from("network timeout"))]));
    assert_eq!(fmt.err_code, "99999999");
    assert_eq!(fmt.message(&templates), "System Error, cause: network timeout");
}

#[test]
fn legacy_registry_checks_templates_then_codes() {
    let tpls = vec![TemplateRegistration { err_code: "00100002", err_tpl: "Invalid email: {{ email }}" }];
    let codes = vec![ErrCodeRegistration { err_code: "00100002" }, ErrCodeRegistration { err_code: "00100003" }];
    let templates = legacy_try_init(&tpls, &codes).unwrap();
    let err = LegacyFmtErr { err_code: "00100002", err_tpl: "Invalid email: {{ email }}", err_args: obj(vec![("email", Value::from("x@"))]) };
    assert_eq!(err.message(&templates), "Invalid email: x@");
    let err = LegacyFmtErr { err_code: "00100002", err_tpl: "t", err_args: obj(vec![]) };
    assert_eq!(err.message(&templates), "[render failed. err_code: 00100002, err_tpl: t, err_args: {}]");
    let dup = vec![ErrCodeRegistration { err_code: "1" }, ErrCodeRegistration { err_code: "2" }, ErrCodeRegistration { err_code: "1" }];
    match legacy_try_init(&tpls, &dup) {
        Err(InitError::DuplicateErrCode { err_code }) => assert_eq!(err_code, "1"),
        _ => panic!("duplicate not detected"),
    }
}

#[test]
fn fmt_err_without_template_names_the_missing_code() {
    let templates = init(&sample_registrations());
    let err = FmtErr { err_code: "12345678", err_tpl: "t", err_args: obj(vec![]) };
    assert_eq!(
        err.message(&templates),
        "[render failed. err_code: 12345678, err_tpl: t, err_args: {}, cause: template not found: template \"12345678\" does not exist]"
    );
}

#[test]
fn template_not_found_error_from_render() {
    let templates = init(&sample_registrations());
    let e = templates.render("00200001", &obj(vec![])).unwrap_err();
    assert_eq!(e.kind(), ErrorKind::TemplateNotFound);
    assert_eq!(e.to_message(), "template not found: template \"00200001\" does not exist");
}

#[test]
fn legacy_later_template_replaces_earlier() {
    let tpls = vec![
        TemplateRegistration { err_code: "00100009", err_tpl: "first {{ x }}" },
        TemplateRegistration { err_code: "00100009", err_tpl: "second {{ x }}" },
    ];
    let templates = legacy_try_init(&tpls, &[]).unwrap();
    let err = LegacyFmtErr { err_code: "00100009", err_tpl: "second {{ x }}", err_args: obj(vec![("x", Value::from(1))]) };
    assert_eq!(err.message(&templates), "second 1");
}

#[test]
fn raw_registration_stores_no_template() {
    let templates = init(&sample_registrations());
    let e = templates.render("00200001", &obj(vec![])).unwrap_err();
    assert_eq!(e.kind(), ErrorKind::TemplateNotFound);
    assert_eq!(templates.render("00100001", &obj(vec![("name", Value::from("Bo"))])).unwrap(), "User Bo not found");
}

#[test]
fn check_registrations_reports_what_init_would_refuse() {
    let mut regs = sample_registrations();
    assert!(check_registrations(&regs).is_ok());
    regs.push(ErrRegistration { err_code: "00100001", kind: ErrRegistrationKind::Raw { err_msg: "dup" } });
    match check_registrations(&regs) {
        Err(InitError::DuplicateErrCode { err_code }) => assert_eq!(err_code, "00100001"),
        _ => panic!("duplicate not detected"),
    }
}

#[test]
fn missing_template_message_quotes_the_code_in_debug_form() {
    let templates = init(&sample_registrations());
    let e = templates.render("a\"b\\c", &obj(vec![])).unwrap_err();
    assert_eq!(e.to_message(), "template not found: template \"a\\\"b\\\\c\" does not exist");
}

#[test]
fn display_text_of_a_rendering_result() {
    let err = FmtErr { err_code: "1", err_tpl: "t", err_args: obj(vec![]) };
    assert_eq!(err.display_text(Ok("done".to_string())), "done");
    let failure = wjj_std::TemplateError { kind: ErrorKind::UndefinedError, message: "boom".to_string() };
    assert_eq!(err.display_text(Err(failure)), "[render failed. err_code: 1, err_tpl: t, err_args: {}, cause: boom]");
}
