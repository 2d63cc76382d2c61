use wjj_std::codes::{
    check_err_code_prefix, err_code_guard_ident, err_code_symbol, expand_variants, is_numeric_with_len, link_guard_ident,
    registration_ident, resolve_prefix, sanitize_ident_part, validate_err_code, DeclError, ErrVariant, VariantDecl, VariantKind,
};

fn decl(name: &str, items: &[(&str, &str)]) -> VariantDecl {
    VariantDecl {
        name: name.to_string(),
        items: items.iter().map(|(k, v)| (k.to_string(), v.to_string())).collect(),
        malformed: false,
    }
}

#[test]
fn numeric_with_len_cases() {
    assert!(is_numeric_with_len("00001", 5));
    assert!(!is_numeric_with_len("0001", 5));
    assert!(!is_numeric_with_len("0000a", 5));
    assert!(!is_numeric_with_len("０００", 3));
    assert!(is_numeric_with_len("", 0));
}

#[test]
fn full_code_is_prefix_then_number() {
    assert_eq!(validate_err_code(Some("00001"), "001").unwrap(), "00100001");
    assert!(matches!(validate_err_code(Some("1"), "001"), Err(DeclError::BadCode)));
    assert!(matches!(validate_err_code(None, "001"), Err(DeclError::MissingCode)));
    assert!(check_err_code_prefix("999").is_ok());
    assert!(matches!(check_err_code_prefix("99"), Err(DeclError::BadPrefix)));
}

#[test]
fn sanitize_cases() {
    assert_eq!(sanitize_ident_part("UserErrors"), "USERERRORS");
    assert_eq!(sanitize_ident_part("r#type"), "TYPE");
    assert_eq!(sanitize_ident_part("r#r#a-b"), "A_B");
    assert_eq!(sanitize_ident_part("é9"), "_9");
    assert_eq!(registration_ident("UserErrors", "UserNotFound"), "ERR_REG_USERERRORS_USERNOTFOUND");
    assert_eq!(link_guard_ident("E", "r#V"), "WJJ_STD_ERR_CODE_LINK_GUARD_E_V");
    assert_eq!(err_code_guard_ident("00100001"), "WJJ_STD_ERR_CODE_00100001");
    assert_eq!(err_code_symbol("00100001"), "__wjj_std_err_code_00100001");
}

#[test]
fn variant_update_and_validate() {
    let mut v = ErrVariant::new(VariantKind::Fmt, "UserNotFound".to_string());
    assert!(v.update("err_code", "00001".to_string()).is_ok());
    let e = v.update("err_msg", "x".to_string()).unwrap_err();
    assert_eq!(e.message(), "unknown attribute `err_msg`, expected `err_code` or `err_tpl`");
    assert!(v.validate("001").is_err());
    let mut v = ErrVariant::new(VariantKind::Raw, "Db".to_string());
    v.update("err_code", "00001".to_string()).unwrap();
    v.update("err_msg", "Database connection failed".to_string()).unwrap();
    v.validate("002").unwrap();
    assert_eq!(v.err_code, "00200001");
    let mut v = ErrVariant::new(VariantKind::Raw, "Db".to_string());
    v.update("err_code", "00001".to_string()).unwrap();
    assert_eq!(v.validate("002").unwrap_err().message(), "err_msg missing");
}

#[test]
fn expand_reads_variants_in_order() {
    let decls = vec![
        decl("UserNotFound", &[("err_code", "00001"), ("err_tpl", "User {{ name }} not found")]),
        decl("InvalidEmail", &[("err_code", "00002"), ("err_tpl", "Invalid email: {{ email }}")]),
    ];
    let vs = expand_variants(VariantKind::Fmt, "001", &decls).unwrap();
    assert_eq!(vs.len(), 2);
    assert_eq!(vs[1].err_code, "00100002");
    assert_eq!(vs[1].text.as_deref(), Some("Invalid email: {{ email }}"));
}

#[test]
fn expand_rejects_duplicate_codes() {
    let decls = vec![
        decl("A", &[("err_code", "00001"), ("err_msg", "a")]),
        decl("B", &[("err_code", "00002"), ("err_msg", "b")]),
        decl("C", &[("err_code", "00001"), ("err_msg", "c")]),
    ];
    let (at, e) = match expand_variants(VariantKind::Raw, "002", &decls) {
        Err(fault) => fault,
        Ok(_) => panic!("duplicate accepted"),
    };
    assert_eq!(at, 2);
    assert_eq!(e.message(), "duplicate err_code `00200001`; first used by variant `A`");
}

#[test]
fn expand_reports_first_failure() {
    let decls = vec![decl("A", &[("err_code", "0001"), ("err_msg", "a")]), decl("B", &[("bogus", "x")])];
    assert!(matches!(expand_variants(VariantKind::Raw, "002", &decls), Err((0, DeclError::BadCode))));
    let decls = vec![decl("A", &[("err_code", "00001")])];
    assert!(matches!(expand_variants(VariantKind::Fmt, "002", &decls), Err((0, DeclError::MissingText { kind: VariantKind::Fmt }))));
}

#[test]
fn prefix_resolution() {
    assert!(matches!(resolve_prefix(&vec![]), Err(DeclError::MissingPrefix)));
    assert_eq!(DeclError::MissingPrefix.message(), "`err_code_prefix` attribute is required on the enum");
    assert!(matches!(resolve_prefix(&vec!["12".to_string(), "123".to_string()]), Err(DeclError::BadPrefix)));
    assert_eq!(resolve_prefix(&vec!["001".to_string(), "002".to_string()]).unwrap(), "002");
}

#[test]
fn refused_code_is_cleared() {
    let mut v = ErrVariant::new(VariantKind::Fmt, "A".to_string());
    v.update("err_code", "12".to_string()).unwrap();
    v.update("err_tpl", "t".to_string()).unwrap();
    assert!(matches!(v.validate("001"), Err(DeclError::BadCode)));
    assert_eq!(v.err_code, "");
    let mut v = ErrVariant::new(VariantKind::Fmt, "A".to_string());
    v.update("err_code", "00007".to_string()).unwrap();
    assert!(matches!(v.validate("001"), Err(DeclError::MissingText { kind: VariantKind::Fmt })));
    assert_eq!(v.err_code, "00100007");
}

#[test]
fn malformed_variant_after_its_items() {
    let mut bad = decl("B", &[("bogus", "x")]);
    bad.malformed = true;
    let decls = vec![decl("A", &[("err_code", "00001"), ("err_msg", "a")]), bad];
    match expand_variants(VariantKind::Raw, "002", &decls) {
        Err((1, DeclError::UnknownAttribute { ident, .. })) => assert_eq!(ident, "bogus"),
        _ => panic!("the unknown attribute read before the fault comes first"),
    }
    let mut bad = decl("B", &[("err_code", "00002")]);
    bad.malformed = true;
    let decls = vec![decl("A", &[("err_code", "00001"), ("err_msg", "a")]), bad];
    assert!(matches!(expand_variants(VariantKind::Raw, "002", &decls), Err((1, DeclError::Malformed))));
}
