use config_schema::builder::Builder;
use config_schema::schema::{BuildDefect, ErrorKind, FailedRule, FieldError, SchemaError, Schemas,
    Transformer, Type, Validator};
use config_schema::text;
use config_schema::value::{RawValue, Value};

fn s(x: &str) -> String {
    x.to_string()
}

fn one(k: &str, v: &str) -> (String, RawValue) {
    (s(k), RawValue::One(s(v)))
}

fn many(k: &str, vs: &[&str]) -> (String, RawValue) {
    (s(k), RawValue::Many(vs.iter().map(|x| s(x)).collect()))
}

fn registry() -> Schemas {
    Schemas::builder().build_tls().build().expect("the shipped schemas are well-formed")
}

fn get<'a>(out: &'a [(String, Value)], k: &str) -> Option<&'a Value> {
    out.iter().find(|(id, _)| id == k).map(|(_, v)| v)
}

fn resubmit(out: &[(String, Value)]) -> Vec<(String, RawValue)> {
    out.iter()
        .map(|(id, v)| {
            let raw = match v {
                Value::Absent => RawValue::One(String::new()),
                Value::Text(t) => RawValue::One(t.clone()),
                Value::Secret(t) => RawValue::One(t.clone()),
                Value::Bool(b) => RawValue::One(s(if *b { "true" } else { "false" })),
                Value::Millis(n) => RawValue::One(format!("{}ms", n)),
                Value::Int(n) => RawValue::One(format!("{}", n)),
                Value::TextList(l) => RawValue::Many(l.clone()),
            };
            (id.clone(), raw)
        })
        .collect()
}

#[test]
fn acme_tls_alpn_validates_without_dns_fields() {
    let reg = registry();
    let raw = vec![
        one("_id", "letsencrypt"),
        many("domains", &["example.com"]),
        many("contact", &["admin@example.com"]),
        one("challenge", "tls-alpn-01"),
    ];
    let out = reg.validate("acme", &raw, None).expect("DNS-01 block is hidden");
    assert_eq!(get(&out, "challenge"), Some(&Value::Text(s("tls-alpn-01"))));
    assert_eq!(
        get(&out, "directory"),
        Some(&Value::Text(s("https://acme-v02.api.letsencrypt.org/directory")))
    );
    assert_eq!(get(&out, "renew-before"), Some(&Value::Millis(2_592_000_000)));
    assert_eq!(get(&out, "domains"), Some(&Value::TextList(vec![s("example.com")])));
    assert_eq!(get(&out, "provider"), None);
    assert_eq!(get(&out, "host"), None);
    assert_eq!(get(&out, "port"), None);
    assert_eq!(get(&out, "secret"), None);
}

#[test]
fn acme_dns01_cloudflare_missing_host() {
    let reg = registry();
    let raw = vec![
        one("_id", "letsencrypt"),
        many("domains", &["example.com"]),
        many("contact", &["admin@example.com"]),
        one("challenge", "dns-01"),
        one("provider", "cloudflare"),
        one("secret", "SECRET-REDACTED"),
    ];
    let err = reg.validate("acme", &raw, None).unwrap_err();
    match err {
        SchemaError::Invalid(errs) => {
            assert_eq!(
                errs,
                vec![FieldError { field: s("host"), kind: ErrorKind::MissingRequired }]
            );
        },
        other => panic!("unexpected error {:?}", other),
    }
}

#[test]
fn acme_bad_contact_email() {
    let reg = registry();
    let raw = vec![
        one("_id", "letsencrypt"),
        many("domains", &["example.com"]),
        many("contact", &["not-an-email"]),
    ];
    let err = reg.validate("acme", &raw, None).unwrap_err();
    match err {
        SchemaError::Invalid(errs) => {
            assert_eq!(
                errs,
                vec![FieldError {
                    field: s("contact"),
                    kind: ErrorKind::ValidationFailed(FailedRule::Email),
                }]
            );
        },
        other => panic!("unexpected error {:?}", other),
    }
}

#[test]
fn certificate_bad_subject_and_missing_pem() {
    let reg = registry();
    let raw = vec![one("_id", "main"), many("subjects", &["bad_domain!"])];
    let err = reg.validate("certificate", &raw, None).unwrap_err();
    match err {
        SchemaError::Invalid(errs) => {
            assert_eq!(
                errs,
                vec![
                    FieldError { field: s("cert"), kind: ErrorKind::MissingRequired },
                    FieldError { field: s("private-key"), kind: ErrorKind::MissingRequired },
                    FieldError {
                        field: s("subjects"),
                        kind: ErrorKind::ValidationFailed(FailedRule::Domain),
                    },
                ]
            );
        },
        other => panic!("unexpected error {:?}", other),
    }
}

#[test]
fn tls_ignore_client_order_defaults_to_true() {
    let reg = registry();
    let out = reg.validate("tls", &vec![], None).expect("all tls fields have defaults or none");
    assert_eq!(get(&out, "server.tls.ignore-client-order"), Some(&Value::Bool(true)));
    assert_eq!(get(&out, "server.tls.timeout"), Some(&Value::Millis(60_000)));
    assert_eq!(get(&out, "server.tls.disable-protocols"), Some(&Value::Absent));
}

#[test]
fn validated_output_resubmits_to_identical_output() {
    let reg = registry();
    let raw = vec![
        one("_id", "  letsencrypt  "),
        many("domains", &[" example.com ", "mail.example.com"]),
        many("contact", &["admin@example.com"]),
        one("challenge", "tls-alpn-01"),
    ];
    let out = reg.validate("acme", &raw, None).expect("valid submission");
    assert_eq!(get(&out, "_id"), Some(&Value::Text(s("letsencrypt"))));
    let again = reg.validate("acme", &resubmit(&out), None).expect("resubmission is valid");
    assert_eq!(out, again);
}

#[test]
fn tls_output_resubmits_to_identical_output() {
    let reg = registry();
    let raw = vec![one("server.tls.timeout", "90s")];
    let out = reg.validate("tls", &raw, None).expect("valid submission");
    assert_eq!(get(&out, "server.tls.timeout"), Some(&Value::Millis(90_000)));
    let again = reg.validate("tls", &resubmit(&out), None).expect("resubmission is valid");
    assert_eq!(out, again);
}

#[test]
fn unknown_field_is_reported() {
    let reg = registry();
    let raw = vec![one("bogus", "x")];
    let err = reg.validate("tls", &raw, None).unwrap_err();
    match err {
        SchemaError::Invalid(errs) => {
            assert_eq!(
                errs,
                vec![FieldError { field: s("bogus"), kind: ErrorKind::UnknownField }]
            );
        },
        other => panic!("unexpected error {:?}", other),
    }
}

#[test]
fn unknown_schema_is_reported() {
    let reg = registry();
    assert_eq!(
        reg.validate("nope", &vec![], None).unwrap_err(),
        SchemaError::SchemaNotFound
    );
}

#[test]
fn select_rejects_non_member() {
    let reg = registry();
    let raw = vec![
        one("_id", "le"),
        many("domains", &["example.com"]),
        many("contact", &["a@example.com"]),
        one("challenge", "bogus-01"),
    ];
    let err = reg.validate("acme", &raw, None).unwrap_err();
    match err {
        SchemaError::Invalid(errs) => {
            assert_eq!(
                errs,
                vec![FieldError {
                    field: s("challenge"),
                    kind: ErrorKind::ValidationFailed(FailedRule::Custom),
                }]
            );
        },
        other => panic!("unexpected error {:?}", other),
    }
}

#[test]
fn boolean_rejects_non_boolean_text() {
    let reg = registry();
    let raw = vec![one("server.tls.ignore-client-order", "maybe")];
    let err = reg.validate("tls", &raw, None).unwrap_err();
    match err {
        SchemaError::Invalid(errs) => {
            assert_eq!(
                errs,
                vec![FieldError {
                    field: s("server.tls.ignore-client-order"),
                    kind: ErrorKind::ValidationFailed(FailedRule::Custom),
                }]
            );
        },
        other => panic!("unexpected error {:?}", other),
    }
}

#[test]
fn stored_values_gate_visibility() {
    let reg = registry();
    let stored = vec![(s("challenge"), Value::Text(s("dns-01")))];
    let raw = vec![one("secret", "SECRET-REDACTED")];
    let err = reg.validate("acme", &raw, Some(&stored)).unwrap_err();
    match err {
        SchemaError::Invalid(errs) => {
            assert!(errs.contains(&FieldError { field: s("host"), kind: ErrorKind::MissingRequired }));
            assert!(!errs.iter().any(|e| e.field == "secret"));
        },
        other => panic!("unexpected error {:?}", other),
    }
}

#[test]
fn visible_fields_follow_challenge_gate() {
    let reg = registry();
    let dns = vec![
        (s("challenge"), Value::Text(s("dns-01"))),
        (s("provider"), Value::Text(s("cloudflare"))),
    ];
    let vis = reg.visible_fields("acme", &dns).unwrap();
    assert!(vis.contains(&s("provider")));
    assert!(vis.contains(&s("host")));
    assert!(vis.contains(&s("secret")));
    assert!(vis.contains(&s("timeout")));
    assert!(!vis.contains(&s("tsig-algorithm")));
    assert!(!vis.contains(&s("port")));
    assert!(!vis.contains(&s("key")));

    let alpn = vec![(s("challenge"), Value::Text(s("tls-alpn-01")))];
    let vis = reg.visible_fields("acme", &alpn).unwrap();
    assert!(!vis.contains(&s("provider")));
    assert!(!vis.contains(&s("host")));
    assert!(!vis.contains(&s("secret")));
    assert!(vis.contains(&s("directory")));
}

#[test]
fn hidden_gate_hides_dependents() {
    let reg = registry();
    // provider holds an allowed value, but its own gate (challenge) is not
    // satisfied, so fields gated on provider stay hidden.
    let vals = vec![(s("provider"), Value::Text(s("rfc2136-tsig")))];
    let vis = reg.visible_fields("acme", &vals).unwrap();
    assert!(!vis.contains(&s("provider")));
    assert!(!vis.contains(&s("tsig-algorithm")));
    assert!(!vis.contains(&s("port")));
}

#[test]
fn visible_sections_follow_challenge_gate() {
    let reg = registry();
    let none = reg.visible_sections("acme", &vec![]).unwrap();
    assert_eq!(none, vec![s("ACME provider"), s("Certificate")]);
    let dns = vec![(s("challenge"), Value::Text(s("dns-01")))];
    let all = reg.visible_sections("acme", &dns).unwrap();
    assert_eq!(all, vec![s("ACME provider"), s("DNS settings"), s("Certificate")]);
    assert_eq!(reg.visible_sections("tls", &vec![]).unwrap(), vec![s("Default TLS options")]);
}

#[test]
fn builder_rejects_duplicate_field_id() {
    let r = Schemas::builder()
        .new_schema("x")
        .new_field("a")
        .build()
        .new_field("a")
        .build()
        .build()
        .build();
    assert!(matches!(r, Err(BuildDefect::DuplicateFieldId(_))));
}

#[test]
fn builder_rejects_duplicate_schema_key() {
    let r = Schemas::builder()
        .new_schema("x")
        .new_field("a")
        .build()
        .build()
        .new_schema("x")
        .new_field("b")
        .build()
        .build()
        .build();
    assert!(matches!(r, Err(BuildDefect::DuplicateSchemaKey(_))));
}

#[test]
fn builder_rejects_dangling_section_field() {
    let r = Schemas::builder()
        .new_schema("x")
        .new_field("a")
        .build()
        .new_form_section()
        .title("t")
        .fields(&["a", "b"])
        .build()
        .build()
        .build();
    assert!(matches!(r, Err(BuildDefect::DanglingFieldRef(_))));
}

#[test]
fn builder_rejects_forward_condition() {
    let r = Schemas::builder()
        .new_schema("x")
        .new_field("a")
        .display_if_eq("b", &["1"])
        .build()
        .new_field("b")
        .build()
        .build()
        .build();
    assert!(matches!(r, Err(BuildDefect::CyclicVisibility(_))));
}

#[test]
fn builder_rejects_self_condition() {
    let r = Schemas::builder()
        .new_schema("x")
        .new_field("a")
        .display_if_eq("a", &["1"])
        .build()
        .build()
        .build();
    assert!(matches!(r, Err(BuildDefect::CyclicVisibility(_))));
}

#[test]
fn builder_rejects_secret_in_list_view() {
    let r = Schemas::builder()
        .new_schema("x")
        .new_field("a")
        .typ(Type::Secret)
        .build()
        .list_fields(&["a"])
        .build()
        .build();
    assert!(matches!(r, Err(BuildDefect::SecretInListView(_))));
}

#[test]
fn builder_accepts_shipped_schemas() {
    let reg = registry();
    assert_eq!(reg.schemas.len(), 3);
    assert_eq!(reg.schemas[0].key, "acme");
    assert_eq!(reg.schemas[1].key, "certificate");
    assert_eq!(reg.schemas[2].key, "tls");
    assert_eq!(reg.schemas[0].fields.len(), 20);
}

#[test]
fn trim_removes_edge_whitespace_and_is_idempotent() {
    assert_eq!(text::trim("  a b \t\n"), "a b");
    assert_eq!(text::trim(""), "");
    assert_eq!(text::trim("   "), "");
    let once = text::trim("  x  ");
    assert_eq!(text::trim(&once), once);
}

#[test]
fn port_format() {
    assert!(text::is_port("53"));
    assert!(text::is_port("8080"));
    assert!(text::is_port("65535"));
    assert!(!text::is_port("0"));
    assert!(!text::is_port("65536"));
    assert!(!text::is_port("123456"));
    assert!(!text::is_port(""));
    assert!(!text::is_port("8o80"));
}

#[test]
fn email_format() {
    assert!(text::is_email("admin@example.com"));
    assert!(text::is_email("a@b.co"));
    assert!(!text::is_email("not-an-email"));
    assert!(!text::is_email("a@b@c.com"));
    assert!(!text::is_email("@example.com"));
    assert!(!text::is_email("a@"));
}

#[test]
fn domain_format() {
    assert!(text::is_domain("example.com"));
    assert!(text::is_domain("mail.example-host.org"));
    assert!(!text::is_domain("bad_domain!"));
    assert!(!text::is_domain("-a.com"));
    assert!(!text::is_domain("a..b"));
    assert!(!text::is_domain("a.-b.c"));
    assert!(!text::is_domain(""));
}

#[test]
fn url_format() {
    assert!(text::is_url("https://acme-v02.api.letsencrypt.org/directory"));
    assert!(text::is_url("http://example.com"));
    assert!(!text::is_url("example.com"));
    assert!(!text::is_url("http://"));
    assert!(!text::is_url("://nope"));
}

#[test]
fn ip_or_mask_format() {
    assert!(text::is_ip_or_mask("127.0.0.1"));
    assert!(text::is_ip_or_mask("10.0.0.0/8"));
    assert!(text::is_ip_or_mask("255.255.255.255"));
    assert!(!text::is_ip_or_mask("256.1.1.1"));
    assert!(!text::is_ip_or_mask("1.2.3"));
    assert!(!text::is_ip_or_mask("1.2.3.4/33"));
    assert!(!text::is_ip_or_mask("a.b.c.d"));
}

#[test]
fn duration_parsing() {
    assert_eq!(text::parse_duration("30d"), Some(2_592_000_000));
    assert_eq!(text::parse_duration("15s"), Some(15_000));
    assert_eq!(text::parse_duration("1m"), Some(60_000));
    assert_eq!(text::parse_duration("2h"), Some(7_200_000));
    assert_eq!(text::parse_duration("500ms"), Some(500));
    assert_eq!(text::parse_duration("10"), Some(10));
    assert_eq!(text::parse_duration("w5"), None);
    assert_eq!(text::parse_duration("5w"), None);
    assert_eq!(text::parse_duration(""), None);
    assert_eq!(text::parse_duration("99999999999999999999999999d"), None);
}

#[test]
fn listener_tls_fields_are_gated_on_override() {
    let r = Schemas::builder()
        .new_schema("listener")
        .new_field("tls.override")
        .typ(Type::Boolean)
        .build()
        .add_tls_fields(true)
        .build()
        .build()
        .expect("listener schema is well-formed");
    let hidden = r.visible_fields("listener", &vec![]).unwrap();
    assert!(!hidden.contains(&s("tls.timeout")));
    let shown = r
        .visible_fields("listener", &vec![(s("tls.override"), Value::Bool(true))])
        .unwrap();
    assert!(shown.contains(&s("tls.timeout")));
    assert!(shown.contains(&s("tls.ignore-client-order")));
}

#[test]
fn input_check_replaces_chains() {
    let r = Schemas::builder()
        .new_schema("x")
        .new_field("p")
        .input_check(&[Transformer::Trim], &[Validator::Required, Validator::IsPort])
        .build()
        .build()
        .build()
        .unwrap();
    let out = r.validate("x", &vec![one("p", " 8080 ")], None).unwrap();
    assert_eq!(get(&out, "p"), Some(&Value::Text(s("8080"))));
    let err = r.validate("x", &vec![one("p", "99999")], None).unwrap_err();
    match err {
        SchemaError::Invalid(errs) => {
            assert_eq!(errs[0].kind, ErrorKind::ValidationFailed(FailedRule::Port));
        },
        other => panic!("unexpected error {:?}", other),
    }
}
