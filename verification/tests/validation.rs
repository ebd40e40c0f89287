use api_server::collections::StringMap;
use api_server::error::{Error, FieldError, FieldErrorKind};
use api_server::json::Json;
use api_server::json_keys::{
    collect_value_duplicates, extract_string, find_all_duplicate_json_keys, find_duplicate_json_key,
    find_duplicate_json_key_public, skip_json_value, skip_whitespace,
};
use api_server::model::ObjectMeta;
use api_server::validation::{
    body_document, build_strict_decoding_message, build_warning_headers, check_fields,
    find_unknown_fields_via_diff,
    format_ignored_path, format_warning_header, is_droppable_default, meta_to_validate,
    no_field_errors, require_optional_object_name, validate_resource_name, validate_strict_fields,
    FieldValidationMode, PathStep,
};

fn map(pairs: &[(&str, &str)]) -> StringMap {
    let mut m = StringMap::new();
    for (k, v) in pairs {
        m.insert(k.to_string(), v.to_string());
    }
    m
}

fn parse(text: &str) -> Json {
    body_document(text.as_bytes()).unwrap()
}

/// Validates `body`, which its type writes as `canonical`; `ignored` are the
/// paths that the type's decoder passes over.
fn validate(mode: Option<&str>, body: &str, ignored: &[&str], canonical: &str) -> Result<Vec<String>, Error> {
    let params = match mode {
        Some(m) => map(&[("fieldValidation", m)]),
        None => StringMap::new(),
    };
    let ignored: Vec<String> = ignored.iter().map(|s| s.to_string()).collect();
    validate_strict_fields(&params, body.as_bytes(), &ignored, Ok(parse(canonical)))
}

fn message(e: Error) -> String {
    match e {
        Error::BadRequest(m) => m,
        other => panic!("expected a bad request, got {:?}", other),
    }
}

#[test]
fn require_optional_object_name_rejects_missing_and_empty() {
    for missing in [None, Some(""), Some(" ".trim())] {
        let err = require_optional_object_name(missing)
            .expect_err("missing/empty name must be rejected");
        match err {
            Error::Invalid(errs) => {
                assert_eq!(errs.len(), 1);
                assert_eq!(errs[0].field, "metadata.name");
                assert_eq!(errs[0].detail, "name or generateName is required");
            }
            other => panic!("expected Error::Invalid, got {other:?}"),
        }
    }
}

#[test]
fn require_optional_object_name_returns_name() {
    assert_eq!(require_optional_object_name(Some("foo")).unwrap(), "foo");
}

#[test]
fn test_valid_names() {
    assert!(validate_resource_name("my-config").is_ok());
    assert!(validate_resource_name("test-123").is_ok());
    assert!(validate_resource_name("a").is_ok());
    assert!(validate_resource_name("my.config.map").is_ok());
    assert!(validate_resource_name("123").is_ok());
}

#[test]
fn test_invalid_names() {
    assert!(validate_resource_name("").is_err());
    assert!(validate_resource_name("MyConfig").is_err());
    assert!(validate_resource_name("-my-config").is_err());
    assert!(validate_resource_name("my-config-").is_err());
    assert!(validate_resource_name("my_config").is_err());
    assert!(validate_resource_name("my config").is_err());

    let long_name = "a".repeat(254);
    assert!(validate_resource_name(&long_name).is_err());

    let max_name = "a".repeat(253);
    assert!(validate_resource_name(&max_name).is_ok());
}

#[test]
fn test_duplicate_key_top_level() {
    let json = r#"{"name": "a", "name": "b"}"#;
    assert_eq!(find_duplicate_json_key(json), Some("name".to_string()));
}

#[test]
fn test_no_duplicate_keys() {
    let json = r#"{"name": "a", "value": "b"}"#;
    assert_eq!(find_duplicate_json_key(json), None);
}

#[test]
fn test_duplicate_key_nested() {
    let json = r#"{"metadata": {"name": "test"}, "spec": {"replicas": 1, "replicas": 2}}"#;
    assert_eq!(
        find_duplicate_json_key(json),
        Some("spec.replicas".to_string())
    );
}

#[test]
fn test_duplicate_key_deeply_nested() {
    let json = r#"{"a": {"b": {"c": 1, "c": 2}}}"#;
    assert_eq!(find_duplicate_json_key(json), Some("a.b.c".to_string()));
}

#[test]
fn test_duplicate_key_in_array_element() {
    let json = r#"{"items": [{"x": 1, "x": 2}]}"#;
    assert_eq!(
        find_duplicate_json_key(json),
        Some("items[0].x".to_string())
    );
}

#[test]
fn test_no_duplicate_same_key_different_objects() {
    let json = r#"{"a": {"name": "x"}, "b": {"name": "y"}}"#;
    assert_eq!(find_duplicate_json_key(json), None);
}

#[test]
fn test_empty_object() {
    assert_eq!(find_duplicate_json_key("{}"), None);
}

#[test]
fn test_non_object() {
    assert_eq!(find_duplicate_json_key("[]"), None);
    assert_eq!(find_duplicate_json_key("42"), None);
}

#[test]
fn test_strict_validation_no_unknown_fields() {
    let body = r#"{"name": "test", "value": 42}"#;
    let warnings = validate(Some("Strict"), body, &[], body).unwrap();
    assert!(warnings.is_empty(), "no warnings on clean body");
}

#[test]
fn test_strict_validation_unknown_field() {
    let body = r#"{"name": "test", "extra": "field"}"#;
    let result = validate(Some("Strict"), body, &["extra"], r#"{"name": "test"}"#);
    assert!(result.is_err());
    let err_msg = message(result.unwrap_err());
    assert!(
        err_msg.contains("unknown field"),
        "Expected 'unknown field' in error: {}",
        err_msg
    );
}

#[test]
fn test_strict_validation_duplicate_field() {
    let body = r#"{"name": "a", "name": "b"}"#;
    let result = validate(Some("Strict"), body, &[], r#"{"name": "b"}"#);
    assert!(result.is_err());
    let err_msg = message(result.unwrap_err());
    assert!(
        err_msg.contains("duplicate field"),
        "Expected 'duplicate field' in error: {}",
        err_msg
    );
    assert!(
        err_msg.contains("name"),
        "Expected field name in error: {}",
        err_msg
    );
}

#[test]
fn test_strict_validation_default_is_warn() {
    let body = r#"{"name": "test", "extra": "field"}"#;
    let warnings = validate(None, body, &["extra"], r#"{"name": "test"}"#)
        .expect("default mode must not reject unknown fields");
    assert_eq!(warnings.len(), 1, "expected one warning: {:?}", warnings);
    assert!(
        warnings[0].contains("unknown field"),
        "warning should name the unknown field: {:?}",
        warnings
    );
}

#[test]
fn test_strict_validation_ignore_mode_allows_unknown() {
    let body = r#"{"name": "test", "extra": "field"}"#;
    let warnings = validate(Some("Ignore"), body, &["extra"], r#"{"name": "test"}"#).unwrap();
    assert!(warnings.is_empty(), "Ignore mode must not surface warnings");
}

#[test]
fn test_strict_validation_warn_mode_returns_warnings() {
    let body = r#"{"name": "test", "extra": "field"}"#;
    let warnings = validate(Some("Warn"), body, &["extra"], r#"{"name": "test"}"#).unwrap();
    assert_eq!(warnings.len(), 1);
    assert!(
        warnings[0].contains("unknown field") && warnings[0].contains("extra"),
        "warning must identify the unknown field: {:?}",
        warnings
    );
}

#[test]
fn test_strict_validation_nested_duplicate() {
    let body = r#"{"spec": {"replicas": 1, "replicas": 2}}"#;
    let result = validate(Some("Strict"), body, &[], r#"{"spec": {"replicas": 2}}"#);
    assert!(result.is_err());
    let err_msg = message(result.unwrap_err());
    assert!(
        err_msg.contains("duplicate field"),
        "Expected 'duplicate field' in error: {}",
        err_msg
    );
    assert!(
        err_msg.contains("spec.replicas"),
        "Expected 'spec.replicas' dotted path in error: {}",
        err_msg
    );
}

#[test]
fn test_strict_validation_error_format_matches_k8s() {
    let body = r#"{"name": "a", "name": "b"}"#;
    let result = validate(Some("Strict"), body, &[], r#"{"name": "b"}"#);
    assert!(result.is_err());
    let err_msg = message(result.unwrap_err());
    assert!(
        err_msg.contains(r#"strict decoding error:"#)
            && err_msg.contains(r#"duplicate field "name""#),
        "Error format must match K8s duplicate field detection: {}",
        err_msg
    );
}

#[test]
fn test_strict_validation_combined_unknown_and_duplicate() {
    let body = r#"{"spec": {"unknownField": "foo", "replicas": 1, "replicas": 2}}"#;
    let result =
        validate(Some("Strict"), body, &["spec.unknownField"], r#"{"spec": {"replicas": 2}}"#);
    assert!(result.is_err());
    let err_msg = message(result.unwrap_err());
    assert!(
        err_msg.contains(r#"unknown field "spec.unknownField""#),
        "Expected unknown field error: {}",
        err_msg
    );
    assert!(
        err_msg.contains(r#"duplicate field "spec.replicas""#),
        "Expected duplicate field error: {}",
        err_msg
    );
    assert!(
        err_msg.contains("strict decoding error:"),
        "Expected strict decoding error prefix: {}",
        err_msg
    );
}

#[test]
fn test_find_all_duplicate_json_keys_multiple() {
    let json = r#"{"a": 1, "a": 2, "b": {"c": 1, "c": 2}}"#;
    let dups = find_all_duplicate_json_keys(json);
    assert_eq!(dups.len(), 2, "Expected 2 duplicates, got: {:?}", dups);
    assert!(dups.contains(&"a".to_string()));
    assert!(dups.contains(&"b.c".to_string()));
}

#[test]
fn test_find_all_duplicate_json_keys_dotted_paths() {
    let json = r#"{"spec": {"replicas": 1, "replicas": 2}}"#;
    let dups = find_all_duplicate_json_keys(json);
    assert_eq!(dups, vec!["spec.replicas".to_string()]);
}

#[test]
fn test_format_warning_header_shape() {
    let header = format_warning_header(r#"unknown field "spec.bogus""#);
    assert!(
        header.starts_with("299 "),
        "header must start with warn-code 299: {}",
        header
    );
    assert!(
        header.contains("spec.bogus"),
        "header must mention the unknown field: {}",
        header
    );
    assert!(
        header.contains(r#"\"spec.bogus\""#),
        "field name should be quoted/escaped: {}",
        header
    );
}

#[test]
fn test_field_validation_mode_from_query_defaults_to_warn() {
    let empty = StringMap::new();
    assert_eq!(
        FieldValidationMode::from_query(&empty),
        FieldValidationMode::Warn
    );
    let blank = map(&[("fieldValidation", "")]);
    assert_eq!(
        FieldValidationMode::from_query(&blank),
        FieldValidationMode::Warn
    );
    let warn = map(&[("fieldValidation", "Warn")]);
    assert_eq!(
        FieldValidationMode::from_query(&warn),
        FieldValidationMode::Warn
    );
    let ignore = map(&[("fieldValidation", "Ignore")]);
    assert_eq!(
        FieldValidationMode::from_query(&ignore),
        FieldValidationMode::Ignore
    );
    let strict = map(&[("fieldValidation", "Strict")]);
    assert_eq!(
        FieldValidationMode::from_query(&strict),
        FieldValidationMode::Strict
    );
}

#[test]
fn comparison_shows_what_the_decoder_cannot() {
    let original = parse(r#"{"spec": {"items": [{"a": 1, "b": 2}, {"c": "x"}], "zero": false}}"#);
    let canonical = parse(r#"{"spec": {"items": [{"a": 1}, {"c": "x"}]}}"#);
    let mut found = Vec::new();
    find_unknown_fields_via_diff(&original, &canonical, "", &mut found);
    assert_eq!(found, vec!["spec.items[0].b".to_string()], "a dropped default is no unknown field");
    let mut found = Vec::new();
    find_unknown_fields_via_diff(&original, &original, "", &mut found);
    assert!(found.is_empty());
    assert!(is_droppable_default(&parse("[]")));
    assert!(!is_droppable_default(&parse("0")));
}

#[test]
fn broken_bodies_are_refused_in_their_own_words() {
    let params = map(&[("fieldValidation", "Strict")]);
    let none: Vec<String> = Vec::new();
    let e = validate_strict_fields(&params, b"{", &none, Ok(Json::Null)).unwrap_err();
    assert_eq!(message(e), "EOF while parsing an object at line 1 column 1");
    let e = check_fields(
        FieldValidationMode::Strict,
        b"{}",
        Err("duplicate field `name` at line 1".to_string()),
        &none,
        Ok(Json::Null),
    )
    .unwrap_err();
    assert_eq!(message(e), "strict decoding error: json: unknown field \"name\"");
    let e = validate_strict_fields(&params, b"{}", &none, Err("why".to_string())).unwrap_err();
    match e {
        Error::Internal(m) => assert!(m.ends_with(": why")),
        other => panic!("{:?}", other),
    }
}

#[test]
fn messages_and_headers_are_exact() {
    let unknown = vec!["a".to_string(), "b.c".to_string()];
    let duplicates = vec!["d".to_string()];
    assert_eq!(
        build_strict_decoding_message(&unknown, &duplicates),
        "strict decoding error: unknown field \"a\", unknown field \"b.c\", duplicate field \"d\""
    );
    assert_eq!(format_warning_header("a\\b"), "299 - \"a\\\\b\"");
    assert_eq!(build_warning_headers(&unknown), vec!["299 - \"a\"", "299 - \"b.c\""]);
}

#[test]
fn ignored_paths_are_dotted() {
    let steps = vec![
        PathStep::Key("spec".to_string()),
        PathStep::Key("items".to_string()),
        PathStep::Index(2),
        PathStep::Key("x".to_string()),
    ];
    assert_eq!(format_ignored_path(&steps), "spec.items[2].x");
}

#[test]
fn reader_of_keys_passes_over_values() {
    let text = br#"  {"a\"b": [1, -2.5e+3, "x}"], "n": null}  ,"#;
    let start = skip_whitespace(text, 0);
    assert_eq!(start, 2);
    assert_eq!(skip_json_value(text, start), Some(text.len() - 3));
    let (key, end) = extract_string(text, 3).unwrap();
    assert_eq!(key, "a\"b");
    assert_eq!(text[end], b':');
    assert_eq!(extract_string(b"\"open", 0), None);
    assert_eq!(skip_json_value(b"-12.5e7,", 0), Some(7));
    assert_eq!(skip_json_value(b"tru", 0), None);
    assert_eq!(
        find_duplicate_json_key_public("  {\"k\" : [ {} , {\"x\":1,\n\"x\":2} ] }\n"),
        Some("k[1].x".to_string())
    );
}

#[test]
fn metadata_is_validated_under_the_namespace_of_the_request() {
    let meta = ObjectMeta {
        name: "n".to_string(),
        namespace: Some("other".to_string()),
        uid: String::new(),
        resource_version: None,
        generation: None,
        creation_timestamp: None,
        deletion_timestamp: None,
        deletion_grace_period_seconds: None,
        labels: None,
    };
    assert_eq!(meta_to_validate(&meta, Some("ns")).namespace.as_deref(), Some("ns"));
    assert_eq!(meta_to_validate(&meta, None).namespace, None);
    assert!(no_field_errors(Vec::new()).is_ok());
    let errs = vec![FieldError {
        kind: FieldErrorKind::Required,
        field: "f".to_string(),
        value: String::new(),
        detail: "d".to_string(),
    }];
    assert!(matches!(no_field_errors(errs), Err(Error::Invalid(e)) if e.len() == 1));
}

#[test]
fn keys_are_compared_by_their_text() {
    let found = |text: &str| find_all_duplicate_json_keys(text);
    assert!(found(r#"{"n":1,"\n":2}"#).is_empty(), "a newline is not the letter n");
    assert!(found(r#"{"t":1,"\t":2,"r":3,"\r":4,"b":5,"\b":6,"f":7,"\f":8}"#).is_empty());
    assert_eq!(found(r#"{"a":1,"\u0061":2}"#), vec!["a"]);
    assert_eq!(found(r#"{"/":1,"\/":2}"#), vec!["/"]);
    assert_eq!(found(r#"{"\"":1,"\u0022":2}"#), vec!["\""]);
    assert_eq!(found("{\"\u{e9}\":1,\"\\u00e9\":2}"), vec!["\u{e9}"]);
    assert_eq!(found("{\"x\":{\"\u{1f600}\":1,\"\\ud83d\\ude00\":2}}"), vec!["x.\u{1f600}"]);
    assert!(found(r#"{"\\n":1,"\n":2}"#).is_empty());
}

#[test]
fn strings_are_read_as_the_parser_reads_them() {
    for text in [
        r#""plain""#,
        r#""\b\f\n\r\t\/\\\"""#,
        r#""\u0041\u00e9\u20ac\ud834\udd1e""#,
        "\"\u{e9}\u{20ac}\u{1d11e}\"",
    ] {
        let read: String = serde_json::from_str(text).unwrap();
        assert_eq!(extract_string(text.as_bytes(), 0), Some((read, text.len())));
    }
    let lone = br#""\ud834x""#;
    assert_eq!(extract_string(lone, 0), Some(("\u{fffd}x".to_string(), lone.len())));
    let short = br#""\u12""#;
    assert_eq!(extract_string(short, 0), Some(("u12".to_string(), short.len())));
    assert_eq!(extract_string(b"\"\xff\"", 0), Some(("\u{ff}".to_string(), 3)));
}

#[test]
fn values_within_a_text_end_where_they_were_written() {
    let text = br#"[ {"a": ["}", {"b": "]"}]}, -1.5e3 , "\"", null ]"#;
    let mut results = Vec::new();
    for (start, end) in [(2, 26), (28, 34), (37, 41), (43, 47)] {
        assert_eq!(skip_json_value(text, start), Some(end));
        assert_eq!(collect_value_duplicates(text, start, "p", &mut results), Some(end));
    }
    assert!(results.is_empty());
}

#[test]
fn bodies_are_read_as_documents() {
    let j = body_document(br#"{"a": 1, "b": [true, null, 1.5, "x"], "a": 18446744073709551615}"#).unwrap();
    assert!(matches!(j.get("a"), Some(Json::Int(18446744073709551615))), "the last value counts");
    match j.get("b") {
        Some(Json::Array(v)) => {
            assert!(matches!(v[0], Json::Bool(true)) && matches!(v[1], Json::Null));
            assert!(matches!(&v[2], Json::Float(t) if t == "1.5"));
            assert!(matches!(&v[3], Json::Text(t) if t == "x"));
        }
        _ => panic!("an array was expected"),
    }
    assert!(body_document(b"{").is_err());
}
