use envelope_gen::diag::GenError;
use envelope_gen::gen::{derive_into_response, handler, DeriveTarget, EnumDecl, HandlerSpec, ParamDecl};
use envelope_gen::rules::{build_rules, CaseDecl};

fn case(name: &str, annot: Option<&str>) -> CaseDecl {
    CaseDecl { name: name.to_string(), annot: annot.map(|s| s.to_string()) }
}

fn billing_error_decl() -> EnumDecl {
    EnumDecl {
        name: "BillingError".to_string(),
        cases: vec![
            case("StripeError", Some("hidden = true")),
            case("MissingClientSecret", None),
            case("InvalidAmount", Some("code = BAD_REQUEST")),
        ],
    }
}

#[test]
fn build_rules_fills_per_key_defaults() {
    let decl = billing_error_decl();
    let rules = build_rules(&decl.cases).unwrap();
    assert_eq!(rules.len(), 3);
    assert_eq!(rules[0].name, "StripeError");
    assert_eq!(rules[0].rule.status, "INTERNAL_SERVER_ERROR");
    assert_eq!(rules[0].rule.hidden, "true");
    assert_eq!(rules[1].name, "MissingClientSecret");
    assert_eq!(rules[1].rule.status, "INTERNAL_SERVER_ERROR");
    assert_eq!(rules[1].rule.hidden, "true");
    assert_eq!(rules[2].name, "InvalidAmount");
    assert_eq!(rules[2].rule.status, "BAD_REQUEST");
    assert_eq!(rules[2].rule.hidden, "false");
}

#[test]
fn build_rules_last_write_wins_on_duplicate_names() {
    let cases = vec![
        case("Dup", Some("code = NOT_FOUND")),
        case("Other", None),
        case("Dup", Some("code = BAD_REQUEST, hidden = true")),
    ];
    let rules = build_rules(&cases).unwrap();
    assert_eq!(rules.len(), 2);
    assert_eq!(rules[0].name, "Dup");
    assert_eq!(rules[0].rule.status, "BAD_REQUEST");
    assert_eq!(rules[0].rule.hidden, "true");
    assert_eq!(rules[1].name, "Other");
}

#[test]
fn build_rules_reports_malformed_annotation() {
    let cases = vec![case("Fine", None), case("Broken", Some("code ="))];
    match build_rules(&cases) {
        Err(GenError::MalformedAnnotation { case: idx, pos }) => {
            assert_eq!(idx, 1);
            // The expression after `=` is missing; the diagnostic points
            // where one was expected.
            assert_eq!(pos, 6);
        },
        other => panic!("expected a malformed annotation, got {:?}", other.is_ok()),
    }
}

#[test]
fn build_rules_keeps_unknown_keys_harmless() {
    let cases = vec![case("Weird", Some("retry = 3, code = CONFLICT"))];
    let rules = build_rules(&cases).unwrap();
    assert_eq!(rules[0].rule.status, "CONFLICT");
    assert_eq!(rules[0].rule.hidden, "false");
}

#[test]
fn build_rules_later_assignment_wins_within_annotation() {
    let cases = vec![case("Flaky", Some("hidden = true, hidden = false, code = CONFLICT"))];
    let rules = build_rules(&cases).unwrap();
    assert_eq!(rules[0].rule.status, "CONFLICT");
    assert_eq!(rules[0].rule.hidden, "false");
}

#[test]
fn derive_emits_expected_impl() {
    let decl = billing_error_decl();
    let out = derive_into_response(&DeriveTarget::Enum(decl)).unwrap();
    assert!(out.starts_with("impl BillingError {\n"));
    assert!(out.contains("fn to_response(self) -> (::axum::http::StatusCode, String) {"));
    assert!(out.contains("Self::StripeError { .. } => {"));
    assert!(out.contains("Self::MissingClientSecret { .. } => {"));
    assert!(out.contains("Self::InvalidAmount { .. } => {"));
    assert!(out.contains("let status = ::axum::http::StatusCode::BAD_REQUEST;"));
    assert!(out.contains("#[allow(unreachable_patterns)]"));
    assert!(out.contains("impl ::axum::response::IntoResponse for BillingError {"));
    assert!(out.ends_with("self.to_response().into_response()\n    }\n}\n"));
}

#[test]
fn derive_output_is_valid_rust() {
    let decl = billing_error_decl();
    let out = derive_into_response(&DeriveTarget::Enum(decl)).unwrap();
    let parsed: Result<syn::File, _> = syn::parse_str(&out);
    let file = parsed.expect("emitted capability does not parse");
    assert_eq!(file.items.len(), 2);
}

#[test]
fn derive_golden_text_for_one_case() {
    let decl = EnumDecl {
        name: "PingError".to_string(),
        cases: vec![case("Timeout", Some("code = OK"))],
    };
    let out = derive_into_response(&DeriveTarget::Enum(decl)).unwrap();
    let expected = "impl PingError {
    fn to_response(self) -> (::axum::http::StatusCode, String) {
        match self {
            Self::Timeout { .. } => {
                let status = ::axum::http::StatusCode::OK;
                if false {
                    (status, \"An unknown error occurred.\".to_string())
                } else {
                    (status, self.to_string())
                }
            },
            #[allow(unreachable_patterns)]
            _ => {
                let status = ::axum::http::StatusCode::INTERNAL_SERVER_ERROR;
                (status, \"An unknown error occurred.\".to_string())
            },
        }
    }
}

impl ::axum::response::IntoResponse for PingError {
    fn into_response(self) -> ::axum::response::Response {
        self.to_response().into_response()
    }
}
";
    assert_eq!(out, expected);
}

#[test]
fn handler_golden_text_for_no_params() {
    let spec = HandlerSpec {
        vis: String::new(),
        name: "ping".to_string(),
        params: vec![],
        output: "Result<(), PingError>".to_string(),
        body: "{ run().await }".to_string(),
    };
    let out = handler(&spec).unwrap();
    let expected = "async fn ping_orig() -> Result<(), PingError> { run().await }

async fn ping() -> impl ::axum::response::IntoResponse {
    let result = (ping_orig)().await;
    match result {
        Ok(data) => {
            (::axum::http::StatusCode::OK, ::axum::Json(serde_json::json!({
                \"data\": data
            })))
        },
        Err(e) => {
            let (status, msg) = e.to_response();
            (status, ::axum::Json(serde_json::json!({
                \"error\": msg
            })))
        }
    }
}
";
    assert_eq!(out, expected);
}

#[test]
fn derive_is_deterministic_across_runs() {
    let first = derive_into_response(&DeriveTarget::Enum(billing_error_decl())).unwrap();
    let second = derive_into_response(&DeriveTarget::Enum(billing_error_decl())).unwrap();
    assert_eq!(first, second);
}

#[test]
fn derive_rejects_non_enum_target() {
    match derive_into_response(&DeriveTarget::Other) {
        Err(GenError::MissingEnumTarget) => {},
        _ => panic!("expected MissingEnumTarget"),
    }
}

fn billing_handler_decl() -> HandlerSpec {
    HandlerSpec {
        vis: String::new(),
        name: "billing".to_string(),
        params: vec![ParamDecl::Binding { name: "amount".to_string(), ty: "String".to_string() }],
        output: "Result<String, BillingError>".to_string(),
        body: "{ billing_body(amount).await }".to_string(),
    }
}

#[test]
fn handler_renames_original_and_wraps() {
    let out = handler(&billing_handler_decl()).unwrap();
    assert!(out.starts_with(
        "async fn billing_orig(amount: String) -> Result<String, BillingError> { billing_body(amount).await }\n\n"
    ));
    assert!(out.contains("async fn billing(amount: String) -> impl ::axum::response::IntoResponse {"));
    assert!(out.contains("let result = (billing_orig)(amount).await;"));
    assert!(out.contains("\"data\": data"));
    assert!(out.contains("let (status, msg) = e.to_response();"));
    assert!(out.contains("\"error\": msg"));
    assert!(!out.contains("e.to_string()"));
}

#[test]
fn handler_output_is_valid_rust() {
    let out = handler(&billing_handler_decl()).unwrap();
    let parsed: Result<syn::File, _> = syn::parse_str(&out);
    let file = parsed.expect("emitted handler pair does not parse");
    assert_eq!(file.items.len(), 2);
}

#[test]
fn handler_is_deterministic_across_runs() {
    let first = handler(&billing_handler_decl()).unwrap();
    let second = handler(&billing_handler_decl()).unwrap();
    assert_eq!(first, second);
}

#[test]
fn handler_joins_several_parameters() {
    let spec = HandlerSpec {
        vis: "pub ".to_string(),
        name: "webhook".to_string(),
        params: vec![
            ParamDecl::Binding { name: "headers".to_string(), ty: "HeaderMap".to_string() },
            ParamDecl::Binding { name: "body".to_string(), ty: "String".to_string() },
        ],
        output: "Result<(), WebhookError>".to_string(),
        body: "{ run(headers, body).await }".to_string(),
    };
    let out = handler(&spec).unwrap();
    assert!(out.contains("pub async fn webhook_orig(headers: HeaderMap, body: String)"));
    assert!(out.contains("(webhook_orig)(headers, body).await"));
}

#[test]
fn handler_rejects_receiver_parameter() {
    let spec = HandlerSpec {
        vis: String::new(),
        name: "bad".to_string(),
        params: vec![
            ParamDecl::Binding { name: "x".to_string(), ty: "u32".to_string() },
            ParamDecl::Receiver,
        ],
        output: "Result<(), E>".to_string(),
        body: "{}".to_string(),
    };
    match handler(&spec) {
        Err(GenError::UnsupportedParameterPattern { index }) => assert_eq!(index, 1),
        _ => panic!("expected UnsupportedParameterPattern"),
    }
}

#[test]
fn handler_rejects_pattern_parameter() {
    let spec = HandlerSpec {
        vis: String::new(),
        name: "bad".to_string(),
        params: vec![ParamDecl::Pattern {
            pat: "(a, b)".to_string(),
            ty: "(u32, u32)".to_string(),
        }],
        output: "Result<(), E>".to_string(),
        body: "{}".to_string(),
    };
    match handler(&spec) {
        Err(GenError::UnsupportedParameterPattern { index }) => assert_eq!(index, 0),
        _ => panic!("expected UnsupportedParameterPattern"),
    }
}
