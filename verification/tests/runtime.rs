use envelope_gen::annot::{parse_annotation, ParseError};
use envelope_gen::config::{init, StripeConfig, WebhookConfig};
use envelope_gen::envelope::{serve, wrap_err, wrap_ok, CaseError, JsonValue};
use envelope_gen::jsontext::json_text;
use envelope_gen::respond::{eval_table, ResponseTable};
use envelope_gen::rules::{build_rules, CaseDecl};

fn case(name: &str, annot: Option<&str>) -> CaseDecl {
    CaseDecl { name: name.to_string(), annot: annot.map(|s| s.to_string()) }
}

fn billing_table() -> ResponseTable {
    let cases = vec![
        case("StripeError", Some("hidden = true")),
        case("MissingClientSecret", None),
        case("InvalidAmount", Some("code = BAD_REQUEST")),
    ];
    let rules = build_rules(&cases).unwrap();
    eval_table(&rules).expect("every rule evaluates")
}

fn err(name: &str, description: &str) -> CaseError {
    CaseError { name: name.to_string(), description: description.to_string() }
}

#[test]
fn parse_single_assignment() {
    let v = parse_annotation("code = BAD_REQUEST").unwrap();
    assert_eq!(v.len(), 1);
    assert_eq!(v[0].key, "code");
    assert_eq!(v[0].value, "BAD_REQUEST");
}

#[test]
fn parse_two_assignments_with_trailing_comma() {
    let v = parse_annotation("hidden = true, code = NOT_FOUND,").unwrap();
    assert_eq!(v.len(), 2);
    assert_eq!(v[0].key, "hidden");
    assert_eq!(v[0].value, "true");
    assert_eq!(v[1].key, "code");
    assert_eq!(v[1].value, "NOT_FOUND");
}

#[test]
fn parse_keeps_balanced_expression_text() {
    let v = parse_annotation("code = StatusCode::from_u16(418), hidden = false").unwrap();
    assert_eq!(v[0].value, "StatusCode::from_u16(418)");
    assert_eq!(v[1].value, "false");
}

#[test]
fn parse_rejects_missing_equals() {
    let ParseError::MalformedAnnotation { pos } = parse_annotation("code").unwrap_err();
    assert_eq!(pos, 4);
}

#[test]
fn parse_rejects_empty_text() {
    assert!(parse_annotation("").is_err());
    assert!(parse_annotation("   ").is_err());
}

#[test]
fn parse_rejects_missing_expression() {
    // The comma right after `=` leaves an empty expression; the
    // diagnostic points at it.
    let ParseError::MalformedAnnotation { pos } =
        parse_annotation("code = , hidden = true").unwrap_err();
    assert_eq!(pos, 7);
    let ParseError::MalformedAnnotation { pos } = parse_annotation("code =").unwrap_err();
    assert_eq!(pos, 6);
}

#[test]
fn parse_rejects_unbalanced_expression() {
    // The group opened inside the expression never closes; the
    // diagnostic points at the start of the expression after `=`.
    let ParseError::MalformedAnnotation { pos } =
        parse_annotation("code = from(1, hidden = true").unwrap_err();
    assert_eq!(pos, 6);
    assert!(parse_annotation("code = a)b").is_err());
}

#[test]
fn parse_points_at_second_bad_assignment() {
    // The first assignment is fine; the `=` where an identifier should
    // start is the offending token.
    let ParseError::MalformedAnnotation { pos } = parse_annotation("code = x, = y").unwrap_err();
    assert_eq!(pos, 10);
}

#[test]
fn explicit_code_case_shows_description() {
    // InvalidAmount: {code = BAD_REQUEST}, hidden unspecified, so visible.
    let table = billing_table();
    let (status, message) = table.to_response(
        &"InvalidAmount".to_string(),
        &"Body must be a valid non-zero uint64.".to_string(),
    );
    assert_eq!(status, 400);
    assert_eq!(message, "Body must be a valid non-zero uint64.");
}

#[test]
fn hidden_case_masks_description() {
    // StripeError: {hidden = true}, code unspecified, so 500 and generic.
    let table = billing_table();
    let (status, message) = table.to_response(
        &"StripeError".to_string(),
        &"card declined: insufficient funds".to_string(),
    );
    assert_eq!(status, 500);
    assert_eq!(message, "An unknown error occurred.");
}

#[test]
fn unannotated_case_gets_atomic_default() {
    // MissingClientSecret carries no annotation at all.
    let table = billing_table();
    let (status, message) = table.to_response(
        &"MissingClientSecret".to_string(),
        &"An error occurred while processing the billing request.".to_string(),
    );
    assert_eq!(status, 500);
    assert_eq!(message, "An unknown error occurred.");
}

#[test]
fn unknown_case_falls_back_defensively() {
    let table = billing_table();
    let (status, message) = table.to_response(&"NeverDeclared".to_string(), &"whatever".to_string());
    assert_eq!(status, 500);
    assert_eq!(message, "An unknown error occurred.");
}

#[test]
fn explicit_visible_rule_keeps_status_and_text() {
    let cases = vec![case("Gone", Some("code = NOT_FOUND, hidden = false"))];
    let rules = build_rules(&cases).unwrap();
    let table = eval_table(&rules).unwrap();
    let (status, message) = table.to_response(&"Gone".to_string(), &"no such record".to_string());
    assert_eq!(status, 404);
    assert_eq!(message, "no such record");
}

#[test]
fn eval_table_refuses_unknown_status_name() {
    let cases = vec![case("Odd", Some("code = IM_A_TEAPOT"))];
    let rules = build_rules(&cases).unwrap();
    assert!(eval_table(&rules).is_none());
}

#[test]
fn ok_outcome_wraps_data_with_status_200() {
    let table = billing_table();
    let envelope = serve(&table, Ok(JsonValue::Text("secret123".to_string())));
    assert_eq!(envelope.status, 200);
    assert_eq!(json_text(&envelope.body), "{\"data\":\"secret123\"}");
}

#[test]
fn err_outcome_wraps_response_message() {
    let table = billing_table();
    let case_err = err("InvalidAmount", "Body must be a valid non-zero uint64.");
    let expected = table.to_response(&case_err.name, &case_err.description);
    let envelope = serve(&table, Err(case_err));
    assert_eq!(envelope.status, expected.0);
    assert_eq!(envelope.status, 400);
    assert_eq!(
        json_text(&envelope.body),
        format!("{{\"error\":\"{}\"}}", expected.1)
    );
}

#[test]
fn hidden_err_outcome_is_generic_500() {
    let table = billing_table();
    let envelope = serve(&table, Err(err("StripeError", "card declined")));
    assert_eq!(envelope.status, 500);
    assert_eq!(json_text(&envelope.body), "{\"error\":\"An unknown error occurred.\"}");
}

#[test]
fn data_round_trip_through_serde_json() {
    let payload = JsonValue::Object(vec![
        ("id".to_string(), JsonValue::UInt(42)),
        ("name".to_string(), JsonValue::Text("club\"mate\"".to_string())),
        (
            "tags".to_string(),
            JsonValue::List(vec![JsonValue::Bool(true), JsonValue::Null, JsonValue::UInt(0)]),
        ),
    ]);
    let envelope = wrap_ok(payload);
    assert_eq!(envelope.status, 200);
    let text = json_text(&envelope.body);
    let parsed: serde_json::Value = serde_json::from_str(&text).expect("emitted JSON parses");
    let data = parsed.get("data").expect("data field present");
    assert_eq!(data.get("id").unwrap().as_u64(), Some(42));
    assert_eq!(data.get("name").unwrap().as_str(), Some("club\"mate\""));
    let tags = data.get("tags").unwrap().as_array().unwrap();
    assert_eq!(tags.len(), 3);
    assert_eq!(tags[0].as_bool(), Some(true));
    assert!(tags[1].is_null());
    assert_eq!(tags[2].as_u64(), Some(0));
}

#[test]
fn error_envelope_round_trip_through_serde_json() {
    let envelope = wrap_err(400, "Body must be a valid non-zero uint64.".to_string());
    let text = json_text(&envelope.body);
    let parsed: serde_json::Value = serde_json::from_str(&text).unwrap();
    assert_eq!(
        parsed.get("error").unwrap().as_str(),
        Some("Body must be a valid non-zero uint64.")
    );
}

#[test]
fn number_and_escape_emission() {
    assert_eq!(json_text(&JsonValue::UInt(0)), "0");
    assert_eq!(json_text(&JsonValue::UInt(18446744073709551615)), "18446744073709551615");
    assert_eq!(
        json_text(&JsonValue::Text("a\\b\"c\nd\te\r".to_string())),
        "\"a\\\\b\\\"c\\nd\\te\\r\""
    );
    assert_eq!(json_text(&JsonValue::List(vec![])), "[]");
    assert_eq!(json_text(&JsonValue::Object(vec![])), "{}");
}

#[test]
fn init_assembles_config() {
    let c = init(
        StripeConfig {
            secret_key: "sk_test_dummy".to_string(),
            webhook_secret: "whsec_dummy".to_string(),
        },
        WebhookConfig { url: "https://example.invalid/hook".to_string() },
    );
    assert_eq!(c.stripe.secret_key, "sk_test_dummy");
    assert_eq!(c.webhook.url, "https://example.invalid/hook");
}
