use drawbridge_vpn::webview::{
    blocking_rules_json, decode_eval_result, outcome_is_true, outcome_text, wrap_expression,
    EvalOutcome, JsonReply, WebView,
};

#[test]
fn wrap_expression_stringifies_the_result() {
    let wrapped = wrap_expression("1 + 1");
    assert!(wrapped.starts_with("JSON.stringify("));
    assert!(wrapped.contains("1 + 1"));
}

#[test]
fn wrap_expression_normalises_undefined_to_null() {
    assert!(wrap_expression("void 0").contains("undefined ? null"));
}

#[test]
fn blocking_rules_are_valid_json_with_a_block_action() {
    let rules = blocking_rules_json(&["png", "woff2"]);
    let parsed: serde_json::Value =
        serde_json::from_str(&rules).expect("WebKit rejects the whole list if it is not JSON");
    assert_eq!(parsed[0]["action"]["type"], "block");
}

#[test]
fn blocking_rules_escape_the_dot_and_alternate_the_extensions() {
    let rules = blocking_rules_json(&["png", "woff2"]);
    let parsed: serde_json::Value = serde_json::from_str(&rules).expect("valid json");
    assert_eq!(parsed[0]["trigger"]["url-filter"], "\\.(png|woff2)$");
}

#[test]
fn blocking_rules_read_exactly() {
    assert_eq!(
        blocking_rules_json(&["gif"]),
        r#"[{"trigger":{"url-filter":"\\.(gif)$"},"action":{"type":"block"}}]"#
    );
    assert_eq!(
        blocking_rules_json(&[]),
        r#"[{"trigger":{"url-filter":"\\.()$"},"action":{"type":"block"}}]"#
    );
}

#[test]
fn wrap_expression_reads_exactly() {
    assert_eq!(
        wrap_expression("x"),
        "JSON.stringify((function () { const __r = (x); return __r === undefined ? null : __r; })())"
    );
}

#[test]
fn eval_results_are_read_as_json() {
    assert!(matches!(decode_eval_result("true"), Ok(JsonReply::Bool(true))));
    assert!(matches!(decode_eval_result("false"), Ok(JsonReply::Bool(false))));
    match decode_eval_result("\"url=a\\nb\"") {
        Ok(JsonReply::Text(t)) => assert_eq!(t, "url=a\nb"),
        other => panic!("unexpected {other:?}"),
    }
    match decode_eval_result("{\"found\": true}") {
        Ok(JsonReply::Other(t)) => assert_eq!(t, "{\"found\":true}"),
        other => panic!("unexpected {other:?}"),
    }
    match decode_eval_result("null") {
        Ok(JsonReply::Other(t)) => assert_eq!(t, "null"),
        other => panic!("unexpected {other:?}"),
    }
}

#[test]
fn eval_results_that_are_not_json_are_errors_naming_the_text() {
    match decode_eval_result("nope") {
        Err(m) => assert_eq!(m, "Could not parse the eval result as JSON: nope"),
        Ok(v) => panic!("parsed {v:?}"),
    }
}

#[test]
fn only_a_true_reply_counts_as_success() {
    assert!(outcome_is_true(&EvalOutcome::Reply(JsonReply::Bool(true))));
    assert!(!outcome_is_true(&EvalOutcome::Reply(JsonReply::Bool(false))));
    assert!(!outcome_is_true(&EvalOutcome::Reply(JsonReply::Text("true".to_string()))));
    assert!(!outcome_is_true(&EvalOutcome::TimedOut));
    assert!(!outcome_is_true(&EvalOutcome::Failed("x".to_string())));
}

#[test]
fn reply_text_or_placeholder() {
    assert_eq!(outcome_text(EvalOutcome::Reply(JsonReply::Text("hello".to_string()))), "hello");
    assert_eq!(outcome_text(EvalOutcome::Reply(JsonReply::Bool(true))), "<unexpected eval result: true>");
    assert_eq!(
        outcome_text(EvalOutcome::Reply(JsonReply::Other("[1]".to_string()))),
        "<unexpected eval result: [1]>"
    );
    assert_eq!(outcome_text(EvalOutcome::Failed("boom".to_string())), "<eval failed: boom>");
    assert_eq!(outcome_text(EvalOutcome::TimedOut), "<eval timed out>");
}

#[test]
fn a_webview_handle_keeps_its_id() {
    assert_eq!(WebView::new(7).window_id(), 7);
}
