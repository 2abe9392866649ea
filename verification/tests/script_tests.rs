use drawbridge_vpn::script::{
    click_selector_script, escape_js_string, fill_input_script, press_enter_script,
    selector_present_script, text_center_lookup_script, text_lookup_script, visible_text_script,
    ANOTHER_WAY_TEXT, OTP_INPUT_SELECTOR, SUBMIT_SELECTOR, USE_CODE_TEXT, VISIBLE_TEXT_DUMP_LIMIT,
};

#[test]
fn escape_js_string_produces_a_quoted_literal() {
    assert_eq!(escape_js_string("Next"), "\"Next\"");
}

#[test]
fn escape_js_string_escapes_embedded_quotes() {
    assert_eq!(escape_js_string("say \"hi\""), "\"say \\\"hi\\\"\"");
}

#[test]
fn text_lookup_script_embeds_the_escaped_target() {
    let script = text_lookup_script(ANOTHER_WAY_TEXT, false);
    assert!(script.contains(&escape_js_string(ANOTHER_WAY_TEXT)));
}

#[test]
fn text_lookup_script_only_clicks_when_asked() {
    assert!(!text_lookup_script(USE_CODE_TEXT, false).contains(".click()"));
    assert!(text_lookup_script(USE_CODE_TEXT, true).contains(".click()"));
}

#[test]
fn selector_present_script_escapes_the_selector() {
    let script = selector_present_script(OTP_INPUT_SELECTOR);
    assert!(script.contains(&escape_js_string(OTP_INPUT_SELECTOR)));
    assert!(!script.contains("input[name=\"otpc\"]"));
}

#[test]
fn visible_text_script_uses_the_dump_limit() {
    assert!(visible_text_script().contains(&VISIBLE_TEXT_DUMP_LIMIT.to_string()));
}

#[test]
fn fill_input_script_uses_the_prototype_setter() {
    let script = fill_input_script("input[type=\"email\"]", "a@b.com");
    assert!(script.contains("Object.getOwnPropertyDescriptor"));
    assert!(script.contains("HTMLInputElement.prototype"));
    assert!(!script.contains("el.value ="));
}

#[test]
fn fill_input_script_dispatches_input_and_change() {
    let script = fill_input_script("input", "x");
    assert!(script.contains("new Event('input'"));
    assert!(script.contains("new Event('change'"));
}

#[test]
fn fill_input_script_escapes_both_arguments() {
    let script = fill_input_script("input[name=\"otpc\"]", "pa\"ss");
    assert!(script.contains(&escape_js_string("input[name=\"otpc\"]")));
    assert!(script.contains(&escape_js_string("pa\"ss")));
}

#[test]
fn click_selector_script_escapes_the_selector() {
    let script = click_selector_script(SUBMIT_SELECTOR);
    assert!(script.contains(&escape_js_string(SUBMIT_SELECTOR)));
    assert!(script.contains(".click()"));
}

#[test]
fn no_script_performs_a_native_form_submission() {
    for script in [
        fill_input_script("input", "x"),
        click_selector_script(SUBMIT_SELECTOR),
        press_enter_script("input"),
        text_lookup_script("Next", true),
    ] {
        assert!(!script.contains("requestSubmit"), "script: {script}");
        assert!(!script.contains(".submit()"), "script: {script}");
    }
}

#[test]
fn press_enter_script_fires_the_full_key_sequence() {
    let script = press_enter_script("input");
    for event in ["keydown", "keypress", "keyup"] {
        assert!(script.contains(event), "missing {event}");
    }
    assert!(script.contains("'Enter'"));
}

#[test]
fn escape_js_string_escapes_backslashes_and_controls() {
    assert_eq!(escape_js_string("a\\b"), "\"a\\\\b\"");
    assert_eq!(escape_js_string("l1\nl2\tx\r"), "\"l1\\nl2\\tx\\r\"");
    assert_eq!(escape_js_string("\u{8}\u{c}"), "\"\\b\\f\"");
    assert_eq!(escape_js_string("\u{1}\u{1f}"), "\"\\u0001\\u001f\"");
    assert_eq!(escape_js_string("é/<>"), "\"é/<>\"");
    assert_eq!(escape_js_string(""), "\"\"");
}

#[test]
fn escape_js_string_matches_serde_json() {
    for text in ["plain", "quote \" and \\ slash", "tab\tnew\nline", "\u{7f}\u{0}", "ünïcödé"] {
        assert_eq!(escape_js_string(text), serde_json::to_string(text).unwrap());
    }
}

#[test]
fn selector_present_script_reads_exactly() {
    assert_eq!(
        selector_present_script("#a"),
        "document.querySelector(\"#a\") !== null"
    );
}

#[test]
fn visible_text_script_reads_exactly() {
    assert_eq!(
        visible_text_script(),
        "document.body.innerText.replace(/\\s+/g, ' ').trim().slice(0, 3000)"
    );
}

#[test]
fn text_center_lookup_script_embeds_the_escaped_target() {
    let script = text_center_lookup_script("Sign \"in\"");
    assert!(script.contains(&escape_js_string("Sign \"in\"")));
    assert!(script.starts_with("(() => {"));
}
