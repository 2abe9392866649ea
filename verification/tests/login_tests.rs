use drawbridge_vpn::events::ConnectionStatus;
use drawbridge_vpn::login::{
    advance, announce, click_failure, first_cookie_value, click_timeout_error, code_option_timeout_error, cookie_poll,
    deadline_after, describe_page, focus_failure, give_up_selector_line, login_engine, mfa_choice,
    mfa_choice_line, mfa_state_line, mfa_timeout_error, mfa_waiting_line, selector_timeout_error,
    stage_failure, starting_stage, still_clicking_line, still_waiting_line, submit_error,
    submit_give_up_line, submit_plan, submit_retry_line, tick, following_stage, ActionResult,
    CookiePoll, Engine, Field, LoginStage, MfaChoice, Next, SubmitMove, Tick,
};

const URL: &str = "https://vpn.example.com:443/remote/saml/start?realm=";

fn run_to_end(engine: Engine) -> (Vec<LoginStage>, Vec<ConnectionStatus>, Vec<String>) {
    let mut stages = Vec::new();
    let mut statuses = Vec::new();
    let mut lines = Vec::new();
    let mut stage = starting_stage(engine);
    loop {
        let a = announce(engine, stage, URL, "a@b.com");
        statuses.extend(a.status);
        lines.extend(a.line);
        stages.push(stage);
        let t = advance(engine, stage, Ok("COOKIE".to_string()), URL, "");
        lines.extend(t.line);
        match t.next {
            Next::Run(n) => stage = n,
            Next::Finish(c) => {
                assert_eq!(c, "COOKIE");
                break;
            }
            Next::Fail(m) => panic!("failed: {m}"),
        }
    }
    (stages, statuses, lines)
}

#[test]
fn the_profile_switch_picks_the_engine() {
    assert_eq!(login_engine(true), Engine::Chrome);
    assert_eq!(login_engine(false), Engine::WebKit);
}

#[test]
fn a_chrome_sign_in_runs_every_stage_in_order() {
    let (stages, statuses, lines) = run_to_end(Engine::Chrome);
    assert_eq!(
        stages,
        vec![
            LoginStage::LocateBrowser,
            LoginStage::LaunchBrowser,
            LoginStage::OpenTab,
            LoginStage::BlockMedia,
            LoginStage::Navigate,
            LoginStage::FindField(Field::Email),
            LoginStage::FillField(Field::Email),
            LoginStage::SubmitField(Field::Email),
            LoginStage::FindField(Field::Password),
            LoginStage::FillField(Field::Password),
            LoginStage::SubmitField(Field::Password),
            LoginStage::ChooseMfa,
            LoginStage::GenerateCode,
            LoginStage::FindField(Field::Code),
            LoginStage::FillField(Field::Code),
            LoginStage::SubmitField(Field::Code),
            LoginStage::DismissPrompt,
            LoginStage::AwaitCookie,
        ]
    );
    assert_eq!(
        statuses,
        vec![ConnectionStatus::LoggingIn, ConnectionStatus::WaitingMfa, ConnectionStatus::ConnectingVpn]
    );
    assert_eq!(
        lines,
        vec![
            "Launching headless Chrome".to_string(),
            format!("Navigating to {URL}"),
            "Filling email address: a@b.com".to_string(),
            "Filling password".to_string(),
            "Waiting for the MFA method selection screen".to_string(),
            "Filling the one-time password code".to_string(),
            "Attempting to dismiss the 'stay signed in' prompt".to_string(),
            "Waiting for the SVPNCOOKIE to be issued".to_string(),
            "SVPNCOOKIE captured".to_string(),
        ]
    );
}

#[test]
fn a_webkit_sign_in_waits_for_the_page_and_skips_chrome_stages() {
    let (stages, statuses, lines) = run_to_end(Engine::WebKit);
    assert_eq!(stages.len(), 17);
    assert_eq!(stages[0], LoginStage::LaunchBrowser);
    assert_eq!(stages[1], LoginStage::BlockMedia);
    assert_eq!(stages[3], LoginStage::AwaitLoad);
    assert!(!stages.contains(&LoginStage::OpenTab) && !stages.contains(&LoginStage::LocateBrowser));
    assert_eq!(statuses.len(), 3);
    assert_eq!(lines[0], "Opening the built-in browser");
}

#[test]
fn failures_end_the_sign_in_with_context() {
    let fail = |engine, stage, cause: &str| match advance(engine, stage, Err(cause.to_string()), URL, "url=x title=y").next {
        Next::Fail(m) => m,
        Next::Run(n) => panic!("continued to {n:?}"),
        Next::Finish(_) => panic!("finished"),
    };
    assert_eq!(
        fail(Engine::Chrome, LoginStage::LocateBrowser, "Could not find Google Chrome. Install it from https://www.google.com/chrome/ and try again"),
        "Could not find Google Chrome. Install it from https://www.google.com/chrome/ and try again"
    );
    assert_eq!(
        fail(Engine::Chrome, LoginStage::LaunchBrowser, "no such file"),
        "Failed to launch Chrome. Make sure Google Chrome is installed: no such file"
    );
    assert_eq!(fail(Engine::WebKit, LoginStage::LaunchBrowser, "e"), "Failed to open the built-in browser: e");
    assert_eq!(fail(Engine::Chrome, LoginStage::OpenTab, "e"), "Failed to open a new browser tab: e");
    assert_eq!(fail(Engine::Chrome, LoginStage::BlockMedia, "e"), "Failed to subscribe to network request events: e");
    assert_eq!(fail(Engine::Chrome, LoginStage::Navigate, "e"), format!("Failed to navigate to {URL}: e"));
    assert_eq!(
        fail(Engine::WebKit, LoginStage::AwaitLoad, "Timed out waiting for the page to finish loading"),
        format!("Page did not finish loading {URL} (url=x title=y): Timed out waiting for the page to finish loading")
    );
    assert_eq!(fail(Engine::WebKit, LoginStage::FindField(Field::Code), "t"), "OTP input did not appear: t");
    assert_eq!(fail(Engine::Chrome, LoginStage::FindField(Field::Email), "t"), "Email input did not appear: t");
    assert_eq!(fail(Engine::Chrome, LoginStage::FillField(Field::Password), "t"), "Failed to type the password: t");
    assert_eq!(fail(Engine::WebKit, LoginStage::FillField(Field::Password), "t"), "Failed to fill the Password field");
    assert_eq!(fail(Engine::Chrome, LoginStage::GenerateCode, "clock"), "Failed to generate the current TOTP code: clock");
    assert_eq!(fail(Engine::WebKit, LoginStage::ChooseMfa, "as is"), "as is");
    assert_eq!(fail(Engine::WebKit, LoginStage::AwaitCookie, "Timed out waiting for the SVPNCOOKIE"), "Timed out waiting for the SVPNCOOKIE");
    assert_eq!(stage_failure(Engine::Chrome, LoginStage::FillField(Field::Code), "k", URL, ""), "Failed to type the OTP code: k");
}

#[test]
fn some_failures_are_shrugged_off() {
    let t = advance(Engine::WebKit, LoginStage::BlockMedia, Err("no store".to_string()), URL, "");
    assert_eq!(t.line.as_deref(), Some("Could not block media requests: no store"));
    assert!(matches!(t.next, Next::Run(LoginStage::Navigate)));
    for engine in [Engine::Chrome, Engine::WebKit] {
        let t = advance(engine, LoginStage::DismissPrompt, Err("gone".to_string()), URL, "");
        assert!(t.line.is_none());
        assert!(matches!(t.next, Next::Run(LoginStage::AwaitCookie)));
    }
    assert_eq!(following_stage(Engine::Chrome, LoginStage::AwaitCookie), None);
}

#[test]
fn waits_decide_between_ready_give_up_report_and_sleep() {
    assert_eq!(tick(true, 100, 50, 0, Some(10)), Tick::Ready);
    assert_eq!(tick(false, 100, 100, 0, Some(10)), Tick::GiveUp);
    assert_eq!(tick(false, 100, 200, 90, Some(10)), Tick::Report);
    assert_eq!(tick(false, 100, 200, 95, Some(10)), Tick::Sleep);
    assert_eq!(tick(false, 100, 200, 0, None), Tick::Sleep);
    assert_eq!(deadline_after(1000, 15000), 16000);
    assert_eq!(deadline_after(u64::MAX - 1, 5), u64::MAX);
}

#[test]
fn the_code_option_wins_the_mfa_choice() {
    assert_eq!(mfa_choice(true, true), Some(MfaChoice::UseCode));
    assert_eq!(mfa_choice(false, true), Some(MfaChoice::AnotherWay));
    assert_eq!(mfa_choice(false, false), None);
    assert_eq!(mfa_choice_line(MfaChoice::UseCode), "MFA option 'Use a verification code' is visible, selecting it");
    assert_eq!(mfa_choice_line(MfaChoice::AnotherWay), "Selecting 'I can't use my Microsoft Authenticator app right now'");
    assert_eq!(code_option_timeout_error(), "Timed out waiting to click text: Use a verification code");
}

#[test]
fn diagnostic_lines_read_as_logged() {
    let page = describe_page(Some("https://x".to_string()), None);
    assert_eq!(page, "url=https://x title=<unknown title>");
    assert_eq!(describe_page(None, Some("T".to_string())), "url=<unknown url> title=T");
    assert_eq!(mfa_state_line("P", "H"), "MFA screen state: P\nHTML: H");
    assert_eq!(mfa_waiting_line("P", "H"), "Still waiting for MFA options: P\nHTML: H");
    assert_eq!(mfa_timeout_error("P", "H"), "Timed out waiting for an MFA method selection option (P)\nHTML: H");
    assert_eq!(
        still_clicking_line("#a", "selector not found", "P", "H"),
        "Still trying to click selector '#a' (selector not found), current page: P\nHTML: H"
    );
    assert_eq!(give_up_selector_line("#a", "P", "H", None), "Giving up on selector '#a', current page: P\nHTML: H");
    assert_eq!(
        give_up_selector_line("#a", "P", "H", Some("[]")),
        "Giving up on selector '#a', current page: P\nHTML: H\nInteractive elements: []"
    );
    assert_eq!(click_timeout_error("#a", "click timed out"), "Timed out waiting to click selector #a: click timed out");
    assert_eq!(still_waiting_line("#a", "P", "H"), "Still waiting for selector '#a', current page: P\nHTML: H");
    assert_eq!(selector_timeout_error("#a"), "Timed out waiting for selector #a");
}

#[test]
fn click_errors_accumulate_the_focus_fallback() {
    let click = click_failure(&ActionResult::Failed("detached".to_string()));
    assert_eq!(click, "detached");
    assert_eq!(click_failure(&ActionResult::TimedOut), "click timed out");
    assert_eq!(focus_failure(&click, &ActionResult::Failed("hidden".to_string())), "detached; focus failed: hidden");
    assert_eq!(focus_failure("click timed out", &ActionResult::TimedOut), "click timed out; focus timed out");
}

#[test]
fn submit_rounds_differ_by_engine() {
    assert_eq!(
        submit_plan(Engine::Chrome),
        vec![
            (SubmitMove::PressEnter, 5000),
            (SubmitMove::ClickSubmit, 5000),
            (SubmitMove::ClickText(0), 3000),
            (SubmitMove::ClickText(1), 3000),
            (SubmitMove::ClickText(2), 3000),
        ]
    );
    assert_eq!(
        submit_plan(Engine::WebKit),
        vec![
            (SubmitMove::ClickSubmit, 5000),
            (SubmitMove::ClickText(0), 3000),
            (SubmitMove::ClickText(1), 3000),
            (SubmitMove::ClickText(2), 3000),
            (SubmitMove::PressEnter, 3000),
        ]
    );
    assert_eq!(
        submit_retry_line(2, "input", "P"),
        "Submit attempt 2 for 'input' did not advance the page, retrying: P"
    );
    assert_eq!(
        submit_give_up_line(12, "input", "P", "H", "[]"),
        "Giving up submitting 'input' after 12 attempts, current page: P\nHTML: H\nInteractive elements: []"
    );
    assert_eq!(
        submit_error(12, "input"),
        "Failed to submit the form for input: the field is still on the page after 12 attempts"
    );
}

#[test]
fn cookie_wait_ends_with_the_cookie_a_read_error_or_the_deadline() {
    assert!(matches!(cookie_poll(Ok(Some("v".to_string())), 0, 10), CookiePoll::Captured(c) if c == "v"));
    assert!(matches!(cookie_poll(Err("io".to_string()), 0, 10), CookiePoll::Failed(m) if m == "Failed to read browser cookies: io"));
    assert!(matches!(cookie_poll(Ok(None), 10, 10), CookiePoll::Failed(m) if m == "Timed out waiting for the SVPNCOOKIE"));
    assert!(matches!(cookie_poll(Ok(None), 9, 10), CookiePoll::Again));
}

#[test]
fn the_first_cookie_with_the_name_wins() {
    let cookies = vec![
        ("other".to_string(), "x".to_string()),
        ("SVPNCOOKIE".to_string(), "first".to_string()),
        ("SVPNCOOKIE".to_string(), "second".to_string()),
    ];
    assert_eq!(first_cookie_value(&cookies, "SVPNCOOKIE"), Some("first".to_string()));
    assert_eq!(first_cookie_value(&cookies, "svpncookie"), None);
    assert_eq!(first_cookie_value(&vec![], "SVPNCOOKIE"), None);
}
