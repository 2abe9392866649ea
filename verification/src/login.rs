//! The sign-in flow as a sequence of stages. The browser work of each stage
//! is done by the caller; this module says which stage comes next, what the
//! window is told before a stage starts, and what a failed stage ends the
//! attempt with.

use vstd::prelude::*;
use crate::events::ConnectionStatus;
use crate::script::{OTP_INPUT_SELECTOR, SUBMIT_TEXT_CANDIDATES, USE_CODE_TEXT};
use crate::text::push_decimal;

verus! {

/// The browser that drives the sign-in.
#[derive(Debug, Clone, Copy, PartialEq, Eq, Structural)]
pub enum Engine {
    /// Headless Google Chrome, driven over its debugging protocol.
    Chrome,
    /// The built-in system web view.
    WebKit,
}

/// The engine a profile asks for.
pub open spec fn engine_for(use_chrome: bool) -> Engine {
    if use_chrome { Engine::Chrome } else { Engine::WebKit }
}

/// Chooses the engine from the profile's `use_chrome` switch.
pub fn login_engine(use_chrome: bool) -> (e: Engine)
    ensures
        e == engine_for(use_chrome),
{
    if use_chrome { Engine::Chrome } else { Engine::WebKit }
}

/// A form field that the flow fills in.
#[derive(Debug, Clone, Copy, PartialEq, Eq, Structural)]
pub enum Field {
    Email,
    Password,
    Code,
}

/// One stage of the sign-in.
#[derive(Debug, Clone, Copy, PartialEq, Eq, Structural)]
pub enum LoginStage {
    /// Find the Chrome executable and settle how it is started (Chrome only).
    LocateBrowser,
    /// Start the browser.
    LaunchBrowser,
    /// Open a blank tab (Chrome only).
    OpenTab,
    /// Refuse image and font downloads.
    BlockMedia,
    /// Go to the SAML start page.
    Navigate,
    /// Wait for the page to finish loading (built-in view only).
    AwaitLoad,
    /// Wait until the field is on the page (Chrome also clicks it).
    FindField(Field),
    /// Type the value into the field.
    FillField(Field),
    /// Submit the form and wait until the field is gone.
    SubmitField(Field),
    /// Pick "use a verification code" as the second factor.
    ChooseMfa,
    /// Compute the current one-time code.
    GenerateCode,
    /// Try to dismiss the "stay signed in?" prompt.
    DismissPrompt,
    /// Wait for the VPN session cookie.
    AwaitCookie,
}

/// The stage a sign-in starts with.
pub open spec fn first_stage(e: Engine) -> LoginStage {
    match e {
        Engine::Chrome => LoginStage::LocateBrowser,
        Engine::WebKit => LoginStage::LaunchBrowser,
    }
}

/// The stage that follows `s` once it succeeded; `None` after the last.
pub open spec fn next_stage(e: Engine, s: LoginStage) -> Option<LoginStage> {
    match s {
        LoginStage::LocateBrowser => Some(LoginStage::LaunchBrowser),
        LoginStage::LaunchBrowser => Some(
            if e == Engine::Chrome { LoginStage::OpenTab } else { LoginStage::BlockMedia },
        ),
        LoginStage::OpenTab => Some(LoginStage::BlockMedia),
        LoginStage::BlockMedia => Some(LoginStage::Navigate),
        LoginStage::Navigate => Some(
            if e == Engine::Chrome {
                LoginStage::FindField(Field::Email)
            } else {
                LoginStage::AwaitLoad
            },
        ),
        LoginStage::AwaitLoad => Some(LoginStage::FindField(Field::Email)),
        LoginStage::FindField(f) => Some(LoginStage::FillField(f)),
        LoginStage::FillField(f) => Some(LoginStage::SubmitField(f)),
        LoginStage::SubmitField(f) => Some(
            match f {
                Field::Email => LoginStage::FindField(Field::Password),
                Field::Password => LoginStage::ChooseMfa,
                Field::Code => LoginStage::DismissPrompt,
            },
        ),
        LoginStage::ChooseMfa => Some(LoginStage::GenerateCode),
        LoginStage::GenerateCode => Some(LoginStage::FindField(Field::Code)),
        LoginStage::DismissPrompt => Some(LoginStage::AwaitCookie),
        LoginStage::AwaitCookie => None,
    }
}

/// The position of a stage in the flow; every stage comes after the ones
/// with a lower position.
pub open spec fn stage_rank(s: LoginStage) -> int {
    match s {
        LoginStage::LocateBrowser => 0,
        LoginStage::LaunchBrowser => 1,
        LoginStage::OpenTab => 2,
        LoginStage::BlockMedia => 3,
        LoginStage::Navigate => 4,
        LoginStage::AwaitLoad => 5,
        LoginStage::FindField(f) => field_base(f),
        LoginStage::FillField(f) => field_base(f) + 1,
        LoginStage::SubmitField(f) => field_base(f) + 2,
        LoginStage::ChooseMfa => 12,
        LoginStage::GenerateCode => 13,
        LoginStage::DismissPrompt => 17,
        LoginStage::AwaitCookie => 18,
    }
}

/// The position of the first of the three stages that handle a field.
pub open spec fn field_base(f: Field) -> int {
    match f {
        Field::Email => 6,
        Field::Password => 9,
        Field::Code => 14,
    }
}

/// The status the window shows while a stage runs.
pub open spec fn status_during(s: LoginStage) -> ConnectionStatus {
    if stage_rank(s) < 12 {
        ConnectionStatus::LoggingIn
    } else if stage_rank(s) < 18 {
        ConnectionStatus::WaitingMfa
    } else {
        ConnectionStatus::ConnectingVpn
    }
}

/// The order of the statuses a sign-in goes through.
pub open spec fn status_rank(st: ConnectionStatus) -> int {
    match st {
        ConnectionStatus::LoggingIn => 0,
        ConnectionStatus::WaitingMfa => 1,
        ConnectionStatus::ConnectingVpn => 2,
        _ => 3,
    }
}

/// The status sent to the window just before a stage starts, if any.
pub open spec fn announced_status(e: Engine, s: LoginStage) -> Option<ConnectionStatus> {
    if s == first_stage(e) {
        Some(ConnectionStatus::LoggingIn)
    } else if s == LoginStage::ChooseMfa {
        Some(ConnectionStatus::WaitingMfa)
    } else if s == LoginStage::AwaitCookie {
        Some(ConnectionStatus::ConnectingVpn)
    } else {
        None
    }
}

pub const CHROME_LAUNCH_LINE: &'static str = "Launching headless Chrome";
pub const WEBKIT_LAUNCH_LINE: &'static str = "Opening the built-in browser";
pub const NAVIGATE_PREFIX: &'static str = "Navigating to ";
pub const EMAIL_PREFIX: &'static str = "Filling email address: ";
pub const PASSWORD_LINE: &'static str = "Filling password";
pub const MFA_WAIT_LINE: &'static str = "Waiting for the MFA method selection screen";
pub const CODE_LINE: &'static str = "Filling the one-time password code";
pub const DISMISS_LINE: &'static str = "Attempting to dismiss the 'stay signed in' prompt";
pub const COOKIE_WAIT_LINE: &'static str = "Waiting for the SVPNCOOKIE to be issued";
pub const COOKIE_CAPTURED_LINE: &'static str = "SVPNCOOKIE captured";
pub const MEDIA_BLOCK_FAILED_PREFIX: &'static str = "Could not block media requests: ";

/// The log line written just before a stage starts, if any.
pub open spec fn announced_line(e: Engine, s: LoginStage, url: Seq<char>, email: Seq<char>) -> Option<Seq<char>> {
    if s == first_stage(e) {
        Some(if e == Engine::Chrome { CHROME_LAUNCH_LINE@ } else { WEBKIT_LAUNCH_LINE@ })
    } else {
        match s {
            LoginStage::Navigate => Some(NAVIGATE_PREFIX@ + url),
            LoginStage::FindField(Field::Email) => Some(EMAIL_PREFIX@ + email),
            LoginStage::FindField(Field::Password) => Some(PASSWORD_LINE@),
            LoginStage::ChooseMfa => Some(MFA_WAIT_LINE@),
            LoginStage::FindField(Field::Code) => Some(CODE_LINE@),
            LoginStage::DismissPrompt => Some(DISMISS_LINE@),
            LoginStage::AwaitCookie => Some(COOKIE_WAIT_LINE@),
            _ => None,
        }
    }
}

/// What the window is told before a stage starts.
pub struct Announcement {
    pub status: Option<ConnectionStatus>,
    pub line: Option<String>,
}

/// Appends `b` to a copy of `a`.
fn joined(a: &str, b: &str) -> (res: String)
    ensures
        res@ == a@ + b@,
{
    let mut s = String::from_str(a);
    s.append(b);
    s
}

/// The status and log line to send before `stage` starts.
pub fn announce(engine: Engine, stage: LoginStage, url: &str, email: &str) -> (a: Announcement)
    ensures
        a.status == announced_status(engine, stage),
        match (a.line, announced_line(engine, stage, url@, email@)) {
            (Some(l), Some(m)) => l@ == m,
            (None, None) => true,
            _ => false,
        },
{
    let first = match engine {
        Engine::Chrome => LoginStage::LocateBrowser,
        Engine::WebKit => LoginStage::LaunchBrowser,
    };
    if stage == first {
        let line = match engine {
            Engine::Chrome => String::from_str(CHROME_LAUNCH_LINE),
            Engine::WebKit => String::from_str(WEBKIT_LAUNCH_LINE),
        };
        return Announcement { status: Some(ConnectionStatus::LoggingIn), line: Some(line) };
    }
    match stage {
        LoginStage::Navigate => Announcement { status: None, line: Some(joined(NAVIGATE_PREFIX, url)) },
        LoginStage::FindField(Field::Email) => Announcement {
            status: None,
            line: Some(joined(EMAIL_PREFIX, email)),
        },
        LoginStage::FindField(Field::Password) => Announcement {
            status: None,
            line: Some(String::from_str(PASSWORD_LINE)),
        },
        LoginStage::ChooseMfa => Announcement {
            status: Some(ConnectionStatus::WaitingMfa),
            line: Some(String::from_str(MFA_WAIT_LINE)),
        },
        LoginStage::FindField(Field::Code) => Announcement {
            status: None,
            line: Some(String::from_str(CODE_LINE)),
        },
        LoginStage::DismissPrompt => Announcement {
            status: None,
            line: Some(String::from_str(DISMISS_LINE)),
        },
        LoginStage::AwaitCookie => Announcement {
            status: Some(ConnectionStatus::ConnectingVpn),
            line: Some(String::from_str(COOKIE_WAIT_LINE)),
        },
        _ => Announcement { status: None, line: None },
    }
}

/// The successor of a stage, as the flow runs it.
pub fn following_stage(engine: Engine, stage: LoginStage) -> (r: Option<LoginStage>)
    ensures
        r == next_stage(engine, stage),
{
    match stage {
        LoginStage::LocateBrowser => Some(LoginStage::LaunchBrowser),
        LoginStage::LaunchBrowser => Some(
            match engine {
                Engine::Chrome => LoginStage::OpenTab,
                Engine::WebKit => LoginStage::BlockMedia,
            },
        ),
        LoginStage::OpenTab => Some(LoginStage::BlockMedia),
        LoginStage::BlockMedia => Some(LoginStage::Navigate),
        LoginStage::Navigate => Some(
            match engine {
                Engine::Chrome => LoginStage::FindField(Field::Email),
                Engine::WebKit => LoginStage::AwaitLoad,
            },
        ),
        LoginStage::AwaitLoad => Some(LoginStage::FindField(Field::Email)),
        LoginStage::FindField(f) => Some(LoginStage::FillField(f)),
        LoginStage::FillField(f) => Some(LoginStage::SubmitField(f)),
        LoginStage::SubmitField(f) => Some(
            match f {
                Field::Email => LoginStage::FindField(Field::Password),
                Field::Password => LoginStage::ChooseMfa,
                Field::Code => LoginStage::DismissPrompt,
            },
        ),
        LoginStage::ChooseMfa => Some(LoginStage::GenerateCode),
        LoginStage::GenerateCode => Some(LoginStage::FindField(Field::Code)),
        LoginStage::DismissPrompt => Some(LoginStage::AwaitCookie),
        LoginStage::AwaitCookie => None,
    }
}

/// The stage a sign-in with this engine starts with.
pub fn starting_stage(engine: Engine) -> (s: LoginStage)
    ensures
        s == first_stage(engine),
{
    match engine {
        Engine::Chrome => LoginStage::LocateBrowser,
        Engine::WebKit => LoginStage::LaunchBrowser,
    }
}

/// What a field is called in messages.
pub open spec fn field_name(f: Field) -> Seq<char> {
    match f {
        Field::Email => "Email"@,
        Field::Password => "Password"@,
        Field::Code => "OTP"@,
    }
}

/// What Chrome says it failed to type.
pub open spec fn typing_context(f: Field) -> Seq<char> {
    match f {
        Field::Email => "Failed to type the email address"@,
        Field::Password => "Failed to type the password"@,
        Field::Code => "Failed to type the OTP code"@,
    }
}

pub const CHROME_LAUNCH_FAILED: &'static str = "Failed to launch Chrome. Make sure Google Chrome is installed";
pub const WEBKIT_LAUNCH_FAILED: &'static str = "Failed to open the built-in browser";
pub const TAB_FAILED: &'static str = "Failed to open a new browser tab";
pub const INTERCEPT_FAILED: &'static str = "Failed to subscribe to network request events";
pub const NAVIGATE_FAILED: &'static str = "Failed to navigate to ";
pub const LOAD_FAILED: &'static str = "Page did not finish loading ";
pub const INPUT_MISSING: &'static str = " input did not appear";
pub const FILL_FAILED: &'static str = "Failed to fill the ";
pub const CODE_FAILED: &'static str = "Failed to generate the current TOTP code";
pub const COOKIE_READ_FAILED: &'static str = "Failed to read browser cookies";

/// `context: cause`, the way a chain of errors reads.
pub open spec fn in_context(context: Seq<char>, cause: Seq<char>) -> Seq<char> {
    context + ": "@ + cause
}

/// The message a failed stage ends the sign-in with. `cause` is the
/// failure as reported by the browser work; `page` describes the page at
/// the time, and is named only when the page would not finish loading.
pub open spec fn failure_message(
    e: Engine,
    s: LoginStage,
    cause: Seq<char>,
    url: Seq<char>,
    page: Seq<char>,
) -> Seq<char> {
    match s {
        LoginStage::LaunchBrowser => in_context(
            if e == Engine::Chrome { CHROME_LAUNCH_FAILED@ } else { WEBKIT_LAUNCH_FAILED@ },
            cause,
        ),
        LoginStage::OpenTab => in_context(TAB_FAILED@, cause),
        LoginStage::BlockMedia => in_context(INTERCEPT_FAILED@, cause),
        LoginStage::Navigate => in_context(NAVIGATE_FAILED@ + url, cause),
        LoginStage::AwaitLoad => in_context(LOAD_FAILED@ + url + " ("@ + page + ")"@, cause),
        LoginStage::FindField(f) => in_context(field_name(f) + INPUT_MISSING@, cause),
        LoginStage::FillField(f) => if e == Engine::Chrome {
            in_context(typing_context(f), cause)
        } else {
            FILL_FAILED@ + field_name(f) + " field"@
        },
        LoginStage::GenerateCode => in_context(CODE_FAILED@, cause),
        _ => cause,
    }
}

/// A failure that the flow shrugs off: the built-in view may load images
/// after all, and the "stay signed in?" prompt need not appear.
pub open spec fn tolerated(e: Engine, s: LoginStage) -> bool {
    (e == Engine::WebKit && s == LoginStage::BlockMedia) || s == LoginStage::DismissPrompt
}

/// What the flow does after a stage.
#[derive(Debug)]
pub enum Next {
    /// Run this stage next.
    Run(LoginStage),
    /// The sign-in is over; this is the session cookie.
    Finish(String),
    /// The sign-in failed with this message.
    Fail(String),
}

/// The outcome of a stage: a line for the log, if any, and what comes next.
pub struct Transition {
    pub line: Option<String>,
    pub next: Next,
}

fn field_name_text(f: Field) -> (s: String)
    ensures
        s@ == field_name(f),
{
    match f {
        Field::Email => String::from_str("Email"),
        Field::Password => String::from_str("Password"),
        Field::Code => String::from_str("OTP"),
    }
}

fn typing_context_text(f: Field) -> (s: String)
    ensures
        s@ == typing_context(f),
{
    match f {
        Field::Email => String::from_str("Failed to type the email address"),
        Field::Password => String::from_str("Failed to type the password"),
        Field::Code => String::from_str("Failed to type the OTP code"),
    }
}

/// Appends `": " + cause` to `context`.
fn with_cause(context: String, cause: &str) -> (res: String)
    ensures
        res@ == in_context(context@, cause@),
{
    let mut s = context;
    s.append(": ");
    s.append(cause);
    s
}

/// The message a failed stage ends the sign-in with.
pub fn stage_failure(engine: Engine, stage: LoginStage, cause: &str, url: &str, page: &str) -> (res: String)
    ensures
        res@ == failure_message(engine, stage, cause@, url@, page@),
{
    match stage {
        LoginStage::LaunchBrowser => match engine {
            Engine::Chrome => with_cause(String::from_str(CHROME_LAUNCH_FAILED), cause),
            Engine::WebKit => with_cause(String::from_str(WEBKIT_LAUNCH_FAILED), cause),
        },
        LoginStage::OpenTab => with_cause(String::from_str(TAB_FAILED), cause),
        LoginStage::BlockMedia => with_cause(String::from_str(INTERCEPT_FAILED), cause),
        LoginStage::Navigate => with_cause(joined(NAVIGATE_FAILED, url), cause),
        LoginStage::AwaitLoad => {
            let mut s = joined(LOAD_FAILED, url);
            s.append(" (");
            s.append(page);
            s.append(")");
            with_cause(s, cause)
        },
        LoginStage::FindField(f) => {
            let mut s = field_name_text(f);
            s.append(INPUT_MISSING);
            with_cause(s, cause)
        },
        LoginStage::FillField(f) => match engine {
            Engine::Chrome => with_cause(typing_context_text(f), cause),
            Engine::WebKit => {
                let mut s = String::from_str(FILL_FAILED);
                s.append(field_name_text(f).as_str());
                s.append(" field");
                s
            },
        },
        LoginStage::GenerateCode => with_cause(String::from_str(CODE_FAILED), cause),
        _ => String::from_str(cause),
    }
}

/// Decides what follows a stage. `outcome` is what the stage produced (the
/// cookie, for the last stage) or why it failed; `url` is the sign-in page
/// and `page` describes the page at the time of a failure.
pub fn advance(
    engine: Engine,
    stage: LoginStage,
    outcome: Result<String, String>,
    url: &str,
    page: &str,
) -> (t: Transition)
    ensures
        match outcome {
            Ok(v) => if stage == LoginStage::AwaitCookie {
                &&& t.line matches Some(l) && l@ == COOKIE_CAPTURED_LINE@
                &&& t.next matches Next::Finish(c) && c@ == v@
            } else {
                &&& t.line is None
                &&& t.next matches Next::Run(n) && next_stage(engine, stage) == Some(n)
            },
            Err(cause) => if tolerated(engine, stage) {
                &&& (if stage == LoginStage::BlockMedia {
                    t.line matches Some(l) && l@ == MEDIA_BLOCK_FAILED_PREFIX@ + cause@
                } else {
                    t.line is None
                })
                &&& t.next matches Next::Run(n) && next_stage(engine, stage) == Some(n)
            } else {
                &&& t.line is None
                &&& t.next matches Next::Fail(m) && m@ == failure_message(
                    engine,
                    stage,
                    cause@,
                    url@,
                    page@,
                )
            },
        },
{
    match outcome {
        Ok(v) => {
            match following_stage(engine, stage) {
                Some(n) => Transition { line: None, next: Next::Run(n) },
                None => Transition {
                    line: Some(String::from_str(COOKIE_CAPTURED_LINE)),
                    next: Next::Finish(v),
                },
            }
        },
        Err(cause) => {
            let media = stage == LoginStage::BlockMedia && engine == Engine::WebKit;
            if media || stage == LoginStage::DismissPrompt {
                let line = if media {
                    Some(joined(MEDIA_BLOCK_FAILED_PREFIX, cause.as_str()))
                } else {
                    None
                };
                match following_stage(engine, stage) {
                    Some(n) => Transition { line, next: Next::Run(n) },
                    None => Transition { line, next: Next::Fail(cause) },
                }
            } else {
                Transition {
                    line: None,
                    next: Next::Fail(stage_failure(engine, stage, cause.as_str(), url, page)),
                }
            }
        },
    }
}

/// Each stage is followed by one further along, so a sign-in ends after at
/// most as many stages as there are positions.
pub proof fn lemma_stages_move_forward(e: Engine, s: LoginStage)
    ensures
        next_stage(e, s) matches Some(n) ==> stage_rank(n) > stage_rank(s),
        0 <= stage_rank(s) <= 18,
        next_stage(e, s) is None <==> s == LoginStage::AwaitCookie,
{
}

/// Through a sign-in the status shown only moves forward: from logging in,
/// to waiting for the second factor, to connecting the tunnel; and each
/// status the flow announces is the one in force for the stage it precedes.
pub proof fn lemma_status_moves_forward(e: Engine, s: LoginStage)
    ensures
        next_stage(e, s) matches Some(n) ==> status_rank(status_during(s)) <= status_rank(status_during(n)),
        announced_status(e, s) matches Some(st) ==> st == status_during(s),
{
}

/// How long to wait for a field to appear, in milliseconds.
pub const FIELD_TIMEOUT_MS: u64 = 15000;
/// How long to try to dismiss the "stay signed in?" prompt.
pub const DISMISS_TIMEOUT_MS: u64 = 3000;
/// How long to wait for the page to load (built-in view).
pub const LOAD_TIMEOUT_MS: u64 = 20000;
/// How long to keep submitting a form.
pub const SUBMIT_TIMEOUT_MS: u64 = 30000;
/// How long to wait for an MFA method to be offered.
pub const MFA_TIMEOUT_MS: u64 = 30000;
/// How long to wait for the code option after asking for another method.
pub const CODE_OPTION_TIMEOUT_MS: u64 = 10000;
/// How long to wait for the session cookie.
pub const COOKIE_TIMEOUT_MS: u64 = 30000;
/// How often a waiting field lookup reports progress.
pub const FIELD_REPORT_MS: u64 = 3000;
/// How often the MFA wait reports progress.
pub const MFA_REPORT_MS: u64 = 5000;

/// One look at the page during a bounded wait.
#[derive(Debug, Clone, Copy, PartialEq, Eq, Structural)]
pub enum Tick {
    /// What was awaited is there.
    Ready,
    /// The deadline has passed.
    GiveUp,
    /// Not yet; say how things stand before waiting again.
    Report,
    /// Not yet; wait and look again.
    Sleep,
}

/// The decision after one look: done if `ready`, else give up once the
/// deadline is reached, else report if a report is due, else wait. With no
/// report interval, no report is ever due.
pub open spec fn tick_of(ready: bool, now: u64, deadline: u64, last_report: u64, every: Option<u64>) -> Tick {
    if ready {
        Tick::Ready
    } else if now >= deadline {
        Tick::GiveUp
    } else if every matches Some(n) && now >= last_report && now - last_report >= n {
        Tick::Report
    } else {
        Tick::Sleep
    }
}

/// Decides what to do after one look at the page; times are milliseconds
/// on one clock.
pub fn tick(ready: bool, now: u64, deadline: u64, last_report: u64, every: Option<u64>) -> (t: Tick)
    ensures
        t == tick_of(ready, now, deadline, last_report, every),
{
    if ready {
        Tick::Ready
    } else if now >= deadline {
        Tick::GiveUp
    } else {
        match every {
            Some(n) => if now >= last_report && now - last_report >= n {
                Tick::Report
            } else {
                Tick::Sleep
            },
            None => Tick::Sleep,
        }
    }
}

/// The instant `timeout` after `now`, or the end of the clock.
pub fn deadline_after(now: u64, timeout: u64) -> (d: u64)
    ensures
        d == if now + timeout <= u64::MAX { (now + timeout) as u64 } else { u64::MAX },
{
    now.saturating_add(timeout)
}

/// The second factor the MFA screen lets the flow pick.
#[derive(Debug, Clone, Copy, PartialEq, Eq, Structural)]
pub enum MfaChoice {
    /// "Use a verification code" is on screen: pick it.
    UseCode,
    /// Only "I can't use my Microsoft Authenticator app right now" is:
    /// pick it, then wait for the code option.
    AnotherWay,
}

/// The code option wins whenever it is visible.
pub open spec fn mfa_choice_of(use_code_visible: bool, another_way_visible: bool) -> Option<MfaChoice> {
    if use_code_visible {
        Some(MfaChoice::UseCode)
    } else if another_way_visible {
        Some(MfaChoice::AnotherWay)
    } else {
        None
    }
}

/// Picks the second factor from what the MFA screen shows.
pub fn mfa_choice(use_code_visible: bool, another_way_visible: bool) -> (c: Option<MfaChoice>)
    ensures
        c == mfa_choice_of(use_code_visible, another_way_visible),
        use_code_visible ==> c == Some(MfaChoice::UseCode),
        !use_code_visible && another_way_visible ==> c == Some(MfaChoice::AnotherWay),
        c is None <==> !use_code_visible && !another_way_visible,
{
    if use_code_visible {
        Some(MfaChoice::UseCode)
    } else if another_way_visible {
        Some(MfaChoice::AnotherWay)
    } else {
        None
    }
}

/// The code option is picked whenever it is shown, whatever else the
/// screen shows; the authenticator fallback only when the code option is
/// not shown; and the flow waits on only when neither is shown.
pub proof fn lemma_code_option_wins(use_code_visible: bool, another_way_visible: bool)
    ensures
        use_code_visible ==> mfa_choice_of(use_code_visible, another_way_visible) == Some(MfaChoice::UseCode),
        !use_code_visible && another_way_visible ==> mfa_choice_of(use_code_visible, another_way_visible)
            == Some(MfaChoice::AnotherWay),
        mfa_choice_of(use_code_visible, another_way_visible) is None <==> !use_code_visible
            && !another_way_visible,
{
}

pub const USE_CODE_SELECTED_LINE: &'static str = "MFA option 'Use a verification code' is visible, selecting it";
pub const ANOTHER_WAY_SELECTED_LINE: &'static str = "Selecting 'I can't use my Microsoft Authenticator app right now'";

/// The log line for a choice.
pub open spec fn choice_line(c: MfaChoice) -> Seq<char> {
    match c {
        MfaChoice::UseCode => USE_CODE_SELECTED_LINE@,
        MfaChoice::AnotherWay => ANOTHER_WAY_SELECTED_LINE@,
    }
}

/// The log line written when a choice is made.
pub fn mfa_choice_line(c: MfaChoice) -> (s: String)
    ensures
        s@ == choice_line(c),
{
    match c {
        MfaChoice::UseCode => String::from_str(USE_CODE_SELECTED_LINE),
        MfaChoice::AnotherWay => String::from_str(ANOTHER_WAY_SELECTED_LINE),
    }
}

/// `url={url} title={title}`, with placeholders for what could not be read.
pub open spec fn page_description(url: Option<Seq<char>>, title: Option<Seq<char>>) -> Seq<char> {
    "url="@ + (match url { Some(u) => u, None => "<unknown url>"@ }) + " title="@ + (match title {
        Some(t) => t,
        None => "<unknown title>"@,
    })
}

/// Describes the page by its address and title.
pub fn describe_page(url: Option<String>, title: Option<String>) -> (s: String)
    ensures
        s@ == page_description(
            match url { Some(u) => Some(u@), None => None },
            match title { Some(t) => Some(t@), None => None },
        ),
{
    let mut s = String::from_str("url=");
    match url {
        Some(u) => s.append(u.as_str()),
        None => s.append("<unknown url>"),
    }
    s.append(" title=");
    match title {
        Some(t) => s.append(t.as_str()),
        None => s.append("<unknown title>"),
    }
    s
}

/// `{page}\nHTML: {text}`: a page description followed by its text.
pub open spec fn page_dump(page: Seq<char>, text: Seq<char>) -> Seq<char> {
    page + "\nHTML: "@ + text
}

fn page_dump_text(head: &str, page: &str, text: &str) -> (s: String)
    ensures
        s@ == head@ + page_dump(page@, text@),
{
    let mut s = String::from_str(head);
    s.append(page);
    s.append("\nHTML: ");
    s.append(text);
    s
}

pub const MFA_STATE_PREFIX: &'static str = "MFA screen state: ";
pub const MFA_STILL_WAITING_PREFIX: &'static str = "Still waiting for MFA options: ";
pub const MFA_TIMEOUT_PREFIX: &'static str = "Timed out waiting for an MFA method selection option (";
pub const CLICK_TEXT_TIMEOUT_PREFIX: &'static str = "Timed out waiting to click text: ";

/// The line that records the MFA screen when the wait for it starts.
pub fn mfa_state_line(page: &str, text: &str) -> (s: String)
    ensures
        s@ == MFA_STATE_PREFIX@ + page_dump(page@, text@),
{
    page_dump_text(MFA_STATE_PREFIX, page, text)
}

/// The progress line of the MFA wait.
pub fn mfa_waiting_line(page: &str, text: &str) -> (s: String)
    ensures
        s@ == MFA_STILL_WAITING_PREFIX@ + page_dump(page@, text@),
{
    page_dump_text(MFA_STILL_WAITING_PREFIX, page, text)
}

/// The error when no MFA method was offered in time.
pub fn mfa_timeout_error(page: &str, text: &str) -> (s: String)
    ensures
        s@ == MFA_TIMEOUT_PREFIX@ + page@ + ")\nHTML: "@ + text@,
{
    let mut s = String::from_str(MFA_TIMEOUT_PREFIX);
    s.append(page);
    s.append(")\nHTML: ");
    s.append(text);
    s
}

/// The error when the code option never became clickable.
pub fn code_option_timeout_error() -> (s: String)
    ensures
        s@ == CLICK_TEXT_TIMEOUT_PREFIX@ + USE_CODE_TEXT@,
{
    joined(CLICK_TEXT_TIMEOUT_PREFIX, USE_CODE_TEXT)
}

/// One way of submitting a filled form.
#[derive(Debug, Clone, Copy, PartialEq, Eq, Structural)]
pub enum SubmitMove {
    /// Press Enter in the filled field.
    PressEnter,
    /// Click the form's submit control.
    ClickSubmit,
    /// Click the button whose text is the candidate with this index.
    ClickText(usize),
}

/// The moves of one submit round, each with how long to wait for the field
/// to go away afterwards. Chrome presses Enter first, the built-in view last.
pub open spec fn submit_round(e: Engine) -> Seq<(SubmitMove, u64)> {
    let texts = seq![
        (SubmitMove::ClickText(0), 3000u64),
        (SubmitMove::ClickText(1), 3000u64),
        (SubmitMove::ClickText(2), 3000u64),
    ];
    match e {
        Engine::Chrome => seq![(SubmitMove::PressEnter, 5000u64), (SubmitMove::ClickSubmit, 5000u64)] + texts,
        Engine::WebKit => seq![(SubmitMove::ClickSubmit, 5000u64)] + texts + seq![
            (SubmitMove::PressEnter, 3000u64),
        ],
    }
}

/// The moves of one submit round, in order.
pub fn submit_plan(e: Engine) -> (v: Vec<(SubmitMove, u64)>)
    ensures
        v@ == submit_round(e),
        forall|i: int| 0 <= i < v@.len() ==> ((#[trigger] v@[i]).0 matches SubmitMove::ClickText(k) ==> k < SUBMIT_TEXT_CANDIDATES@.len()),
{
    let mut v: Vec<(SubmitMove, u64)> = Vec::new();
    if e == Engine::Chrome {
        v.push((SubmitMove::PressEnter, 5000));
    }
    v.push((SubmitMove::ClickSubmit, 5000));
    v.push((SubmitMove::ClickText(0), 3000));
    v.push((SubmitMove::ClickText(1), 3000));
    v.push((SubmitMove::ClickText(2), 3000));
    if e == Engine::WebKit {
        v.push((SubmitMove::PressEnter, 3000));
    }
    assert(v@ =~= submit_round(e));
    v
}

/// `Submit attempt {n} for '{selector}' did not advance the page, retrying: {page}`
pub fn submit_retry_line(attempt: u32, selector: &str, page: &str) -> (s: String)
    ensures
        s@ == "Submit attempt "@ + crate::text::decimal(attempt as nat) + " for '"@ + selector@
            + "' did not advance the page, retrying: "@ + page@,
{
    let mut s = String::from_str("Submit attempt ");
    push_decimal(&mut s, attempt as u64);
    s.append(" for '");
    s.append(selector);
    s.append("' did not advance the page, retrying: ");
    s.append(page);
    s
}

/// `Giving up submitting '{selector}' after {n} attempts, current page:
/// {page}\nHTML: {text}\nInteractive elements: {elements}`
pub fn submit_give_up_line(attempt: u32, selector: &str, page: &str, text: &str, elements: &str) -> (s: String)
    ensures
        s@ == "Giving up submitting '"@ + selector@ + "' after "@ + crate::text::decimal(attempt as nat)
            + " attempts, current page: "@ + page_dump(page@, text@) + "\nInteractive elements: "@
            + elements@,
{
    let mut s = String::from_str("Giving up submitting '");
    s.append(selector);
    s.append("' after ");
    push_decimal(&mut s, attempt as u64);
    let t = page_dump_text(" attempts, current page: ", page, text);
    s.append(t.as_str());
    s.append("\nInteractive elements: ");
    s.append(elements);
    s
}

/// `Failed to submit the form for {selector}: the field is still on the
/// page after {n} attempts`
pub fn submit_error(attempt: u32, selector: &str) -> (s: String)
    ensures
        s@ == "Failed to submit the form for "@ + selector@ + ": the field is still on the page after "@
            + crate::text::decimal(attempt as nat) + " attempts"@,
{
    let mut s = String::from_str("Failed to submit the form for ");
    s.append(selector);
    s.append(": the field is still on the page after ");
    push_decimal(&mut s, attempt as u64);
    s.append(" attempts");
    s
}

/// How an action on a page element went.
#[derive(Debug)]
pub enum ActionResult {
    Succeeded,
    Failed(String),
    TimedOut,
}

pub const SELECTOR_NOT_FOUND: &'static str = "selector not found";

/// Why a click on a found element failed: the error, or that it timed out.
pub open spec fn click_error(r: ActionResult) -> Seq<char> {
    match r {
        ActionResult::Failed(e) => e@,
        _ => "click timed out"@,
    }
}

/// The error after the focus fallback failed too.
pub open spec fn focus_error(last: Seq<char>, r: ActionResult) -> Seq<char> {
    match r {
        ActionResult::Failed(e) => last + "; focus failed: "@ + e@,
        _ => last + "; focus timed out"@,
    }
}

/// Records why a click on a found element failed.
pub fn click_failure(r: &ActionResult) -> (s: String)
    ensures
        s@ == click_error(*r),
{
    match r {
        ActionResult::Failed(e) => e.clone(),
        _ => String::from_str("click timed out"),
    }
}

/// Records why the focus fallback failed, after `last`.
pub fn focus_failure(last: &str, r: &ActionResult) -> (s: String)
    ensures
        s@ == focus_error(last@, *r),
{
    let mut s = String::from_str(last);
    match r {
        ActionResult::Failed(e) => {
            s.append("; focus failed: ");
            s.append(e.as_str());
        },
        _ => s.append("; focus timed out"),
    }
    s
}

/// `Still trying to click selector '{selector}' ({last}), current page:
/// {page}\nHTML: {text}`
pub fn still_clicking_line(selector: &str, last: &str, page: &str, text: &str) -> (s: String)
    ensures
        s@ == "Still trying to click selector '"@ + selector@ + "' ("@ + last@ + "), current page: "@
            + page_dump(page@, text@),
{
    let mut s = String::from_str("Still trying to click selector '");
    s.append(selector);
    s.append("' (");
    s.append(last);
    let t = page_dump_text("), current page: ", page, text);
    s.append(t.as_str());
    s
}

/// `Giving up on selector '{selector}', current page: {page}\nHTML: {text}`,
/// followed, where the caller lists them, by the interactive elements.
pub fn give_up_selector_line(selector: &str, page: &str, text: &str, elements: Option<&str>) -> (s: String)
    ensures
        s@ == "Giving up on selector '"@ + selector@ + "', current page: "@ + page_dump(page@, text@) + (
        match elements {
            Some(e) => "\nInteractive elements: "@ + e@,
            None => Seq::<char>::empty(),
        }),
{
    let mut s = String::from_str("Giving up on selector '");
    s.append(selector);
    let t = page_dump_text("', current page: ", page, text);
    s.append(t.as_str());
    match elements {
        Some(e) => {
            s.append("\nInteractive elements: ");
            s.append(e);
        },
        None => {},
    }
    s
}

/// `Timed out waiting to click selector {selector}: {last}`
pub fn click_timeout_error(selector: &str, last: &str) -> (s: String)
    ensures
        s@ == "Timed out waiting to click selector "@ + selector@ + ": "@ + last@,
{
    let mut s = joined("Timed out waiting to click selector ", selector);
    s.append(": ");
    s.append(last);
    s
}

/// `Still waiting for selector '{selector}', current page: {page}\nHTML: {text}`
pub fn still_waiting_line(selector: &str, page: &str, text: &str) -> (s: String)
    ensures
        s@ == "Still waiting for selector '"@ + selector@ + "', current page: "@ + page_dump(page@, text@),
{
    let mut s = joined("Still waiting for selector '", selector);
    let t = page_dump_text("', current page: ", page, text);
    s.append(t.as_str());
    s
}

/// `Timed out waiting for selector {selector}`
pub fn selector_timeout_error(selector: &str) -> (s: String)
    ensures
        s@ == "Timed out waiting for selector "@ + selector@,
{
    joined("Timed out waiting for selector ", selector)
}

pub const COOKIE_TIMEOUT: &'static str = "Timed out waiting for the SVPNCOOKIE";

/// One look at the browser's cookies while waiting for the session cookie.
pub enum CookiePoll {
    Captured(String),
    Failed(String),
    Again,
}

/// Decides after one read of the cookies: a read error ends the wait with
/// that error in context, the cookie ends it with the cookie, and without
/// either the wait ends once the deadline has passed.
pub fn cookie_poll(read: Result<Option<String>, String>, now: u64, deadline: u64) -> (p: CookiePoll)
    ensures
        match read {
            Err(e) => p matches CookiePoll::Failed(m) && m@ == in_context(COOKIE_READ_FAILED@, e@),
            Ok(Some(c)) => p matches CookiePoll::Captured(v) && v@ == c@,
            Ok(None) => if now >= deadline {
                p matches CookiePoll::Failed(m) && m@ == COOKIE_TIMEOUT@
            } else {
                p is Again
            },
        },
{
    match read {
        Err(e) => CookiePoll::Failed(with_cause(String::from_str(COOKIE_READ_FAILED), e.as_str())),
        Ok(Some(c)) => CookiePoll::Captured(c),
        Ok(None) => if now >= deadline {
            CookiePoll::Failed(String::from_str(COOKIE_TIMEOUT))
        } else {
            CookiePoll::Again
        },
    }
}

pub const EMAIL_SELECTOR: &'static str = "input[type=\"email\"]";
pub const PASSWORD_SELECTOR: &'static str = "input[type=\"password\"]";
/// The "Yes" button of the "stay signed in?" prompt.
pub const STAY_SIGNED_IN_SELECTOR: &'static str = "#idSIButton9";
/// The cookie that carries the VPN session.
pub const SESSION_COOKIE_NAME: &'static str = "SVPNCOOKIE";

/// Where a field is found on the page.
pub open spec fn selector_of(f: Field) -> Seq<char> {
    match f {
        Field::Email => EMAIL_SELECTOR@,
        Field::Password => PASSWORD_SELECTOR@,
        Field::Code => OTP_INPUT_SELECTOR@,
    }
}

/// The CSS selector of a field.
pub fn field_selector(f: Field) -> (s: &'static str)
    ensures
        s@ == selector_of(f),
{
    match f {
        Field::Email => EMAIL_SELECTOR,
        Field::Password => PASSWORD_SELECTOR,
        Field::Code => OTP_INPUT_SELECTOR,
    }
}

/// `i` is the first position in `cookies` of a cookie named `name`.
pub open spec fn is_first_cookie(cookies: Seq<(String, String)>, name: Seq<char>, i: int) -> bool {
    &&& 0 <= i < cookies.len()
    &&& cookies[i].0@ == name
    &&& forall|j: int| 0 <= j < i ==> #[trigger] cookies[j].0@ != name
}

/// The value of the first cookie named `name`, among `(name, value)` pairs.
pub fn first_cookie_value(cookies: &Vec<(String, String)>, name: &str) -> (r: Option<String>)
    ensures
        r is None <==> forall|j: int| 0 <= j < cookies@.len() ==> #[trigger] cookies@[j].0@ != name@,
        r matches Some(v) ==> exists|i: int| is_first_cookie(cookies@, name@, i) && v@ == cookies@[i].1@,
{
    let mut i: usize = 0;
    while i < cookies.len()
        invariant
            i <= cookies@.len(),
            forall|j: int| 0 <= j < i ==> #[trigger] cookies@[j].0@ != name@,
        decreases cookies.len() - i,
    {
        if crate::text::str_eq(cookies[i].0.as_str(), name) {
            let v = cookies[i].1.clone();
            assert(is_first_cookie(cookies@, name@, i as int));
            return Some(v);
        }
        i = i + 1;
    }
    None
}

} // verus!
