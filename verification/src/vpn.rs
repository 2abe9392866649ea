//! Starting and stopping openfortivpn: the privileged shell commands, and
//! reading what `ifconfig` and `netstat` print.

use vstd::prelude::*;
use crate::profile::Profile;
use crate::text::{
    chars_of, push_char, push_decimal, push_replacing, decimal, replace_char, split_lines,
    split_words, is_space, is_space_char, starts_with, trim_start, trimmed_start, before_colon,
    colon_prefix_len, has_at, chars_start_with, no_duplicates, listed, insert_absent, strings_of,
    string_views, views, lines, words, parsed_u64, parse_u64, contains_chars,
};

verus! {

/// Where openfortivpn writes its log: a directory only root may change.
pub const OPENFORTIVPN_LOG_DIR: &'static str = "/var/log/drawbridgevpn";

pub const OPENFORTIVPN_LOG_PATH: &'static str = "/var/log/drawbridgevpn/openfortivpn.log";

/// Where openfortivpn is looked for, in order; the privileged shell's PATH
/// lacks Homebrew's Apple Silicon prefix.
pub const OPENFORTIVPN_CANDIDATE_PATHS: [&'static str; 3] = [
    "/opt/homebrew/bin/openfortivpn",
    "/usr/local/bin/openfortivpn",
    "/usr/bin/openfortivpn",
];

/// The command used when no candidate exists: left to `PATH`.
pub const OPENFORTIVPN_FALLBACK: &'static str = "openfortivpn";

/// `s` as one POSIX shell word: in single quotes, each `'` written `'\''`.
pub open spec fn shell_quoted(s: Seq<char>) -> Seq<char> {
    seq!['\''] + replace_char(s, '\'', seq!['\'', '\\', '\'', '\'']) + seq!['\'']
}

pub fn shell_single_quote(value: &str) -> (res: String)
    ensures
        res@ == shell_quoted(value@),
{
    let mut out = String::new();
    push_char(&mut out, '\'');
    push_replacing(&mut out, value, '\'', "'\\''");
    push_char(&mut out, '\'');
    proof {
        reveal_strlit("'\\''");
        assert("'\\''"@ =~= seq!['\'', '\\', '\'', '\'']);
    }
    assert(out@ =~= shell_quoted(value@));
    out
}

/// `s` for use inside an AppleScript string literal: each `\` doubled, then
/// each `"` preceded by `\`.
pub open spec fn applescript_escaped(s: Seq<char>) -> Seq<char> {
    replace_char(replace_char(s, '\\', seq!['\\', '\\']), '"', seq!['\\', '"'])
}

pub fn applescript_double_quote_escape(value: &str) -> (res: String)
    ensures
        res@ == applescript_escaped(value@),
{
    let mut first = String::new();
    push_replacing(&mut first, value, '\\', "\\\\");
    let mut out = String::new();
    push_replacing(&mut out, first.as_str(), '"', "\\\"");
    proof {
        reveal_strlit("\\\\");
        reveal_strlit("\\\"");
        assert("\\\\"@ =~= seq!['\\', '\\']);
        assert("\\\""@ =~= seq!['\\', '"']);
        assert(first@ =~= replace_char(value@, '\\', seq!['\\', '\\']));
    }
    assert(out@ =~= applescript_escaped(value@));
    out
}

/// The AppleScript that runs `inner` as root after asking for an
/// administrator's password.
pub open spec fn privileged_applescript(inner: Seq<char>) -> Seq<char> {
    "do shell script \""@ + applescript_escaped(inner) + "\" with administrator privileges"@
}

pub fn privileged_shell_applescript(inner: &str) -> (res: String)
    ensures
        res@ == privileged_applescript(inner@),
{
    let escaped = applescript_double_quote_escape(inner);
    let mut out = String::new();
    out.append("do shell script \"");
    out.append(escaped.as_str());
    out.append("\" with administrator privileges");
    out
}

/// The first position of `true` at or after `k`, or `-1`.
pub open spec fn first_true_from(present: Seq<bool>, k: int) -> int
    decreases present.len() - k,
{
    if k < 0 || k >= present.len() {
        -1
    } else if present[k] {
        k
    } else {
        first_true_from(present, k + 1)
    }
}

/// The openfortivpn command for the given answers to "does candidate `i`
/// exist": the first candidate that does, else the bare name.
pub open spec fn chosen_openfortivpn(present: Seq<bool>) -> Seq<char> {
    let i = first_true_from(present, 0);
    if 0 <= i < 3 {
        OPENFORTIVPN_CANDIDATE_PATHS@[i]@
    } else {
        OPENFORTIVPN_FALLBACK@
    }
}

/// `first_true_from` finds the first `true` at or after `k`, and `-1` only
/// when there is none.
proof fn lemma_first_true_finds(present: Seq<bool>, k: int)
    requires
        0 <= k,
    ensures
        first_true_from(present, k) == -1 ==> forall|j: int| k <= j < present.len() ==> !#[trigger] present[j],
        first_true_from(present, k) != -1 ==> k <= first_true_from(present, k) < present.len()
            && present[first_true_from(present, k)]
            && forall|j: int| k <= j < first_true_from(present, k) ==> !#[trigger] present[j],
    decreases present.len() - k,
{
    if k < present.len() && !present[k] {
        lemma_first_true_finds(present, k + 1);
    }
}

/// Each candidate is the openfortivpn command exactly when it is the first
/// one found to be a file, and the bare name is used exactly when none is.
pub proof fn lemma_openfortivpn_choice(present: Seq<bool>, i: int)
    requires
        present.len() <= 3,
    ensures
        (0 <= i < present.len() && present[i] && forall|j: int| 0 <= j < i ==> !#[trigger] present[j])
            ==> chosen_openfortivpn(present) == OPENFORTIVPN_CANDIDATE_PATHS@[i]@,
        (forall|j: int| 0 <= j < present.len() ==> !#[trigger] present[j]) ==> chosen_openfortivpn(present)
            == OPENFORTIVPN_FALLBACK@,
{
    lemma_first_true_finds(present, 0);
    let f = first_true_from(present, 0);
    if 0 <= i < present.len() && present[i] && forall|j: int| 0 <= j < i ==> !#[trigger] present[j] {
        if f != i {
            if f < i {
                assert(!present[f]);
            } else {
                assert(!present[i]);
            }
        }
    }
    if f != -1 {
        assert(present[f]);
    }
}

/// The paths probed for openfortivpn, in order.
pub fn openfortivpn_candidate_paths() -> (v: Vec<&'static str>)
    ensures
        v@ == OPENFORTIVPN_CANDIDATE_PATHS@,
{
    let mut v: Vec<&'static str> = Vec::new();
    let mut k: usize = 0;
    while k < 3
        invariant
            k <= 3,
            v@ == OPENFORTIVPN_CANDIDATE_PATHS@.take(k as int),
        decreases 3 - k,
    {
        v.push(OPENFORTIVPN_CANDIDATE_PATHS[k]);
        k = k + 1;
        assert(v@ =~= OPENFORTIVPN_CANDIDATE_PATHS@.take(k as int));
    }
    assert(OPENFORTIVPN_CANDIDATE_PATHS@.take(3) =~= OPENFORTIVPN_CANDIDATE_PATHS@);
    v
}

/// The openfortivpn command, given the answers to "is candidate `i` a
/// file", in the order of `openfortivpn_candidate_paths`: the first
/// candidate that is, else the bare name. Candidates after the first one
/// found need not be asked about.
pub fn find_openfortivpn_executable(present: &Vec<bool>) -> (res: String)
    requires
        present@.len() <= 3,
    ensures
        res@ == chosen_openfortivpn(present@),
        forall|i: int| 0 <= i < present@.len() && #[trigger] present@[i] && (forall|j: int| 0 <= j < i ==> !present@[j])
            ==> res@ == OPENFORTIVPN_CANDIDATE_PATHS@[i]@,
        (forall|j: int| 0 <= j < present@.len() ==> !#[trigger] present@[j]) ==> res@ == OPENFORTIVPN_FALLBACK@,
{
    proof {
        assert forall|i: int| 0 <= i < present@.len() && #[trigger] present@[i] && (forall|j: int| 0 <= j < i ==> !present@[j])
            implies chosen_openfortivpn(present@) == OPENFORTIVPN_CANDIDATE_PATHS@[i]@ by {
            lemma_openfortivpn_choice(present@, i);
        }
        lemma_openfortivpn_choice(present@, 0);
    }
    let mut k: usize = 0;
    while k < present.len()
        invariant
            k <= present@.len() <= 3,
            first_true_from(present@, 0) == first_true_from(present@, k as int),
            forall|i: int| 0 <= i < present@.len() && #[trigger] present@[i] && (forall|j: int| 0 <= j < i ==> !present@[j])
                ==> chosen_openfortivpn(present@) == OPENFORTIVPN_CANDIDATE_PATHS@[i]@,
            (forall|j: int| 0 <= j < present@.len() ==> !#[trigger] present@[j]) ==> chosen_openfortivpn(present@)
                == OPENFORTIVPN_FALLBACK@,
        decreases present.len() - k,
    {
        if present[k] {
            return String::from_str(OPENFORTIVPN_CANDIDATE_PATHS[k]);
        }
        k = k + 1;
    }
    String::from_str(OPENFORTIVPN_FALLBACK)
}

/// The root shell command that starts openfortivpn with the session cookie,
/// logs to `OPENFORTIVPN_LOG_PATH`, and stops it (and pppd) once the app
/// whose pid is `watch_pid` is gone.
pub open spec fn connect_command(
    bin: Seq<char>,
    host: Seq<char>,
    port: Seq<char>,
    cookie: Seq<char>,
    cert: Seq<char>,
    watch_pid: nat,
) -> Seq<char> {
    "mkdir -p -m 711 "@ + shell_quoted(OPENFORTIVPN_LOG_DIR@) + " && : > "@ + shell_quoted(
        OPENFORTIVPN_LOG_PATH@,
    ) + " && chmod 644 "@ + shell_quoted(OPENFORTIVPN_LOG_PATH@) + "; "@ + shell_quoted(bin)
        + " "@ + shell_quoted(host + ":"@ + port) + " "@ + shell_quoted(
        "--cookie=SVPNCOOKIE="@ + cookie,
    ) + " "@ + shell_quoted("--trusted-cert="@ + cert) + " >> "@ + shell_quoted(
        OPENFORTIVPN_LOG_PATH@,
    ) + " 2>&1 & VPNPID=$!; while kill -0 $VPNPID 2>/dev/null && kill -0 "@ + decimal(
        watch_pid,
    )
        + " 2>/dev/null; do sleep 1; done; kill -TERM $VPNPID 2>/dev/null; wait $VPNPID 2>/dev/null; pkill -x pppd 2>/dev/null; true"@
}

fn append_quoted(out: &mut String, value: &str)
    ensures
        final(out)@ == old(out)@ + shell_quoted(value@),
{
    let q = shell_single_quote(value);
    out.append(q.as_str());
}

/// The connect command for a given openfortivpn command `bin`.
pub fn connect_shell_command(bin: &str, profile: &Profile, cookie: &str, watch_pid: u32) -> (res:
    String)
    ensures
        res@ == connect_command(
            bin@,
            profile.vpn_host@,
            profile.vpn_port@,
            cookie@,
            profile.cert_digest@,
            watch_pid as nat,
        ),
{
    let mut host_port = String::new();
    host_port.append(profile.vpn_host.as_str());
    host_port.append(":");
    host_port.append(profile.vpn_port.as_str());
    let mut cookie_arg = String::new();
    cookie_arg.append("--cookie=SVPNCOOKIE=");
    cookie_arg.append(cookie);
    let mut cert_arg = String::new();
    cert_arg.append("--trusted-cert=");
    cert_arg.append(profile.cert_digest.as_str());
    let mut out = String::new();
    out.append("mkdir -p -m 711 ");
    append_quoted(&mut out, OPENFORTIVPN_LOG_DIR);
    out.append(" && : > ");
    append_quoted(&mut out, OPENFORTIVPN_LOG_PATH);
    out.append(" && chmod 644 ");
    append_quoted(&mut out, OPENFORTIVPN_LOG_PATH);
    out.append("; ");
    append_quoted(&mut out, bin);
    out.append(" ");
    append_quoted(&mut out, host_port.as_str());
    out.append(" ");
    append_quoted(&mut out, cookie_arg.as_str());
    out.append(" ");
    append_quoted(&mut out, cert_arg.as_str());
    out.append(" >> ");
    append_quoted(&mut out, OPENFORTIVPN_LOG_PATH);
    out.append(" 2>&1 & VPNPID=$!; while kill -0 $VPNPID 2>/dev/null && kill -0 ");
    push_decimal(&mut out, watch_pid as u64);
    out.append(
        " 2>/dev/null; do sleep 1; done; kill -TERM $VPNPID 2>/dev/null; wait $VPNPID 2>/dev/null; pkill -x pppd 2>/dev/null; true",
    );
    out
}

/// The connect command, with openfortivpn chosen from the answers to "is
/// candidate `i` a file" (see `find_openfortivpn_executable`).
pub fn build_connect_shell_command(present: &Vec<bool>, profile: &Profile, cookie: &str, watch_pid: u32) -> (res: String)
    requires
        present@.len() <= 3,
    ensures
        res@ == connect_command(
            chosen_openfortivpn(present@),
            profile.vpn_host@,
            profile.vpn_port@,
            cookie@,
            profile.cert_digest@,
            watch_pid as nat,
        ),
{
    let bin = find_openfortivpn_executable(present);
    connect_shell_command(bin.as_str(), profile, cookie, watch_pid)
}

/// The root shell command that stops openfortivpn and pppd (forcibly when
/// they outlive a polite signal) and reports what it saw.
pub const DISCONNECT_SHELL_COMMAND: &'static str = "before=$(pgrep -x openfortivpn | wc -l | tr -d ' '); pkill -x openfortivpn; K1=$?; pkill -x pppd; K2=$?; sleep 3; mid=$(pgrep -x openfortivpn | wc -l | tr -d ' '); if [ \"$mid\" != \"0\" ]; then pkill -9 -x openfortivpn; pkill -9 -x pppd; sleep 1; fi; after=$(pgrep -x openfortivpn | wc -l | tr -d ' '); echo 'pkill_diag' before=$before k1=$K1 k2=$K2 mid=$mid after=$after; true";

/// The AppleScript that runs `DISCONNECT_SHELL_COMMAND` as root.
pub fn disconnect_applescript() -> (res: String)
    ensures
        res@ == privileged_applescript(DISCONNECT_SHELL_COMMAND@),
{
    privileged_shell_applescript(DISCONNECT_SHELL_COMMAND)
}

/// `p` put in front of a read value; nothing where the reading failed.
pub open spec fn with_prefix(p: Seq<char>, r: Option<Seq<char>>) -> Option<Seq<char>> {
    match r {
        Some(v) => Some(p + v),
        None => None,
    }
}

/// How a POSIX shell reads a word made only of quoted characters: runs in
/// single quotes, and characters after an unquoted backslash (other than a
/// newline). Such characters are taken literally: none is expanded, split
/// off, or able to end the word or the command. `quoted` tells whether a
/// single quote is open. `None` where the text holds any other unquoted
/// character (a blank, `$`, `;`, `"` and the like, which the shell would
/// treat specially) or ends inside a quote.
pub open spec fn quoted_word_value(w: Seq<char>, quoted: bool) -> Option<Seq<char>>
    decreases w.len(),
{
    if w.len() == 0 {
        if quoted { None } else { Some(seq![]) }
    } else if quoted {
        if w[0] == '\'' {
            quoted_word_value(w.drop_first(), false)
        } else {
            with_prefix(seq![w[0]], quoted_word_value(w.drop_first(), true))
        }
    } else if w[0] == '\'' {
        quoted_word_value(w.drop_first(), true)
    } else if w[0] == '\\' && w.len() > 1 && w[1] != '\n' {
        with_prefix(seq![w[1]], quoted_word_value(w.subrange(2, w.len() as int), false))
    } else {
        None
    }
}

/// Replacing characters distributes over concatenation.
pub proof fn lemma_replace_char_concat(a: Seq<char>, b: Seq<char>, c: char, rep: Seq<char>)
    ensures
        replace_char(a + b, c, rep) == replace_char(a, c, rep) + replace_char(b, c, rep),
    decreases b.len(),
{
    if b.len() == 0 {
        assert(a + b =~= a);
        assert(replace_char(b, c, rep) =~= seq![]);
        assert(replace_char(a, c, rep) + replace_char(b, c, rep) =~= replace_char(a, c, rep));
    } else {
        lemma_replace_char_concat(a, b.drop_last(), c, rep);
        assert((a + b).drop_last() =~= a + b.drop_last());
        assert((a + b).last() == b.last());
        let tail = if b.last() == c { rep } else { seq![b.last()] };
        assert(replace_char(a + b, c, rep) == replace_char(a + b.drop_last(), c, rep) + tail);
        assert(replace_char(b, c, rep) == replace_char(b.drop_last(), c, rep) + tail);
        assert(replace_char(a, c, rep) + replace_char(b.drop_last(), c, rep) + tail
            =~= replace_char(a, c, rep) + (replace_char(b.drop_last(), c, rep) + tail));
    }
}

proof fn lemma_shell_quoted_body(s: Seq<char>, t: Seq<char>)
    ensures
        quoted_word_value(replace_char(s, '\'', seq!['\'', '\\', '\'', '\'']) + t, true) == with_prefix(
            s,
            quoted_word_value(t, true),
        ),
    decreases s.len(),
{
    let rep = seq!['\'', '\\', '\'', '\''];
    if s.len() == 0 {
        assert(replace_char(s, '\'', rep) =~= seq![]);
        assert(seq![] + t =~= t);
        match quoted_word_value(t, true) {
            Some(v) => assert(s + v =~= v),
            None => {},
        }
    } else {
        let x = s[0];
        let rest = s.drop_first();
        assert(s =~= seq![x] + rest);
        lemma_replace_char_concat(seq![x], rest, '\'', rep);
        assert(seq![x].drop_last() =~= seq![]);
        assert(replace_char(seq![x], '\'', rep) == replace_char(seq![], '\'', rep) + (if x == '\''
            { rep } else { seq![x] }));
        assert(replace_char(seq![], '\'', rep) =~= seq![]);
        lemma_shell_quoted_body(rest, t);
        let w = replace_char(s, '\'', rep) + t;
        let wr = replace_char(rest, '\'', rep) + t;
        if x == '\'' {
            assert(w =~= rep + wr);
            assert(w[0] == '\'');
            assert(w.drop_first() =~= seq!['\\', '\'', '\''] + wr);
            let w1 = w.drop_first();
            assert(w1[0] == '\\' && w1.len() > 1 && w1[1] == '\'');
            assert(w1.subrange(2, w1.len() as int) =~= seq!['\''] + wr);
            let w2 = w1.subrange(2, w1.len() as int);
            assert(w2[0] == '\'');
            assert(w2.drop_first() =~= wr);
            assert(quoted_word_value(w2, false) == quoted_word_value(wr, true));
            assert(quoted_word_value(w1, false) == with_prefix(seq!['\''], quoted_word_value(w2, false)));
            assert(quoted_word_value(w, true) == quoted_word_value(w1, false));
        } else {
            assert(w =~= seq![x] + wr);
            assert(w[0] == x);
            assert(w.drop_first() =~= wr);
        }
        assert(quoted_word_value(w, true) == with_prefix(seq![x], quoted_word_value(wr, true)));
        match quoted_word_value(t, true) {
            Some(v) => assert(seq![x] + (rest + v) =~= s + v),
            None => {},
        }
    }
}

/// A single-quoted word is read by a POSIX shell as exactly the value that
/// was quoted, and every one of its characters is quoted: nothing in it is
/// expanded or split, and no character of the value can end the word or
/// start another command.
pub proof fn lemma_shell_quote_round_trip(s: Seq<char>)
    ensures
        quoted_word_value(shell_quoted(s), false) == Some(s),
{
    let rep = seq!['\'', '\\', '\'', '\''];
    let q = shell_quoted(s);
    let body = replace_char(s, '\'', rep);
    assert(q[0] == '\'');
    assert(q.drop_first() =~= body + seq!['\'']);
    lemma_shell_quoted_body(s, seq!['\'']);
    let close = seq!['\''];
    assert(close.drop_first() =~= seq![]);
    assert(quoted_word_value(close, true) == quoted_word_value(seq![], false));
    assert(s + seq![] =~= s);
}

/// How AppleScript reads the text of a string literal up to its closing
/// `"`: `None` when the literal is not closed exactly at the end.
pub open spec fn applescript_literal_body(w: Seq<char>) -> Option<Seq<char>>
    decreases w.len(),
{
    if w.len() == 0 {
        None
    } else if w[0] == '"' {
        if w.len() == 1 {
            Some(seq![])
        } else {
            None
        }
    } else if w[0] == '\\' && w.len() > 1 {
        let c = if w[1] == 'n' {
            '\n'
        } else if w[1] == 't' {
            '\t'
        } else if w[1] == 'r' {
            '\r'
        } else {
            w[1]
        };
        match applescript_literal_body(w.subrange(2, w.len() as int)) {
            Some(rest) => Some(seq![c] + rest),
            None => None,
        }
    } else {
        match applescript_literal_body(w.drop_first()) {
            Some(rest) => Some(seq![w[0]] + rest),
            None => None,
        }
    }
}

proof fn lemma_applescript_escaped_cons(x: char, rest: Seq<char>)
    ensures
        applescript_escaped(seq![x] + rest) == (if x == '\\' {
            seq!['\\', '\\']
        } else if x == '"' {
            seq!['\\', '"']
        } else {
            seq![x]
        }) + applescript_escaped(rest),
{
    let r1 = seq!['\\', '\\'];
    let r2 = seq!['\\', '"'];
    lemma_replace_char_concat(seq![x], rest, '\\', r1);
    assert(seq![x].drop_last() =~= seq![]);
    assert(replace_char(seq![x], '\\', r1) == replace_char(seq![], '\\', r1) + (if x == '\\' {
        r1
    } else {
        seq![x]
    }));
    assert(replace_char(seq![], '\\', r1) =~= seq![]);
    let head = if x == '\\' { r1 } else { seq![x] };
    assert(replace_char(seq![x], '\\', r1) =~= head);
    lemma_replace_char_concat(head, replace_char(rest, '\\', r1), '"', r2);
    if x == '\\' {
        assert(r1.drop_last() =~= seq!['\\']);
        assert(seq!['\\'].drop_last() =~= seq![]);
        assert(replace_char(seq!['\\'], '"', r2) == replace_char(seq![], '"', r2) + seq!['\\']);
        assert(replace_char(seq![], '"', r2) =~= seq![]);
        assert(replace_char(r1, '"', r2) == replace_char(seq!['\\'], '"', r2) + seq!['\\']);
        assert(replace_char(r1, '"', r2) =~= r1);
    } else {
        assert(seq![x].drop_last() =~= seq![]);
        assert(replace_char(seq![x], '"', r2) == replace_char(seq![], '"', r2) + (if x == '"' {
            r2
        } else {
            seq![x]
        }));
        assert(replace_char(seq![], '"', r2) =~= seq![]);
    }
}

proof fn lemma_applescript_body(s: Seq<char>)
    ensures
        applescript_literal_body(applescript_escaped(s) + seq!['"']) == Some(s),
    decreases s.len(),
{
    if s.len() == 0 {
        assert(replace_char(s, '\\', seq!['\\', '\\']) =~= seq![]);
        assert(applescript_escaped(s) =~= seq![]);
        assert(applescript_escaped(s) + seq!['"'] =~= seq!['"']);
    } else {
        let x = s[0];
        let rest = s.drop_first();
        assert(s =~= seq![x] + rest);
        lemma_applescript_escaped_cons(x, rest);
        lemma_applescript_body(rest);
        let w = applescript_escaped(s) + seq!['"'];
        let wr = applescript_escaped(rest) + seq!['"'];
        if x == '\\' || x == '"' {
            let pair = if x == '\\' { seq!['\\', '\\'] } else { seq!['\\', '"'] };
            assert(w =~= pair + wr);
            assert(w[0] == '\\' && w[1] == x);
            assert(w.subrange(2, w.len() as int) =~= wr);
        } else {
            assert(w =~= seq![x] + wr);
            assert(w[0] == x);
            assert(w.drop_first() =~= wr);
        }
        assert(seq![x] + rest =~= s);
    }
}

/// Text escaped for an AppleScript string literal reads back, between the
/// quotes, as exactly that text: the literal closes only at its last quote.
pub proof fn lemma_applescript_round_trip(s: Seq<char>)
    ensures
        applescript_literal_body(applescript_escaped(s) + seq!['"']) == Some(s),
{
    lemma_applescript_body(s);
}


pub open spec fn ppp_prefix() -> Seq<char> {
    seq!['p', 'p', 'p']
}

pub open spec fn inet_prefix() -> Seq<char> {
    seq!['i', 'n', 'e', 't', ' ']
}

/// An `ifconfig` line that does not begin with whitespace opens the block of
/// a new interface.
pub open spec fn opens_block(line: Seq<char>) -> bool {
    line.len() == 0 || !is_space(line[0])
}

/// The interfaces found so far, with the interface of the block under way
/// added when it is a ppp interface that has an IPv4 address.
pub open spec fn close_block(found: Set<Seq<char>>, current: Option<Seq<char>>, has_ip: bool) -> Set<
    Seq<char>,
> {
    match current {
        Some(name) => if has_ip {
            found.insert(name)
        } else {
            found
        },
        None => found,
    }
}

/// One `ifconfig` line read: the interfaces found, the ppp interface whose
/// block is open (if it is one), and whether that block showed `inet `.
pub open spec fn ifconfig_step(
    st: (Set<Seq<char>>, Option<Seq<char>>, bool),
    line: Seq<char>,
) -> (Set<Seq<char>>, Option<Seq<char>>, bool) {
    if opens_block(line) {
        let name = before_colon(line);
        (
            close_block(st.0, st.1, st.2),
            if starts_with(name, ppp_prefix()) {
                Some(name)
            } else {
                None
            },
            false,
        )
    } else if st.1 is Some && starts_with(trim_start(line), inet_prefix()) {
        (st.0, st.1, true)
    } else {
        st
    }
}

pub open spec fn ifconfig_scan(ls: Seq<Seq<char>>) -> (Set<Seq<char>>, Option<Seq<char>>, bool)
    decreases ls.len(),
{
    if ls.len() == 0 {
        (Set::empty(), None, false)
    } else {
        ifconfig_step(ifconfig_scan(ls.drop_last()), ls.last())
    }
}

/// The ppp interfaces that `ifconfig` output shows with an IPv4 address.
pub open spec fn ppp_interfaces_in(output: Seq<char>) -> Set<Seq<char>> {
    let st = ifconfig_scan(lines(output));
    close_block(st.0, st.1, st.2)
}

/// Line `i` opens the block of a ppp interface, and line `j` of that block
/// (every line after `i` up to `j` indented) shows an IPv4 address.
pub open spec fn ip_block(ls: Seq<Seq<char>>, i: int, j: int) -> bool {
    &&& 0 <= i < j < ls.len()
    &&& opens_block(ls[i])
    &&& starts_with(before_colon(ls[i]), ppp_prefix())
    &&& forall|k: int| i < k <= j ==> !opens_block(#[trigger] ls[k])
    &&& starts_with(trim_start(ls[j]), inet_prefix())
}

/// An address block, opened at line `i`, of the interface `name`.
pub open spec fn block_named(ls: Seq<Seq<char>>, i: int, j: int, name: Seq<char>) -> bool {
    ip_block(ls, i, j) && before_colon(ls[i]) == name
}

/// The names of the interfaces whose address blocks open before line `m`.
pub open spec fn blocks_before(ls: Seq<Seq<char>>, m: int) -> Set<Seq<char>> {
    Set::new(|name: Seq<char>| exists|i: int, j: int| i < m && #[trigger] block_named(ls, i, j, name))
}

/// The ppp interfaces of `ifconfig` output lines that have an IPv4
/// address: the name before the colon of an unindented line starting with
/// `ppp`, when a later line of its block starts, after its indentation,
/// with `inet `.
pub open spec fn ppp_with_ip(ls: Seq<Seq<char>>) -> Set<Seq<char>> {
    blocks_before(ls, ls.len() as int)
}

/// The position of the last line that opens a block, or `-1`.
pub open spec fn last_open(ls: Seq<Seq<char>>) -> int
    decreases ls.len(),
{
    if ls.len() == 0 {
        -1
    } else if opens_block(ls.last()) {
        ls.len() - 1
    } else {
        last_open(ls.drop_last())
    }
}

/// The ppp interface whose block opens at line `i`, if it is one.
pub open spec fn ppp_at(ls: Seq<Seq<char>>, i: int) -> Option<Seq<char>> {
    if starts_with(before_colon(ls[i]), ppp_prefix()) {
        Some(before_colon(ls[i]))
    } else {
        None
    }
}

/// Some line after `i` starts, after its indentation, with `inet `.
pub open spec fn inet_after(ls: Seq<Seq<char>>, i: int) -> bool {
    exists|j: int| i < j < ls.len() && #[trigger] starts_with(trim_start(ls[j]), inet_prefix())
}

proof fn lemma_last_open(ls: Seq<Seq<char>>)
    ensures
        -1 <= last_open(ls) < ls.len(),
        last_open(ls) >= 0 ==> opens_block(ls[last_open(ls)]),
        forall|k: int| last_open(ls) < k < ls.len() ==> !opens_block(#[trigger] ls[k]),
    decreases ls.len(),
{
    if ls.len() > 0 && !opens_block(ls.last()) {
        let p = ls.drop_last();
        lemma_last_open(p);
        assert forall|k: int| last_open(ls) < k < ls.len() implies !opens_block(#[trigger] ls[k]) by {
            if k < p.len() {
                assert(ls[k] == p[k]);
            }
        }
    }
}

/// Blocks that end before the last line read are the same with that line.
proof fn lemma_block_before_push(p: Seq<Seq<char>>, l: Seq<char>, i: int, j: int, name: Seq<char>)
    requires
        j < p.len(),
    ensures
        block_named(p.push(l), i, j, name) <==> block_named(p, i, j, name),
{
    let ls = p.push(l);
    if 0 <= i && i < j {
        assert(ls[i] == p[i]);
        assert(ls[j] == p[j]);
        assert((forall|k: int| i < k <= j ==> !opens_block(#[trigger] ls[k])) <==> (forall|k: int|
            i < k <= j ==> !opens_block(#[trigger] p[k]))) by {
            assert forall|k: int| i < k <= j implies ls[k] == p[k] by {}
        }
    }
}

/// What the scan holds after reading some lines: the interfaces of the
/// blocks closed so far, the ppp interface of the open block, and whether
/// that block showed an address.
proof fn lemma_scan_state(ls: Seq<Seq<char>>)
    ensures
        ifconfig_scan(ls).0 == blocks_before(ls, last_open(ls)),
        last_open(ls) < 0 ==> ifconfig_scan(ls).1 is None && !ifconfig_scan(ls).2,
        last_open(ls) >= 0 ==> ifconfig_scan(ls).1 == ppp_at(ls, last_open(ls)),
        last_open(ls) >= 0 ==> ifconfig_scan(ls).2 == (ifconfig_scan(ls).1 is Some && inet_after(ls, last_open(ls))),
    decreases ls.len(),
{
    if ls.len() == 0 {
        assert(blocks_before(ls, -1) =~= Set::<Seq<char>>::empty());
        return;
    }
    let p = ls.drop_last();
    let l = ls.last();
    assert(p.push(l) =~= ls);
    lemma_scan_state(p);
    lemma_last_open(p);
    let lo = last_open(p);
    let st = ifconfig_scan(p);
    let n = p.len() as int;
    assert(ls[n] == l);
    if opens_block(l) {
        // The new line closes the block under way.
        assert forall|name: Seq<char>| #[trigger] blocks_before(ls, n).contains(name) <==> close_block(
            st.0,
            st.1,
            st.2,
        ).contains(name) by {
            if blocks_before(ls, n).contains(name) {
                let (i, j) = choose|i: int, j: int| i < n && #[trigger] block_named(ls, i, j, name);
                if j >= n {
                    assert(!opens_block(ls[j]));
                }
                lemma_block_before_push(p, l, i, j, name);
                if i > lo {
                    assert(!opens_block(p[i]));
                } else if i == lo {
                    assert(p[j] == ls[j]);
                    assert(starts_with(trim_start(p[j]), inet_prefix()));
                    assert(inet_after(p, lo));
                } else {
                    assert(blocks_before(p, lo).contains(name));
                }
            }
            if close_block(st.0, st.1, st.2).contains(name) {
                if st.0.contains(name) {
                    let (i, j) = choose|i: int, j: int| i < lo && #[trigger] block_named(p, i, j, name);
                    lemma_block_before_push(p, l, i, j, name);
                } else {
                    let j = choose|j: int| lo < j < p.len() && #[trigger] starts_with(trim_start(p[j]), inet_prefix());
                    assert(ip_block(p, lo, j));
                    lemma_block_before_push(p, l, lo, j, name);
                    assert(block_named(ls, lo, j, name));
                }
            }
        }
        assert(blocks_before(ls, n) =~= close_block(st.0, st.1, st.2));
        assert(!inet_after(ls, n));
    } else {
        assert forall|name: Seq<char>| #[trigger] blocks_before(ls, lo).contains(name) <==> blocks_before(p, lo).contains(name) by {
            if blocks_before(ls, lo).contains(name) {
                let (i, j) = choose|i: int, j: int| i < lo && #[trigger] block_named(ls, i, j, name);
                if j >= lo {
                    assert(ls[lo] == p[lo]);
                }
                lemma_block_before_push(p, l, i, j, name);
            }
            if blocks_before(p, lo).contains(name) {
                let (i, j) = choose|i: int, j: int| i < lo && #[trigger] block_named(p, i, j, name);
                lemma_block_before_push(p, l, i, j, name);
            }
        }
        assert(blocks_before(ls, lo) =~= blocks_before(p, lo));
        if lo >= 0 {
            assert(ls[lo] == p[lo]);
            assert(ppp_at(ls, lo) == ppp_at(p, lo));
            if inet_after(p, lo) {
                let j = choose|j: int| lo < j < p.len() && #[trigger] starts_with(trim_start(p[j]), inet_prefix());
                assert(ls[j] == p[j]);
                assert(inet_after(ls, lo));
            }
            if inet_after(ls, lo) {
                let j = choose|j: int| lo < j < ls.len() && #[trigger] starts_with(trim_start(ls[j]), inet_prefix());
                if j < n {
                    assert(ls[j] == p[j]);
                    assert(inet_after(p, lo));
                }
            }
        }
    }
}

/// The interfaces the scan finds are exactly the ppp interfaces with an
/// IPv4 address, as described line by line.
pub proof fn lemma_ppp_interfaces_described(output: Seq<char>)
    ensures
        ppp_interfaces_in(output) == ppp_with_ip(lines(output)),
{
    let ls = lines(output);
    lemma_scan_state(ls);
    lemma_last_open(ls);
    let lo = last_open(ls);
    let st = ifconfig_scan(ls);
    assert forall|name: Seq<char>| #[trigger] ppp_with_ip(ls).contains(name) <==> close_block(st.0, st.1, st.2).contains(name) by {
        if ppp_with_ip(ls).contains(name) {
            let (i, j) = choose|i: int, j: int| i < ls.len() && #[trigger] block_named(ls, i, j, name);
            if i > lo {
                assert(!opens_block(ls[i]));
            } else if i == lo {
                assert(starts_with(trim_start(ls[j]), inet_prefix()));
                assert(inet_after(ls, lo));
            } else {
                assert(blocks_before(ls, lo).contains(name));
            }
        }
        if close_block(st.0, st.1, st.2).contains(name) {
            if st.0.contains(name) {
                let (i, j) = choose|i: int, j: int| i < lo && #[trigger] block_named(ls, i, j, name);
                assert(block_named(ls, i, j, name));
            } else {
                let j = choose|j: int| lo < j < ls.len() && #[trigger] starts_with(trim_start(ls[j]), inet_prefix());
                assert(ip_block(ls, lo, j));
                assert(block_named(ls, lo, j, name));
            }
        }
    }
    assert(ppp_with_ip(ls) =~= close_block(st.0, st.1, st.2));
}

/// The ppp interfaces that `ifconfig_output` shows with an IPv4 address,
/// each once.
pub fn ppp_interfaces_with_ip(ifconfig_output: &str) -> (res: Vec<String>)
    ensures
        no_duplicates(string_views(res@)),
        listed(string_views(res@)) == ppp_interfaces_in(ifconfig_output@),
        listed(string_views(res@)) == ppp_with_ip(lines(ifconfig_output@)),
{
    proof {
        lemma_ppp_interfaces_described(ifconfig_output@);
    }
    let text = chars_of(ifconfig_output);
    let ls = split_lines(&text);
    let ppp = chars_of("ppp");
    let inet = chars_of("inet ");
    proof {
        reveal_strlit("ppp");
        reveal_strlit("inet ");
        assert(ppp@ =~= ppp_prefix());
        assert(inet@ =~= inet_prefix());
    }
    let mut found: Vec<Vec<char>> = Vec::new();
    let mut current: Option<Vec<char>> = None;
    let mut has_ip = false;
    let mut i: usize = 0;
    assert(listed(views(found@)) =~= Set::<Seq<char>>::empty());
    while i < ls.len()
        invariant
            i <= ls@.len(),
            views(ls@) == lines(text@),
            text@ == ifconfig_output@,
            ppp@ == ppp_prefix(),
            inet@ == inet_prefix(),
            no_duplicates(views(found@)),
            ifconfig_scan(views(ls@).take(i as int)) == (
                listed(views(found@)),
                match current {
                    Some(c) => Some(c@),
                    None => None,
                },
                has_ip,
            ),
        decreases ls.len() - i,
    {
        assert(views(ls@).take(i + 1).drop_last() =~= views(ls@).take(i as int));
        assert(views(ls@).take(i + 1).last() == ls@[i as int]@);
        let line = &ls[i];
        if line.len() == 0 || !is_space_char(line[0]) {
            if let Some(c) = current {
                if has_ip {
                    insert_absent(&mut found, c);
                }
            }
            let n = colon_prefix_len(line);
            let mut name: Vec<char> = Vec::new();
            let mut k: usize = 0;
            while k < n
                invariant
                    k <= n <= line@.len(),
                    name@ == line@.take(k as int),
                decreases n - k,
            {
                name.push(line[k]);
                k = k + 1;
                assert(name@ =~= line@.take(k as int));
            }
            if chars_start_with(&name, &ppp) {
                current = Some(name);
            } else {
                current = None;
            }
            has_ip = false;
        } else if current.is_some() {
            let j = trimmed_start(line);
            if has_at(line, j, &inet) {
                has_ip = true;
            }
        }
        i = i + 1;
    }
    assert(views(ls@).take(ls@.len() as int) =~= views(ls@));
    if let Some(c) = current {
        if has_ip {
            insert_absent(&mut found, c);
        }
    }
    strings_of(&found)
}

/// Whether some interface of `current` is not among `baseline`: a tunnel
/// came up since `baseline` was taken.
pub fn tunnel_appeared(baseline: &Vec<String>, current: &Vec<String>) -> (r: bool)
    ensures
        r == exists|i: int|
            0 <= i < current@.len() && !string_views(baseline@).contains(#[trigger] current@[i]@),
{
    let mut base: Vec<Vec<char>> = Vec::new();
    let mut k: usize = 0;
    while k < baseline.len()
        invariant
            k <= baseline@.len(),
            views(base@) == string_views(baseline@).take(k as int),
        decreases baseline.len() - k,
    {
        let ghost before = views(base@);
        base.push(chars_of(baseline[k].as_str()));
        assert(views(base@) =~= before.push(baseline@[k as int]@));
        assert(string_views(baseline@).take(k + 1) =~= string_views(baseline@).take(k as int).push(
            baseline@[k as int]@,
        ));
        k = k + 1;
    }
    assert(string_views(baseline@).take(baseline@.len() as int) =~= string_views(baseline@));
    let mut i: usize = 0;
    while i < current.len()
        invariant
            i <= current@.len(),
            views(base@) == string_views(baseline@),
            forall|j: int|
                0 <= j < i ==> string_views(baseline@).contains(#[trigger] current@[j]@),
        decreases current.len() - i,
    {
        let name = chars_of(current[i].as_str());
        if !contains_chars(&base, &name) {
            return true;
        }
        i = i + 1;
    }
    false
}

/// The byte count in column `k` of a `netstat` row: 0 when the column is
/// missing or not a `u64`.
pub open spec fn column_bytes(cols: Seq<Seq<char>>, k: int) -> nat {
    if 0 <= k < cols.len() {
        match parsed_u64(cols[k]) {
            Some(v) => v as nat,
            None => 0,
        }
    } else {
        0
    }
}

/// One `netstat -ib` row read: the ppp interfaces counted so far, and the
/// received and sent bytes summed over them, each interface counted once (at
/// its first row).
pub open spec fn netstat_step(st: (Set<Seq<char>>, nat, nat), line: Seq<char>) -> (
    Set<Seq<char>>,
    nat,
    nat,
) {
    let cols = words(line);
    if cols.len() == 0 || !starts_with(cols[0], ppp_prefix()) || st.0.contains(cols[0]) {
        st
    } else {
        (st.0.insert(cols[0]), st.1 + column_bytes(cols, 6), st.2 + column_bytes(cols, 9))
    }
}

pub open spec fn netstat_scan(ls: Seq<Seq<char>>) -> (Set<Seq<char>>, nat, nat)
    decreases ls.len(),
{
    if ls.len() == 0 {
        (Set::empty(), 0, 0)
    } else {
        netstat_step(netstat_scan(ls.drop_last()), ls.last())
    }
}

/// The rows of `netstat -ib` output: its lines after the header.
pub open spec fn netstat_rows(output: Seq<char>) -> Seq<Seq<char>> {
    let ls = lines(output);
    if ls.len() > 0 {
        ls.drop_first()
    } else {
        ls
    }
}

/// The bytes received and sent over the tunnel (ppp) interfaces that
/// `netstat -ib` output lists.
pub open spec fn tunnel_bytes_in(output: Seq<char>) -> (nat, nat) {
    let st = netstat_scan(netstat_rows(output));
    (st.1, st.2)
}

/// The tunnel byte totals, in a width that always holds them.
pub fn tunnel_byte_totals(netstat_output: &str) -> (res: (u128, u128))
    ensures
        res.0 as nat == tunnel_bytes_in(netstat_output@).0,
        res.1 as nat == tunnel_bytes_in(netstat_output@).1,
{
    let text = chars_of(netstat_output);
    let ls = split_lines(&text);
    let ghost rows = netstat_rows(text@);
    let start: usize = if ls.len() > 0 { 1 } else { 0 };
    assert(rows =~= views(ls@).subrange(start as int, ls@.len() as int));
    let ppp = chars_of("ppp");
    proof {
        reveal_strlit("ppp");
        assert(ppp@ =~= ppp_prefix());
    }
    let mut seen: Vec<Vec<char>> = Vec::new();
    let mut rx: u128 = 0;
    let mut tx: u128 = 0;
    let mut i = start;
    assert(rows.take(0) =~= seq![]);
    assert(listed(views(seen@)) =~= Set::<Seq<char>>::empty());
    while i < ls.len()
        invariant
            start <= i <= ls@.len(),
            start <= 1,
            rows == views(ls@).subrange(start as int, ls@.len() as int),
            ppp@ == ppp_prefix(),
            no_duplicates(views(seen@)),
            netstat_scan(rows.take(i - start)) == (listed(views(seen@)), rx as nat, tx as nat),
            rx <= (i - start) * 18446744073709551615,
            tx <= (i - start) * 18446744073709551615,
            i <= usize::MAX,
        decreases ls.len() - i,
    {
        assert(rows.take(i + 1 - start).drop_last() =~= rows.take(i - start));
        assert(rows.take(i + 1 - start).last() == ls@[i as int]@);
        let cols = split_words(&ls[i]);
        if cols.len() > 0 && chars_start_with(&cols[0], &ppp) && !contains_chars(&seen, &cols[0]) {
            let name = chars_of(string_of_chars(&cols[0]).as_str());
            insert_absent(&mut seen, name);
            let ib: u64 = if cols.len() > 6 {
                match parse_u64(&cols[6]) {
                    Some(v) => v,
                    None => 0,
                }
            } else {
                0
            };
            let ob: u64 = if cols.len() > 9 {
                match parse_u64(&cols[9]) {
                    Some(v) => v,
                    None => 0,
                }
            } else {
                0
            };
            assert(ib as nat == column_bytes(views(cols@), 6));
            assert(ob as nat == column_bytes(views(cols@), 9));
            rx = rx + ib as u128;
            tx = tx + ob as u128;
        }
        i = i + 1;
    }
    assert(rows.take(ls@.len() - start) =~= rows);
    (rx, tx)
}

fn string_of_chars(v: &Vec<char>) -> (s: String)
    ensures
        s@ == v@,
{
    crate::text::string_of(v)
}

/// The tunnel byte totals as `u64`s; `tunnel_byte_totals` tells whether they
/// fit.
pub fn tunnel_interface_bytes(netstat_output: &str) -> (res: (u64, u64))
    requires
        tunnel_bytes_in(netstat_output@).0 <= u64::MAX,
        tunnel_bytes_in(netstat_output@).1 <= u64::MAX,
    ensures
        res.0 as nat == tunnel_bytes_in(netstat_output@).0,
        res.1 as nat == tunnel_bytes_in(netstat_output@).1,
{
    let (rx, tx) = tunnel_byte_totals(netstat_output);
    (rx as u64, tx as u64)
}

/// How long to wait for the tunnel to come up, in milliseconds.
pub const CONNECT_TIMEOUT_MS: u64 = 25000;
/// How long to wait for openfortivpn and pppd to exit after pkill.
pub const DISCONNECT_TIMEOUT_MS: u64 = 5000;

/// One look while waiting for the tunnel.
#[derive(Debug)]
pub enum ConnectPoll {
    /// A new ppp interface with an address is up.
    Up,
    /// The privileged command ended first, with this exit status.
    Exited(String),
    /// The deadline passed.
    TimedOut,
    /// Look again later.
    Wait,
}

/// Decides after one look: a tunnel that is up wins, then a command that
/// exited, then the deadline.
pub fn connect_poll(tunnel_up: bool, exit_status: Option<String>, now: u64, deadline: u64) -> (p: ConnectPoll)
    ensures
        tunnel_up ==> p is Up,
        !tunnel_up ==> match exit_status {
            Some(st) => p matches ConnectPoll::Exited(x) && x@ == st@,
            None => if now >= deadline { p is TimedOut } else { p is Wait },
        },
{
    if tunnel_up {
        ConnectPoll::Up
    } else {
        match exit_status {
            Some(st) => ConnectPoll::Exited(st),
            None => if now >= deadline {
                ConnectPoll::TimedOut
            } else {
                ConnectPoll::Wait
            },
        }
    }
}

/// openfortivpn's log, or why it could not be read.
pub fn openfortivpn_log_text(read: Result<String, String>) -> (s: String)
    ensures
        match read {
            Ok(t) => s@ == t@,
            Err(e) => s@ == "(could not read "@ + OPENFORTIVPN_LOG_PATH@ + ": "@ + e@ + ")"@,
        },
{
    match read {
        Ok(t) => t,
        Err(e) => {
            let mut s = String::from_str("(could not read ");
            s.append(OPENFORTIVPN_LOG_PATH);
            s.append(": ");
            s.append(e.as_str());
            s.append(")");
            s
        },
    }
}

/// The error when the command exited before the tunnel came up.
pub fn exited_early_error(status: &str, log: &str) -> (s: String)
    ensures
        s@ == "openfortivpn exited before the tunnel came up (status "@ + status@ + "): "@ + log@,
{
    let mut s = String::from_str("openfortivpn exited before the tunnel came up (status ");
    s.append(status);
    s.append("): ");
    s.append(log);
    s
}

/// The error when the tunnel did not come up in time.
pub fn tunnel_timeout_error(log: &str) -> (s: String)
    ensures
        s@ == "Timed out waiting for the ppp tunnel interface to come up: "@ + log@,
{
    let mut s = String::from_str("Timed out waiting for the ppp tunnel interface to come up: ");
    s.append(log);
    s
}

/// The bytes moved since the last sample, in and out; a counter that went
/// backwards (an interface that was reset) counts as nothing moved.
pub fn byte_deltas(previous: (u64, u64), current: (u64, u64)) -> (d: (u64, u64))
    ensures
        d.0 == if current.0 >= previous.0 { (current.0 - previous.0) as u64 } else { 0 },
        d.1 == if current.1 >= previous.1 { (current.1 - previous.1) as u64 } else { 0 },
{
    (current.0.saturating_sub(previous.0), current.1.saturating_sub(previous.1))
}

/// The error when pkill's privileged command failed.
pub fn pkill_failed_error(status: &str, stderr: &str) -> (s: String)
    ensures
        s@ == "pkill exited with status "@ + status@ + ": "@ + stderr@,
{
    let mut s = String::from_str("pkill exited with status ");
    s.append(status);
    s.append(": ");
    s.append(stderr);
    s
}

pub const STILL_RUNNING_ERROR: &'static str = "pkill reported success but openfortivpn/pppd is still running (a different process may own it, or the tunnel is under a different auth session)";

/// Whether pkill's output is worth a log line: something was printed.
pub fn pkill_output_worth_logging(stdout: &str, stderr: &str) -> (r: bool)
    ensures
        r == (stdout@.len() > 0 || stderr@.len() > 0),
{
    chars_of(stdout).len() > 0 || chars_of(stderr).len() > 0
}

} // verus!
