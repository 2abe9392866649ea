//! JavaScript snippets that drive the sign-in pages, with user text embedded
//! only as JSON string literals.

use vstd::prelude::*;
use crate::text::{push_decimal, decimal};

verus! {

pub const OTP_INPUT_SELECTOR: &'static str = "input[name=\"otpc\"], input[name=\"otpin\"], input[type=\"tel\"], #idTxtBx_SAOTCC_OTC, input[name=\"otc\"]";
pub const USE_CODE_TEXT: &'static str = "Use a verification code";
pub const ANOTHER_WAY_TEXT: &'static str = "I can't use my Microsoft Authenticator app right now";
pub const SUBMIT_SELECTOR: &'static str = "input[type=\"submit\"], button[type=\"submit\"], #idSIButton9";
pub const INTERACTIVE_ELEMENTS_SCRIPT: &'static str = "(() => {\n        const nodes = document.querySelectorAll('button, input, a[role=\"button\"], [role=\"button\"]');\n        const items = [];\n        for (const node of nodes) {\n            const rect = node.getBoundingClientRect();\n            const visible = rect.width > 0 && rect.height > 0 && node.offsetParent !== null;\n            items.push({\n                tag: node.tagName,\n                id: node.id || null,\n                type: node.getAttribute('type') || null,\n                text: (node.textContent || '').trim().slice(0, 40),\n                value: node.getAttribute('value') || null,\n                ariaLabel: node.getAttribute('aria-label') || null,\n                visible,\n            });\n        }\n        return JSON.stringify(items).slice(0, 3000);\n    })()";
pub const BLOCKED_EXTENSIONS: [&'static str; 7] = ["png", "jpg", "jpeg", "svg", "woff", "woff2", "gif"];
pub const SUBMIT_TEXT_CANDIDATES: [&'static str; 3] = ["Sign in", "Next", "Verify"];
pub const VISIBLE_TEXT_DUMP_LIMIT: usize = 3000;

pub const OPEN_TARGET: &'static str = "(() => {\n            const target = ";
pub const LOOKUP_BODY: &'static str = ";\n            const nodes = document.querySelectorAll('body *');\n            for (const node of nodes) {\n                if (node.children.length > 0) continue;\n                const content = (node.textContent || '').trim();\n                if (content !== target) continue;\n                const rect = node.getBoundingClientRect();\n                const visible = rect.width > 0 && rect.height > 0 && node.offsetParent !== null;\n                if (!visible) continue;\n                ";
pub const LOOKUP_CLOSE: &'static str = "\n            }\n            return false;\n        })()";
pub const CLICK_ACTION: &'static str = "\n                let clickable = node;\n                while (clickable && clickable !== document.body) {\n                    if (clickable.tagName === 'BUTTON' || clickable.tagName === 'A' || clickable.getAttribute('role') === 'button') break;\n                    clickable = clickable.parentElement;\n                }\n                (clickable && clickable !== document.body ? clickable : node).click();\n                return true;\n        ";
pub const REPORT_ACTION: &'static str = "return true;";
pub const CENTER_BODY: &'static str = ";\n            const nodes = document.querySelectorAll('body *');\n            for (const node of nodes) {\n                if (node.children.length > 0) continue;\n                const content = (node.textContent || '').trim();\n                if (content !== target) continue;\n                let clickable = node;\n                while (clickable && clickable !== document.body) {\n                    if (clickable.tagName === 'BUTTON' || clickable.tagName === 'A' || clickable.getAttribute('role') === 'button') break;\n                    clickable = clickable.parentElement;\n                }\n                const el = (clickable && clickable !== document.body) ? clickable : node;\n                const rect = el.getBoundingClientRect();\n                const visible = rect.width > 0 && rect.height > 0 && el.offsetParent !== null;\n                if (!visible) continue;\n                return JSON.stringify({ found: true, x: rect.x + rect.width / 2, y: rect.y + rect.height / 2 });\n            }\n            return JSON.stringify({ found: false });\n        })()";
pub const OPEN_ELEMENT: &'static str = "(() => {\n            const el = document.querySelector(";
pub const FILL_BODY: &'static str = ");\n            if (!el) return false;\n            el.focus();\n            const proto = el instanceof HTMLTextAreaElement\n                ? HTMLTextAreaElement.prototype\n                : HTMLInputElement.prototype;\n            Object.getOwnPropertyDescriptor(proto, 'value').set.call(el, ";
pub const FILL_CLOSE: &'static str = ");\n            el.dispatchEvent(new Event('input', { bubbles: true }));\n            el.dispatchEvent(new Event('change', { bubbles: true }));\n            return true;\n        })()";
pub const CLICK_BODY: &'static str = ");\n            if (!el) return false;\n            el.click();\n            return true;\n        })()";
pub const ENTER_BODY: &'static str = ");\n            if (!el) return false;\n            el.focus();\n            for (const type of ['keydown', 'keypress', 'keyup']) {\n                el.dispatchEvent(new KeyboardEvent(type, {\n                    key: 'Enter',\n                    code: 'Enter',\n                    keyCode: 13,\n                    which: 13,\n                    bubbles: true,\n                    cancelable: true,\n                }));\n            }\n            return true;\n        })()";
pub const VISIBLE_TEXT_HEAD: &'static str = "document.body.innerText.replace(/\\s+/g, ' ').trim().slice(0, ";
pub const VISIBLE_TEXT_TAIL: &'static str = ")";
pub const PRESENT_HEAD: &'static str = "document.querySelector(";
pub const PRESENT_TAIL: &'static str = ") !== null";

/// The lower-case hexadecimal digit for `n < 16`.
pub open spec fn hex_digit(n: nat) -> char {
    if n < 10 {
        (48 + n) as char
    } else {
        (87 + n) as char
    }
}

/// How a JSON string literal writes one character: `"` and `\` and the
/// control characters below U+0020 are escaped, everything else is kept.
pub open spec fn json_escape_char(c: char) -> Seq<char> {
    if c == '"' {
        seq!['\\', '"']
    } else if c == '\\' {
        seq!['\\', '\\']
    } else if c == '\u{8}' {
        seq!['\\', 'b']
    } else if c == '\t' {
        seq!['\\', 't']
    } else if c == '\n' {
        seq!['\\', 'n']
    } else if c == '\u{c}' {
        seq!['\\', 'f']
    } else if c == '\r' {
        seq!['\\', 'r']
    } else if (c as nat) < 32 {
        seq!['\\', 'u', '0', '0', hex_digit(c as nat / 16), hex_digit(c as nat % 16)]
    } else {
        seq![c]
    }
}

/// The characters of `s`, each written as a JSON string literal writes it.
pub open spec fn json_escaped(s: Seq<char>) -> Seq<char>
    decreases s.len(),
{
    if s.len() == 0 {
        seq![]
    } else {
        json_escape_char(s[0]) + json_escaped(s.drop_first())
    }
}

/// The value of a hexadecimal digit.
pub open spec fn hex_value(c: char) -> Option<nat> {
    if '0' <= c && c <= '9' {
        Some((c as nat - 48) as nat)
    } else if 'a' <= c && c <= 'f' {
        Some((c as nat - 87) as nat)
    } else if 'A' <= c && c <= 'F' {
        Some((c as nat - 55) as nat)
    } else {
        None
    }
}

/// The character a `\uXXXX` escape stands for: four hex digits giving a
/// code point outside the surrogate range.
pub open spec fn unicode_escape(w: Seq<char>) -> Option<char>
    recommends
        w.len() == 4,
{
    match (hex_value(w[0]), hex_value(w[1]), hex_value(w[2]), hex_value(w[3])) {
        (Some(a), Some(b), Some(c), Some(d)) => {
            let v = a * 4096 + b * 256 + c * 16 + d;
            if 0xD800 <= v && v <= 0xDFFF {
                None
            } else {
                Some((v as u32) as char)
            }
        },
        _ => None,
    }
}

/// How a JSON reader reads the inside of a string literal: the characters
/// it stands for, or `None` where it is not a valid one (a bare `"`, a
/// control character, an unknown escape). Escapes of surrogate halves are
/// not read.
pub open spec fn json_unescape(w: Seq<char>) -> Option<Seq<char>>
    decreases w.len(),
{
    if w.len() == 0 {
        Some(seq![])
    } else if w[0] == '\\' {
        if w.len() < 2 {
            None
        } else {
            let simple = if w[1] == '"' {
                Some('"')
            } else if w[1] == '\\' {
                Some('\\')
            } else if w[1] == '/' {
                Some('/')
            } else if w[1] == 'b' {
                Some('\u{8}')
            } else if w[1] == 't' {
                Some('\t')
            } else if w[1] == 'n' {
                Some('\n')
            } else if w[1] == 'f' {
                Some('\u{c}')
            } else if w[1] == 'r' {
                Some('\r')
            } else {
                None
            };
            match simple {
                Some(c) => match json_unescape(w.skip(2)) {
                    Some(rest) => Some(seq![c] + rest),
                    None => None,
                },
                None => if w[1] == 'u' && w.len() >= 6 {
                    match (unicode_escape(w.subrange(2, 6)), json_unescape(w.skip(6))) {
                        (Some(c), Some(rest)) => Some(seq![c] + rest),
                        _ => None,
                    }
                } else {
                    None
                },
            }
        }
    } else if w[0] == '"' || (w[0] as nat) < 32 {
        None
    } else {
        match json_unescape(w.skip(1)) {
            Some(rest) => Some(seq![w[0]] + rest),
            None => None,
        }
    }
}

/// The text a JSON string literal stands for, or `None` if it is not one.
pub open spec fn json_literal_value(lit: Seq<char>) -> Option<Seq<char>> {
    if lit.len() >= 2 && lit[0] == '"' && lit.last() == '"' {
        json_unescape(lit.subrange(1, lit.len() - 1))
    } else {
        None
    }
}

proof fn lemma_hex_round_trip(n: nat)
    requires
        n < 16,
    ensures
        hex_value(hex_digit(n)) == Some(n),
{
    if n < 10 {
        assert(hex_digit(n) as nat == 48 + n);
    } else {
        assert(hex_digit(n) as nat == 87 + n);
    }
}

/// Reading the escape of one character followed by more text reads that
/// character, then the rest.
proof fn lemma_unescape_one(c: char, rest: Seq<char>)
    ensures
        json_unescape(json_escape_char(c) + rest) == match json_unescape(rest) {
            Some(r) => Some(seq![c] + r),
            None => None,
        },
{
    let w = json_escape_char(c) + rest;
    if c == '"' || c == '\\' || c == '\u{8}' || c == '\t' || c == '\n' || c == '\u{c}' || c == '\r' {
        assert(w.skip(2) =~= rest);
    } else if (c as nat) < 32 {
        let n = c as nat;
        lemma_hex_round_trip(n / 16);
        lemma_hex_round_trip(n % 16);
        assert(w.subrange(2, 6) =~= seq!['0', '0', hex_digit(n / 16), hex_digit(n % 16)]);
        assert(hex_value('0') == Some(0nat));
        assert(w.skip(6) =~= rest);
        assert(((n as u32) as char) == c);
    } else {
        assert(w.skip(1) =~= rest);
    }
}

/// A JSON reader reads back exactly the text that was escaped.
pub proof fn lemma_json_escape_round_trip(s: Seq<char>)
    ensures
        json_unescape(json_escaped(s)) == Some(s),
    decreases s.len(),
{
    if s.len() == 0 {
    } else {
        lemma_json_escape_round_trip(s.drop_first());
        lemma_unescape_one(s[0], json_escaped(s.drop_first()));
        assert(seq![s[0]] + s.drop_first() =~= s);
    }
}

/// The literal that `escape_js_string` writes stands for the very text it
/// was given: user text put into a script cannot end the string early or
/// change meaning.
pub proof fn lemma_js_literal_round_trip(s: Seq<char>)
    ensures
        json_literal_value(json_string_literal(s)) == Some(s),
{
    let lit = json_string_literal(s);
    assert(lit.subrange(1, lit.len() - 1) =~= json_escaped(s));
    lemma_json_escape_round_trip(s);
}

/// `s` as a JSON (and so JavaScript) string literal.
pub open spec fn json_string_literal(s: Seq<char>) -> Seq<char> {
    seq!['"'] + json_escaped(s) + seq!['"']
}

/// `serde_json::to_string` of a string slice: the JSON string literal of
/// the text. serde_json escapes `"` and `\`, writes `\b \t \n \f \r` for
/// those controls and `\u00xx` (lower-case hex) for the other characters
/// below U+0020, and copies everything else. It serializes into a `Vec`,
/// which cannot fail to take the bytes, and a string has no other error
/// path, so the result is always `Some`.
#[verifier::external_body]
fn json_string(value: &str) -> (r: Option<String>)
    ensures
        r is Some,
        r matches Some(s) ==> s@ == json_string_literal(value@),
{
    serde_json::to_string(value).ok()
}

/// Appends `value` as a JSON string literal.
fn push_js_string(out: &mut String, value: &str)
    ensures
        final(out)@ == old(out)@ + json_string_literal(value@),
{
    let literal = escape_js_string(value);
    out.append(literal.as_str());
}

/// `value` as a JavaScript string literal, written the way JSON writes
/// strings; should serialization fail, the text between plain quotes.
pub fn escape_js_string(value: &str) -> (res: String)
    ensures
        res@ == json_string_literal(value@),
{
    match json_string(value) {
        Some(s) => s,
        None => {
            let mut s = String::from_str("\"");
            s.append(value);
            s.append("\"");
            s
        },
    }
}

/// The statement run on the matching node: click it (or its nearest
/// button-like ancestor) when `click`, else only report it.
pub open spec fn lookup_action(click: bool) -> Seq<char> {
    if click {
        CLICK_ACTION@
    } else {
        REPORT_ACTION@
    }
}

/// A script that looks for a visible leaf element whose trimmed text is
/// exactly `text`; it returns whether one was found, clicking it first when
/// `click` is set.
pub fn text_lookup_script(text: &str, click: bool) -> (res: String)
    ensures
        res@ == OPEN_TARGET@ + json_string_literal(text@) + LOOKUP_BODY@ + lookup_action(click)
            + LOOKUP_CLOSE@,
{
    let mut out = String::new();
    out.append(OPEN_TARGET);
    push_js_string(&mut out, text);
    out.append(LOOKUP_BODY);
    if click {
        out.append(CLICK_ACTION);
    } else {
        out.append(REPORT_ACTION);
    }
    out.append(LOOKUP_CLOSE);
    out
}

/// A script that returns, as JSON, whether a visible element with text
/// `text` exists and the centre of its clickable ancestor.
pub fn text_center_lookup_script(text: &str) -> (res: String)
    ensures
        res@ == OPEN_TARGET@ + json_string_literal(text@) + CENTER_BODY@,
{
    let mut out = String::new();
    out.append(OPEN_TARGET);
    push_js_string(&mut out, text);
    out.append(CENTER_BODY);
    out
}

/// A script that returns the page's visible text, whitespace collapsed, cut
/// to `VISIBLE_TEXT_DUMP_LIMIT` characters.
pub fn visible_text_script() -> (res: String)
    ensures
        res@ == VISIBLE_TEXT_HEAD@ + decimal(VISIBLE_TEXT_DUMP_LIMIT as nat) + VISIBLE_TEXT_TAIL@,
{
    let mut out = String::new();
    out.append(VISIBLE_TEXT_HEAD);
    push_decimal(&mut out, VISIBLE_TEXT_DUMP_LIMIT as u64);
    out.append(VISIBLE_TEXT_TAIL);
    out
}

/// A script that tells whether an element matches `selector`.
pub fn selector_present_script(selector: &str) -> (res: String)
    ensures
        res@ == PRESENT_HEAD@ + json_string_literal(selector@) + PRESENT_TAIL@,
{
    let mut out = String::new();
    out.append(PRESENT_HEAD);
    push_js_string(&mut out, selector);
    out.append(PRESENT_TAIL);
    out
}

/// A script that sets the value of the element matching `selector` through
/// the prototype's setter and fires `input` and `change`; it returns whether
/// the element exists.
pub fn fill_input_script(selector: &str, value: &str) -> (res: String)
    ensures
        res@ == OPEN_ELEMENT@ + json_string_literal(selector@) + FILL_BODY@ + json_string_literal(
            value@,
        ) + FILL_CLOSE@,
{
    let mut out = String::new();
    out.append(OPEN_ELEMENT);
    push_js_string(&mut out, selector);
    out.append(FILL_BODY);
    push_js_string(&mut out, value);
    out.append(FILL_CLOSE);
    out
}

/// A script that clicks the element matching `selector`; it returns whether
/// the element exists.
pub fn click_selector_script(selector: &str) -> (res: String)
    ensures
        res@ == OPEN_ELEMENT@ + json_string_literal(selector@) + CLICK_BODY@,
{
    let mut out = String::new();
    out.append(OPEN_ELEMENT);
    push_js_string(&mut out, selector);
    out.append(CLICK_BODY);
    out
}

/// A script that focuses the element matching `selector` and sends it
/// keydown, keypress and keyup for Enter; it returns whether the element
/// exists.
pub fn press_enter_script(selector: &str) -> (res: String)
    ensures
        res@ == OPEN_ELEMENT@ + json_string_literal(selector@) + ENTER_BODY@,
{
    let mut out = String::new();
    out.append(OPEN_ELEMENT);
    push_js_string(&mut out, selector);
    out.append(ENTER_BODY);
    out
}

} // verus!
