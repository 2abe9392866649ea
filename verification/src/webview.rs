//! The built-in browser window: its handle, the content rule that keeps it
//! from downloading images and fonts, and how script results come back.

use vstd::prelude::*;
use crate::text::push_char;

verus! {

/// A handle on one built-in browser window; the windows themselves live
/// on the main thread, keyed by this id.
pub struct WebView {
    id: u64,
}

impl WebView {
    /// The handle for the window with this id.
    pub fn new(id: u64) -> (w: Self)
        ensures
            w.id() == id,
    {
        WebView { id }
    }

    /// The window's id.
    pub closed spec fn id(&self) -> u64 {
        self.id
    }

    /// The window's id.
    pub fn window_id(&self) -> (id: u64)
        ensures
            id == self.id(),
    {
        self.id
    }
}

/// The extensions joined with `|`, in order.
pub open spec fn bar_joined(exts: Seq<&str>) -> Seq<char>
    decreases exts.len(),
{
    if exts.len() == 0 {
        seq![]
    } else if exts.len() == 1 {
        exts[0]@
    } else {
        bar_joined(exts.drop_last()) + seq!['|'] + exts.last()@
    }
}

pub const RULES_HEAD: &'static str = "[{\"trigger\":{\"url-filter\":\"\\\\.(";
pub const RULES_TAIL: &'static str = ")$\"},\"action\":{\"type\":\"block\"}}]";

/// The content rule list, as JSON, that blocks every address ending in a
/// dot and one of the extensions: one rule whose URL filter is the regular
/// expression `\.(ext1|ext2|...)$` and whose action is `block`.
pub fn blocking_rules_json(extensions: &[&str]) -> (res: String)
    ensures
        res@ == RULES_HEAD@ + bar_joined(extensions@) + RULES_TAIL@,
{
    let mut res = String::from_str(RULES_HEAD);
    let ghost head = res@;
    let mut i: usize = 0;
    while i < extensions.len()
        invariant
            i <= extensions@.len(),
            res@ == head + bar_joined(extensions@.take(i as int)),
            head == RULES_HEAD@,
        decreases extensions.len() - i,
    {
        assert(extensions@.take(i + 1).drop_last() =~= extensions@.take(i as int));
        let ghost before = res@;
        if i > 0 {
            push_char(&mut res, '|');
        }
        res.append(extensions[i]);
        assert(extensions@.take(i + 1).last() == extensions@[i as int]);
        if i == 0 {
            assert(extensions@.take(1) =~= seq![extensions@[0]]);
            assert(bar_joined(extensions@.take(0)) =~= Seq::<char>::empty());
        }
        assert(res@ =~= head + bar_joined(extensions@.take(i + 1)));
        i = i + 1;
    }
    assert(extensions@.take(extensions@.len() as int) =~= extensions@);
    res.append(RULES_TAIL);
    res
}

pub const WRAP_HEAD: &'static str = "JSON.stringify((function () { const __r = (";
pub const WRAP_TAIL: &'static str = "); return __r === undefined ? null : __r; })())";

/// The script that evaluates `expr` and hands back its value as JSON text,
/// `null` where the value is undefined.
pub fn wrap_expression(expr: &str) -> (res: String)
    ensures
        res@ == WRAP_HEAD@ + expr@ + WRAP_TAIL@,
{
    let mut res = String::from_str(WRAP_HEAD);
    res.append(expr);
    res.append(WRAP_TAIL);
    res
}

/// A script result, read as JSON.
#[derive(Debug)]
pub enum JsonReply {
    Bool(bool),
    /// A JSON string, unescaped.
    Text(String),
    /// Any other JSON value, as compact JSON text.
    Other(String),
}

/// A script result as values.
pub enum ReplyShape {
    Bool(bool),
    Text(Seq<char>),
    Other(Seq<char>),
}

/// The shape of a reply.
pub open spec fn shape_of(r: JsonReply) -> ReplyShape {
    match r {
        JsonReply::Bool(b) => ReplyShape::Bool(b),
        JsonReply::Text(t) => ReplyShape::Text(t@),
        JsonReply::Other(o) => ReplyShape::Other(o@),
    }
}

/// What a JSON text parses to, or, where it is not JSON, the parser's
/// complaint.
pub uninterp spec fn json_reply(raw: Seq<char>) -> Result<ReplyShape, Seq<char>>;

/// `serde_json::from_str::<serde_json::Value>`: parses JSON text; the
/// parsed value is sorted by variant (a boolean, a string, anything else
/// written back as compact JSON text), and a parse error becomes its message.
/// Value and complaint are functions of the text alone and are given a
/// name.
#[verifier::external_body]
fn parse_json(raw: &str) -> (r: Result<JsonReply, String>)
    ensures
        match r {
            Ok(v) => json_reply(raw@) == Ok::<ReplyShape, Seq<char>>(shape_of(v)),
            Err(e) => json_reply(raw@) == Err::<ReplyShape, Seq<char>>(e@),
        },
{
    match serde_json::from_str::<serde_json::Value>(raw) {
        Ok(serde_json::Value::Bool(b)) => Ok(JsonReply::Bool(b)),
        Ok(serde_json::Value::String(text)) => Ok(JsonReply::Text(text)),
        Ok(other) => Ok(JsonReply::Other(other.to_string())),
        Err(e) => Err(e.to_string()),
    }
}

pub const UNPARSED_PREFIX: &'static str = "Could not parse the eval result as JSON: ";

/// Reads the JSON text a script handed back. Text that is not JSON is an
/// error naming the text; the parser's complaint is not part of it, as the
/// window shows only this outer message.
pub fn decode_eval_result(raw: &str) -> (r: Result<JsonReply, String>)
    ensures
        match r {
            Ok(v) => json_reply(raw@) == Ok::<ReplyShape, Seq<char>>(shape_of(v)),
            Err(m) => json_reply(raw@) is Err && m@ == UNPARSED_PREFIX@ + raw@,
        },
{
    let parsed = parse_json(raw);
    if parsed.is_ok() {
        return parsed;
    }
    let mut m = String::from_str(UNPARSED_PREFIX);
    m.append(raw);
    Err(m)
}

/// How evaluating a script went.
#[derive(Debug)]
pub enum EvalOutcome {
    /// No answer in time.
    TimedOut,
    /// The evaluation failed; the error, as text.
    Failed(String),
    /// The script's value.
    Reply(JsonReply),
}

/// A script "succeeded" only when it evaluated to `true`.
pub fn outcome_is_true(o: &EvalOutcome) -> (r: bool)
    ensures
        r == (*o matches EvalOutcome::Reply(JsonReply::Bool(true))),
{
    match o {
        EvalOutcome::Reply(JsonReply::Bool(b)) => *b,
        _ => false,
    }
}

/// The JSON text of a reply that is not a string.
pub open spec fn reply_json_text(r: JsonReply) -> Seq<char> {
    match r {
        JsonReply::Bool(b) => if b { "true"@ } else { "false"@ },
        JsonReply::Text(t) => t@,
        JsonReply::Other(o) => o@,
    }
}

/// The text a script produced, or a placeholder that says what went wrong.
pub open spec fn outcome_text_of(o: EvalOutcome) -> Seq<char> {
    match o {
        EvalOutcome::Reply(JsonReply::Text(t)) => t@,
        EvalOutcome::Reply(r) => "<unexpected eval result: "@ + reply_json_text(r) + ">"@,
        EvalOutcome::Failed(e) => "<eval failed: "@ + e@ + ">"@,
        EvalOutcome::TimedOut => "<eval timed out>"@,
    }
}

/// The text a script produced, or a placeholder saying what went wrong.
pub fn outcome_text(o: EvalOutcome) -> (s: String)
    ensures
        s@ == outcome_text_of(o),
{
    match o {
        EvalOutcome::Reply(JsonReply::Text(t)) => t,
        EvalOutcome::Reply(r) => {
            let mut s = String::from_str("<unexpected eval result: ");
            match r {
                JsonReply::Bool(b) => s.append(if b { "true" } else { "false" }),
                JsonReply::Text(t) => s.append(t.as_str()),
                JsonReply::Other(x) => s.append(x.as_str()),
            }
            s.append(">");
            s
        },
        EvalOutcome::Failed(e) => {
            let mut s = String::from_str("<eval failed: ");
            s.append(e.as_str());
            s.append(">");
            s
        },
        EvalOutcome::TimedOut => String::from_str("<eval timed out>"),
    }
}

} // verus!
