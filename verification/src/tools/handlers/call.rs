//! The `call` tool: an agent sends a message to another agent or to a person.
//!
//! The caller always goes on after the dispatch; the `wait` tool blocks on
//! replies. What goes out to other threads is outside work; the decisions around
//! it are here.
use crate::ids::{thread_named, thread_text, ThreadId};
use crate::json::{
    document_fields, field_named, parse_json, parsed_json, FieldModel, JsonDocument, JsonField,
    JsonObject,
};
use crate::protocol::{
    tells_model, AgentNames, AgentStatus, FunctionCallError, FunctionOutput, SessionSource,
    SpawnedAgentType, SubAgentSource,
};
use crate::text::{
    blank, chars_of, contains_char, contains_text, decimal, decimal_of_usize, has_text, is_blank,
    join, joined, occurs_at, opt_str, opt_text, same_text, texts, trim, trim_end, trim_end_str,
};
use crate::tools::handlers::collab_inbox::{
    delivered, fulfilled, has_obligation, inbox_of, next_number, obligation, owes_reply, registered,
    with_inbox, with_obligation, InboxMessage, InboxRuntime, InboxView,
};
use crate::tools::handlers::wait::target_thread;
use vstd::prelude::*;
use vstd::utf8::{decode_utf8, encode_utf8, valid_utf8};

verus! {

/// Implements correlated `call` semantics on top of sub-agent messaging.
pub struct CallHandler;

/// Avoid sending arbitrarily large payloads through the multi-agent channel.
pub const MAX_CONTENT_CHARS: usize = 32768;

pub const CALL_DISPATCHED_TEXT: &'static str = "call dispatched successfully; continue without waiting";

pub const CALL_FAILED_TEXT: &'static str = "call failed; continue without waiting";

#[derive(Debug, Clone, PartialEq, Eq)]
pub struct CallArgs {
    pub target_id: String,
    pub content: String,
    pub message_id: String,
    pub need_reply: bool,
    pub reply_to_message_id: Option<String>,
}

/// The encodings through which a text that was decoded wrongly is read again.
#[derive(Debug, Clone, Copy, PartialEq, Eq, Structural)]
pub enum RetryEncoding {
    Gbk,
    Big5,
    ShiftJis,
    EucKr,
    Windows1252,
}

// ---------------------------------------------------------------------------
// Repairing text that was decoded wrongly
// ---------------------------------------------------------------------------

/// The bytes `encoding_rs` encodes a text to, if it can be encoded.
pub uninterp spec fn encoded(encoding: RetryEncoding, text: Seq<char>) -> Option<Seq<u8>>;

pub open spec fn opt_bytes(b: Option<Vec<u8>>) -> Option<Seq<u8>> {
    match b {
        Some(v) => Some(v@),
        None => None,
    }
}

/// Trusted: `encoding_rs::Encoding::encode` with the encoding of that name;
/// `None` where it reports characters that cannot be encoded. The bytes depend
/// on the encoding and the text alone.
#[verifier::external_body]
fn encode_with(encoding: RetryEncoding, text: &str) -> (r: Option<Vec<u8>>)
    ensures
        opt_bytes(r) == encoded(encoding, text@),
{
    let outside = match encoding {
        RetryEncoding::Gbk => encoding_rs::GBK,
        RetryEncoding::Big5 => encoding_rs::BIG5,
        RetryEncoding::ShiftJis => encoding_rs::SHIFT_JIS,
        RetryEncoding::EucKr => encoding_rs::EUC_KR,
        RetryEncoding::Windows1252 => encoding_rs::WINDOWS_1252,
    };
    let (bytes, _, had_errors) = outside.encode(text);
    (!had_errors).then_some(bytes.into_owned())
}

/// Trusted: `String::from_utf8`. It succeeds on valid UTF-8, with the text that
/// the bytes encode.
#[verifier::external_body]
fn utf8_text(bytes: Vec<u8>) -> (r: Option<String>)
    ensures
        opt_text(r) == (if valid_utf8(bytes@) {
            Some(decode_utf8(bytes@))
        } else {
            None
        }),
{
    String::from_utf8(bytes).ok()
}

/// The text that results from encoding a text and reading the bytes as UTF-8.
pub open spec fn transcoded(encoding: RetryEncoding, text: Seq<char>) -> Option<Seq<char>> {
    match encoded(encoding, text) {
        Some(bytes) => if valid_utf8(bytes) {
            Some(decode_utf8(bytes))
        } else {
            None
        },
        None => None,
    }
}

/// The encodings, in the order in which they are tried.
pub open spec fn retry_order() -> Seq<RetryEncoding> {
    seq![
        RetryEncoding::Gbk,
        RetryEncoding::Big5,
        RetryEncoding::ShiftJis,
        RetryEncoding::EucKr,
        RetryEncoding::Windows1252,
    ]
}

pub open spec fn is_lossy_marker(c: char) -> bool {
    c == '\u{FFFD}' || c == '?'
}

pub open spec fn is_c1_control(c: char) -> bool {
    '\u{80}' <= c <= '\u{9F}'
}

pub open spec fn is_mojibake_hint(c: char) -> bool {
    c == '\u{C3}' || c == '\u{C2}' || c == '\u{E2}' || c == '\u{D0}' || c == '\u{D1}' || c
        == '\u{E6}' || c == '\u{E5}'
}

/// How many characters of `s` have a property.
pub open spec fn count(s: Seq<char>, p: spec_fn(char) -> bool) -> nat {
    s.filter(p).len()
}

/// How damaged a text looks: lossy markers, C1 controls, and letters that wrong
/// decoding tends to leave.
pub open spec fn repair_score(s: Seq<char>) -> (nat, nat, nat) {
    (
        count(s, |c: char| is_lossy_marker(c)),
        count(s, |c: char| is_c1_control(c)),
        count(s, |c: char| is_mojibake_hint(c)),
    )
}

pub open spec fn score_less(a: (nat, nat, nat), b: (nat, nat, nat)) -> bool {
    ||| a.0 < b.0
    ||| a.0 == b.0 && a.1 < b.1
    ||| a.0 == b.0 && a.1 == b.1 && a.2 < b.2
}

/// The least damaged of a text and its readings through the first `n`
/// encodings; of equally damaged ones, the first.
pub open spec fn best_reading(content: Seq<char>, n: nat) -> Seq<char>
    decreases n,
{
    if n == 0 {
        content
    } else {
        let so_far = best_reading(content, (n - 1) as nat);
        match transcoded(retry_order()[n - 1], content) {
            Some(candidate) => if score_less(repair_score(candidate), repair_score(so_far)) {
                candidate
            } else {
                so_far
            },
            None => so_far,
        }
    }
}

/// The least damaged reading of a text.
pub open spec fn repaired(content: Seq<char>) -> Seq<char> {
    best_reading(content, 5)
}

fn encoding_at(i: usize) -> (r: RetryEncoding)
    requires
        i < 5,
    ensures
        r == retry_order()[i as int],
{
    if i == 0 {
        RetryEncoding::Gbk
    } else if i == 1 {
        RetryEncoding::Big5
    } else if i == 2 {
        RetryEncoding::ShiftJis
    } else if i == 3 {
        RetryEncoding::EucKr
    } else {
        RetryEncoding::Windows1252
    }
}

/// The text that results from encoding a text and reading the bytes as UTF-8.
pub fn transcode_to_utf8(input: &str, encoding: RetryEncoding) -> (r: Option<String>)
    ensures
        opt_text(r) == transcoded(encoding, input@),
{
    match encode_with(encoding, input) {
        Some(bytes) => utf8_text(bytes),
        None => None,
    }
}

proof fn lemma_count_step(s: Seq<char>, i: int, p: spec_fn(char) -> bool)
    requires
        0 <= i < s.len(),
    ensures
        count(s.take(i + 1), p) == count(s.take(i), p) + (if p(s[i]) {
            1nat
        } else {
            0nat
        }),
        count(s.take(i), p) <= i,
{
    reveal(Seq::filter);
    assert(s.take(i + 1).drop_last() =~= s.take(i));
    s.take(i).lemma_filter_len(p);
}

/// How damaged a text looks.
pub fn content_repair_score(content: &str) -> (r: (usize, usize, usize))
    ensures
        (r.0 as nat, r.1 as nat, r.2 as nat) == repair_score(content@),
{
    let chars = chars_of(content);
    let n: usize = chars.len();
    let mut lossy: usize = 0;
    let mut controls: usize = 0;
    let mut hints: usize = 0;
    let mut i: usize = 0;
    let ghost p0 = |c: char| is_lossy_marker(c);
    let ghost p1 = |c: char| is_c1_control(c);
    let ghost p2 = |c: char| is_mojibake_hint(c);
    assert(count(content@.take(0), p0) == 0 && count(content@.take(0), p1) == 0 && count(
        content@.take(0),
        p2,
    ) == 0) by {
        reveal(Seq::filter);
    }
    while i < n
        invariant
            chars@ == content@,
            n == chars@.len(),
            i <= n,
            p0 == (|c: char| is_lossy_marker(c)),
            p1 == (|c: char| is_c1_control(c)),
            p2 == (|c: char| is_mojibake_hint(c)),
            lossy == count(content@.take(i as int), p0),
            controls == count(content@.take(i as int), p1),
            hints == count(content@.take(i as int), p2),
        decreases n - i,
    {
        let c: char = chars[i];
        proof {
            lemma_count_step(content@, i as int, p0);
            lemma_count_step(content@, i as int, p1);
            lemma_count_step(content@, i as int, p2);
        }
        if c == '\u{FFFD}' || c == '?' {
            lossy = lossy + 1;
        }
        if '\u{80}' <= c && c <= '\u{9F}' {
            controls = controls + 1;
        }
        if c == '\u{C3}' || c == '\u{C2}' || c == '\u{E2}' || c == '\u{D0}' || c == '\u{D1}' || c
            == '\u{E6}' || c == '\u{E5}' {
            hints = hints + 1;
        }
        i = i + 1;
    }
    assert(content@.take(n as int) =~= content@);
    (lossy, controls, hints)
}

/// The least damaged reading of a text.
pub fn normalize_call_content_utf8(content: &str) -> (r: String)
    ensures
        r@ == repaired(content@),
{
    let mut best = content.to_string();
    let mut best_score: (usize, usize, usize) = content_repair_score(content);
    let mut i: usize = 0;
    while i < 5
        invariant
            i <= 5,
            best@ == best_reading(content@, i as nat),
            (best_score.0 as nat, best_score.1 as nat, best_score.2 as nat) == repair_score(best@),
        decreases 5 - i,
    {
        if let Some(candidate) = transcode_to_utf8(content, encoding_at(i)) {
            let score: (usize, usize, usize) = content_repair_score(candidate.as_str());
            if score.0 < best_score.0 || (score.0 == best_score.0 && (score.1 < best_score.1 || (
            score.1 == best_score.1 && score.2 < best_score.2))) {
                best = candidate;
                best_score = score;
            }
        }
        i = i + 1;
    }
    best
}

// ---------------------------------------------------------------------------
// Arguments
// ---------------------------------------------------------------------------

/// What `parse_json` gives for the first reading of a text that is JSON: the text
/// as it is, or else what one of the encodings makes of it.
pub open spec fn first_json(text: Seq<char>, n: nat) -> Option<Option<Seq<(Seq<char>, FieldModel)>>>
    decreases n,
{
    if n == 0 {
        None
    } else {
        match first_json(text, (n - 1) as nat) {
            Some(d) => Some(d),
            None => match transcoded(retry_order()[n - 1], text) {
                Some(candidate) => if candidate == text {
                    None
                } else {
                    match parsed_json(candidate) {
                        Ok(d) => Some(d),
                        Err(_) => None,
                    }
                },
                None => None,
            },
        }
    }
}

/// The document that a call's arguments hold, or the parser's message.
pub open spec fn call_document(text: Seq<char>) -> Result<
    Option<Seq<(Seq<char>, FieldModel)>>,
    Seq<char>,
> {
    match parsed_json(text) {
        Ok(d) => Ok(d),
        Err(message) => match first_json(text, 5) {
            Some(d) => Ok(d),
            None => Err(message),
        },
    }
}

/// The forbidden fields that a call has, in their own order.
pub open spec fn forbidden_fields(s: Seq<(Seq<char>, FieldModel)>) -> Seq<Seq<char>> {
    let a = if field_named(s, "status_control"@) is Some {
        seq!["status_control"@]
    } else {
        Seq::<Seq<char>>::empty()
    };
    let b = if field_named(s, "timeout_ms"@) is Some {
        a.push("timeout_ms"@)
    } else {
        a
    };
    if field_named(s, "context_data"@) is Some {
        b.push("context_data"@)
    } else {
        b
    }
}

/// The field that names the target: `target_id`, or else `target_agent_name`.
pub open spec fn target_field(s: Seq<(Seq<char>, FieldModel)>) -> Option<FieldModel> {
    match field_named(s, "target_id"@) {
        Some(f) => Some(f),
        None => field_named(s, "target_agent_name"@),
    }
}

pub open spec fn as_text(f: Option<FieldModel>) -> Option<Seq<char>> {
    match f {
        Some(FieldModel::Text(t)) => Some(t),
        _ => None,
    }
}

/// How a value that is no message id is shown.
pub open spec fn shown(f: FieldModel) -> Seq<char> {
    match f {
        FieldModel::Null => "Null"@,
        FieldModel::Bool(b) => if b {
            "Bool(true)"@
        } else {
            "Bool(false)"@
        },
        FieldModel::Number(n) => n,
        FieldModel::Text(t) => t,
        FieldModel::Nested(_, s) => s,
    }
}

/// A message id: a string, or a number as it is printed.
pub open spec fn message_id_of(f: FieldModel) -> Result<Seq<char>, Seq<char>> {
    match f {
        FieldModel::Text(t) => Ok(t),
        FieldModel::Number(n) => Ok(n),
        _ => Err("message id must be a string or number; got "@ + shown(f)),
    }
}

pub open spec fn reply_to_of(f: Option<FieldModel>) -> Result<Option<Seq<char>>, Seq<char>> {
    match f {
        None => Ok(None),
        Some(FieldModel::Null) => Ok(None),
        Some(v) => match message_id_of(v) {
            Ok(id) => Ok(Some(id)),
            Err(e) => Err(e),
        },
    }
}

/// What is wrong with the fields of a call, if anything; the first fault counts.
pub open spec fn call_fault(d: Option<Seq<(Seq<char>, FieldModel)>>) -> Option<Seq<char>> {
    match d {
        None => Some("failed to parse function arguments: expected JSON object"@),
        Some(s) => if forbidden_fields(s).len() > 0 {
            Some("unsupported call fields: "@ + joined(forbidden_fields(s), ", "@))
        } else if as_text(target_field(s)) is None {
            Some("target_id or target_agent_name is required"@)
        } else if as_text(field_named(s, "content"@)) is None {
            Some("content is required"@)
        } else {
            match field_named(s, "message_id"@) {
                None => Some("message_id is required"@),
                Some(f) => match message_id_of(f) {
                    Err(e) => Some(e),
                    Ok(_) => match reply_to_of(field_named(s, "reply_to_message_id"@)) {
                        Err(e) => Some(e),
                        Ok(_) => None,
                    },
                },
            }
        },
    }
}

/// The arguments that the fields of a faultless call hold.
pub open spec fn call_args_are(a: CallArgs, s: Seq<(Seq<char>, FieldModel)>) -> bool {
    &&& as_text(target_field(s)) == Some(a.target_id@)
    &&& as_text(field_named(s, "content"@)) matches Some(content) && a.content@ == repaired(content)
    &&& field_named(s, "message_id"@) matches Some(f) && message_id_of(f) == Ok::<_, Seq<char>>(
        a.message_id@,
    )
    &&& a.need_reply == (field_named(s, "need_reply"@) == Some(FieldModel::Bool(true)))
    &&& reply_to_of(field_named(s, "reply_to_message_id"@)) == Ok::<_, Seq<char>>(
        opt_text(a.reply_to_message_id),
    )
}

fn text_field(o: &JsonObject, name: &str) -> (r: Option<String>)
    ensures
        opt_text(r) == as_text(field_named(o@, name@)),
{
    match o.get(name) {
        Some(JsonField::Text(t)) => Some(t.clone()),
        _ => None,
    }
}

fn message_id_text(f: &JsonField) -> (r: Result<String, String>)
    ensures
        match r {
            Ok(id) => message_id_of(f@) == Ok::<_, Seq<char>>(id@),
            Err(e) => message_id_of(f@) == Err::<Seq<char>, _>(e@),
        },
{
    match f {
        JsonField::Text(t) => Ok(t.clone()),
        JsonField::Number(n) => Ok(n.clone()),
        JsonField::Null => {
            let mut e = "message id must be a string or number; got ".to_string();
            e.append("Null");
            Err(e)
        },
        JsonField::Bool(b) => {
            let mut e = "message id must be a string or number; got ".to_string();
            e.append(
                if *b {
                    "Bool(true)"
                } else {
                    "Bool(false)"
                },
            );
            Err(e)
        },
        JsonField::Nested { compact: _, shown } => {
            let mut e = "message id must be a string or number; got ".to_string();
            e.append(shown.as_str());
            Err(e)
        },
    }
}

/// The arguments of a call, from the document that holds them.
pub fn call_args_from_document(document: &JsonDocument) -> (r: Result<CallArgs, FunctionCallError>)
    ensures
        match r {
            Ok(args) => call_fault(document_fields(*document)) is None && (document_fields(
                *document,
            ) matches Some(s) && call_args_are(args, s)),
            Err(e) => call_fault(document_fields(*document)) matches Some(message) && tells_model(
                e,
                message,
            ),
        },
{
    let object = match document {
        JsonDocument::Object(o) => o,
        JsonDocument::NotAnObject => {
            return Err(
                FunctionCallError::respond(
                    "failed to parse function arguments: expected JSON object",
                ),
            );
        },
    };
    let mut forbidden: Vec<String> = Vec::new();
    if object.get("status_control").is_some() {
        forbidden.push("status_control".to_string());
    }
    if object.get("timeout_ms").is_some() {
        forbidden.push("timeout_ms".to_string());
    }
    if object.get("context_data").is_some() {
        forbidden.push("context_data".to_string());
    }
    assert(texts(forbidden@) =~= forbidden_fields(object@));
    if forbidden.len() > 0 {
        let mut message = "unsupported call fields: ".to_string();
        message.append(join(&forbidden, ", ").as_str());
        return Err(FunctionCallError::RespondToModel(message));
    }
    assert(forbidden_fields(object@).len() == 0);
    let target = if object.get("target_id").is_some() {
        text_field(object, "target_id")
    } else {
        text_field(object, "target_agent_name")
    };
    let target_id = match target {
        Some(t) => t,
        None => {
            return Err(FunctionCallError::respond("target_id or target_agent_name is required"));
        },
    };
    let content = match text_field(object, "content") {
        Some(t) => t,
        None => {
            return Err(FunctionCallError::respond("content is required"));
        },
    };
    let message_id = match object.get("message_id") {
        Some(f) => match message_id_text(f) {
            Ok(id) => id,
            Err(e) => {
                return Err(FunctionCallError::RespondToModel(e));
            },
        },
        None => {
            return Err(FunctionCallError::respond("message_id is required"));
        },
    };
    let reply_to_message_id = match object.get("reply_to_message_id") {
        None => None,
        Some(JsonField::Null) => None,
        Some(f) => match message_id_text(f) {
            Ok(id) => Some(id),
            Err(e) => {
                return Err(FunctionCallError::RespondToModel(e));
            },
        },
    };
    let need_reply = match object.get("need_reply") {
        Some(JsonField::Bool(b)) => *b,
        _ => false,
    };
    let content = normalize_call_content_utf8(content.as_str());
    Ok(CallArgs { target_id, content, message_id, need_reply, reply_to_message_id })
}

/// The arguments of a call. Text that is no JSON is read again through the
/// encodings in which it may have been decoded wrongly.
pub fn parse_call_args(arguments: &str) -> (r: Result<CallArgs, FunctionCallError>)
    ensures
        match call_document(arguments@) {
            Err(message) => r matches Err(e) && tells_model(
                e,
                "failed to parse function arguments: "@ + message,
            ),
            Ok(d) => match r {
                Ok(args) => call_fault(d) is None && (d matches Some(s) && call_args_are(args, s)),
                Err(e) => call_fault(d) matches Some(message) && tells_model(e, message),
            },
        },
{
    let parse_err = match parse_json(arguments) {
        Ok(document) => {
            return call_args_from_document(&document);
        },
        Err(e) => e,
    };
    let mut i: usize = 0;
    while i < 5
        invariant
            i <= 5,
            first_json(arguments@, i as nat) is None,
            parsed_json(arguments@) == Err::<Option<Seq<(Seq<char>, FieldModel)>>, _>(parse_err@),
        decreases 5 - i,
    {
        if let Some(candidate) = transcode_to_utf8(arguments, encoding_at(i)) {
            if !same_text(candidate.as_str(), arguments) {
                if let Ok(document) = parse_json(candidate.as_str()) {
                    assert(first_json(arguments@, (i + 1) as nat) == Some(
                        document_fields(document),
                    ));
                    proof {
                        lemma_first_json_stays(arguments@, (i + 1) as nat, 5);
                    }
                    return call_args_from_document(&document);
                }
            }
        }
        i = i + 1;
    }
    let mut message = "failed to parse function arguments: ".to_string();
    message.append(parse_err.as_str());
    Err(FunctionCallError::RespondToModel(message))
}

proof fn lemma_first_json_stays(text: Seq<char>, n: nat, k: nat)
    requires
        first_json(text, n) is Some,
        n <= k,
    ensures
        first_json(text, k) == first_json(text, n),
    decreases k,
{
    if n < k {
        lemma_first_json_stays(text, n, (k - 1) as nat);
    }
}

/// What is wrong with the arguments of a call, if anything; the first fault counts.
pub open spec fn argument_fault(a: CallArgs) -> Option<Seq<char>> {
    if blank(a.target_id@) {
        Some("target_id or target_agent_name is required"@)
    } else if blank(a.content@) {
        Some("content must be non-empty"@)
    } else if a.content@.len() > MAX_CONTENT_CHARS {
        Some("content is too large (max 32768 characters)"@)
    } else if blank(a.message_id@) {
        Some("message_id must be non-empty"@)
    } else if a.reply_to_message_id matches Some(id) && blank(id@) {
        Some("reply_to_message_id must be non-empty when set"@)
    } else {
        None
    }
}

/// Checks the arguments of a call.
pub fn check_call_args(args: &CallArgs) -> (r: Result<(), FunctionCallError>)
    ensures
        match argument_fault(*args) {
            Some(message) => r matches Err(e) && tells_model(e, message),
            None => r is Ok,
        },
{
    if is_blank(args.target_id.as_str()) {
        return Err(FunctionCallError::respond("target_id or target_agent_name is required"));
    }
    if is_blank(args.content.as_str()) {
        return Err(FunctionCallError::respond("content must be non-empty"));
    }
    if args.content.as_str().unicode_len() > MAX_CONTENT_CHARS {
        return Err(FunctionCallError::respond("content is too large (max 32768 characters)"));
    }
    if is_blank(args.message_id.as_str()) {
        return Err(FunctionCallError::respond("message_id must be non-empty"));
    }
    if let Some(id) = &args.reply_to_message_id {
        if is_blank(id.as_str()) {
            return Err(FunctionCallError::respond("reply_to_message_id must be non-empty when set"));
        }
    }
    Ok(())
}


// ---------------------------------------------------------------------------
// Target and dispatch
// ---------------------------------------------------------------------------

/// How a call reaches its target.
#[derive(Clone, Copy, Debug, PartialEq, Eq, Structural)]
pub enum CallDispatchMode {
    StartNewTurn,
    QueueInRunningTurn,
    LogicalInbox,
}

/// Whom a call goes to: an agent's thread, or an inbox that no agent has.
#[derive(Clone, Copy, Debug, PartialEq, Eq, Structural)]
pub enum ResolvedCallTarget {
    Agent(ThreadId),
    Logical,
}

/// How a call reaches an agent that stands so; not at all where it is gone.
pub open spec fn dispatch_mode(status: AgentStatus) -> Option<CallDispatchMode> {
    match status {
        AgentStatus::Running => Some(CallDispatchMode::QueueInRunningTurn),
        AgentStatus::Shutdown => None,
        AgentStatus::NotFound => None,
        _ => Some(CallDispatchMode::StartNewTurn),
    }
}

pub fn dispatch_mode_for_status(status: &AgentStatus) -> (r: Option<CallDispatchMode>)
    ensures
        r == dispatch_mode(*status),
{
    match status {
        AgentStatus::PendingInit => Some(CallDispatchMode::StartNewTurn),
        AgentStatus::Interrupted => Some(CallDispatchMode::StartNewTurn),
        AgentStatus::Completed(_) => Some(CallDispatchMode::StartNewTurn),
        AgentStatus::Errored(_) => Some(CallDispatchMode::StartNewTurn),
        AgentStatus::Running => Some(CallDispatchMode::QueueInRunningTurn),
        AgentStatus::Shutdown => None,
        AgentStatus::NotFound => None,
    }
}

/// Whether a call goes to somebody else than its caller.
pub open spec fn goes_on(caller: ThreadId, target: ThreadId) -> bool {
    caller != target
}

/// Whether this is what the caller is told.
pub open spec fn is_call_output(r: FunctionOutput, success: bool) -> bool {
    &&& r.text@ == (if success {
        CALL_DISPATCHED_TEXT@
    } else {
        CALL_FAILED_TEXT@
    })
    &&& r.success == Some(success)
}

/// What is noted where a call failed.
pub open spec fn failure_details(agent_name: Seq<char>, err: SendFailure) -> Seq<char> {
    match err {
        SendFailure::ThreadNotFound => "agent name not found: "@ + agent_name,
        SendFailure::InternalAgentDied => "agent `"@ + agent_name + "` is closed"@,
        SendFailure::UnsupportedOperation => "collab manager unavailable"@,
        SendFailure::Other => "call tool failed"@,
    }
}

/// Whether a call is sent to its target: one to the caller itself is only put into
/// the inbox.
pub fn is_sent_on(caller: ThreadId, target: ThreadId) -> (r: bool)
    ensures
        r == goes_on(caller, target),
{
    caller != target
}

/// What the caller is told: that the call went out, or that it failed.
pub fn call_output(success: bool) -> (r: FunctionOutput)
    ensures
        is_call_output(r, success),
{
    let text = if success {
        CALL_DISPATCHED_TEXT
    } else {
        CALL_FAILED_TEXT
    };
    FunctionOutput { text: text.to_string(), success: Some(success) }
}

/// Why a message could not be handed to an agent.
#[derive(Debug, Clone, PartialEq, Eq)]
pub enum SendFailure {
    ThreadNotFound,
    InternalAgentDied,
    UnsupportedOperation,
    Other,
}

/// What is noted where a call failed.
pub fn call_error_details(agent_name: &str, err: &SendFailure) -> (r: String)
    ensures
        r@ == failure_details(agent_name@, *err),
{
    match err {
        SendFailure::ThreadNotFound => {
            let mut out = "agent name not found: ".to_string();
            out.append(agent_name);
            out
        },
        SendFailure::InternalAgentDied => {
            let mut out = "agent `".to_string();
            out.append(agent_name);
            out.append("` is closed");
            out
        },
        SendFailure::UnsupportedOperation => "collab manager unavailable".to_string(),
        SendFailure::Other => "call tool failed".to_string(),
    }
}

/// The names of the agents that can be called.
pub open spec fn known_names(names: AgentNames) -> Seq<Seq<char>> {
    names.entries@.map_values(|e: (ThreadId, String)| e.1@)
}

/// What the caller is told of a name that nobody has.
pub open spec fn unknown_name_text(names: AgentNames, agent_name: Seq<char>) -> Seq<char> {
    if names.entries@.len() == 0 {
        "agent name not found: "@ + agent_name
    } else {
        "agent name not found: "@ + agent_name + ". Known agent names: "@ + joined(
            known_names(names),
            ", "@,
        )
    }
}

pub fn unknown_agent_name_error(names: &AgentNames, agent_name: &str) -> (r: FunctionCallError)
    ensures
        tells_model(r, unknown_name_text(*names, agent_name@)),
{
    let mut message = "agent name not found: ".to_string();
    message.append(agent_name);
    let n: usize = names.entries.len();
    if n == 0 {
        return FunctionCallError::RespondToModel(message);
    }
    let mut known: Vec<String> = Vec::new();
    let mut i: usize = 0;
    while i < n
        invariant
            n == names.entries@.len(),
            i <= n,
            texts(known@) == known_names(*names).take(i as int),
        decreases n - i,
    {
        let ghost before = texts(known@);
        known.push(names.entries[i].1.clone());
        i = i + 1;
        assert(texts(known@) =~= before.push(names.entries@[i - 1].1@));
        assert(known_names(*names).take(i as int) =~= known_names(*names).take(i - 1).push(
            known_names(*names)[i - 1],
        ));
    }
    assert(known_names(*names).take(n as int) =~= known_names(*names));
    message.append(". Known agent names: ");
    message.append(join(&known, ", ").as_str());
    FunctionCallError::RespondToModel(message)
}

/// Whom a call goes to.
pub open spec fn call_target(names: AgentNames, target_id: Seq<char>) -> ResolvedCallTarget {
    match target_thread(names, target_id) {
        Some(thread) => ResolvedCallTarget::Agent(thread),
        None => ResolvedCallTarget::Logical,
    }
}

pub fn resolve_call_target(names: &AgentNames, target_id: &str) -> (r: ResolvedCallTarget)
    ensures
        r == call_target(*names, target_id@),
{
    match names.thread_id_for_agent_name(target_id) {
        Some(thread) => ResolvedCallTarget::Agent(thread),
        None => match ThreadId::from_string(target_id) {
            Some(thread) => ResolvedCallTarget::Agent(thread),
            None => ResolvedCallTarget::Logical,
        },
    }
}

/// The inbox a call goes to.
pub open spec fn call_inbox(names: AgentNames, target_id: Seq<char>) -> Seq<char> {
    match call_target(names, target_id) {
        ResolvedCallTarget::Agent(thread) => thread_text(thread),
        ResolvedCallTarget::Logical => target_id,
    }
}

/// Whether the target of a call still owes a reply to a message with this id.
pub open spec fn in_flight(
    m: Map<Seq<char>, InboxView>,
    inbox: Seq<char>,
    message_id: Seq<char>,
) -> bool {
    has_obligation(m, inbox, message_id) && !obligation(m, inbox, message_id).resolved
}

/// A call that may go out.
#[derive(Debug)]
pub struct CallPlan {
    pub target: ResolvedCallTarget,
    pub target_inbox_id: String,
}

/// Whether this is the plan for a call, or why it may not go out, and what that
/// leaves behind.
pub open spec fn plans_call(
    r: Result<CallPlan, FunctionCallError>,
    m: Map<Seq<char>, InboxView>,
    m_after: Map<Seq<char>, InboxView>,
    names: AgentNames,
    args: CallArgs,
    swarm: bool,
) -> bool {
    let target = args.target_id@;
    let inbox = call_inbox(names, target);
    if call_target(names, target) is Logical && target.contains('-') {
        &&& r matches Err(e) && tells_model(e, unknown_name_text(names, target))
        &&& m_after == m
    } else if swarm && in_flight(m, inbox, args.message_id@) {
        &&& r matches Err(e) && tells_model(
            e,
            "message_id already has an unresolved need_reply obligation for target agent `"@
                + target + "`: "@ + args.message_id@,
        )
        &&& m_after == with_inbox(m, inbox)
    } else {
        &&& r matches Ok(plan) && plan.target == call_target(names, target)
            && plan.target_inbox_id@ == inbox
        &&& m_after == (if swarm {
            with_inbox(m, inbox)
        } else {
            m
        })
    }
}

/// Finds the target of a call and refuses a message id that is still in flight
/// to it.
pub fn plan_call(inboxes: &mut InboxRuntime, names: &AgentNames, args: &CallArgs, swarm: bool) -> (r:
    Result<CallPlan, FunctionCallError>)
    ensures
        plans_call(r, old(inboxes)@, final(inboxes)@, *names, *args, swarm),
{
    let target = resolve_call_target(names, args.target_id.as_str());
    let target_inbox_id = match target {
        ResolvedCallTarget::Agent(thread) => thread.to_text(),
        ResolvedCallTarget::Logical => {
            if contains_char(args.target_id.as_str(), '-') {
                return Err(unknown_agent_name_error(names, args.target_id.as_str()));
            }
            args.target_id.clone()
        },
    };
    if swarm && inboxes.has_required_reply_obligation_logical(
        target_inbox_id.as_str(),
        args.message_id.as_str(),
    ) {
        let mut message =
            "message_id already has an unresolved need_reply obligation for target agent `".to_string();
        message.append(args.target_id.as_str());
        message.append("`: ");
        message.append(args.message_id.as_str());
        return Err(FunctionCallError::RespondToModel(message));
    }
    Ok(CallPlan { target, target_inbox_id })
}

/// The name a caller goes by, or that it has to be registered first.
#[derive(Debug, Clone, PartialEq, Eq)]
pub enum SenderName {
    Known(String),
    RegisterPrimary,
}

/// Whether this is the name a caller goes by.
pub open spec fn names_caller(
    r: Result<SenderName, FunctionCallError>,
    names: AgentNames,
    conversation: ThreadId,
    source: SessionSource,
) -> bool {
    match names.name_of(conversation) {
        Some(name) => r matches Ok(SenderName::Known(n)) && n@ == name,
        None => if source is SubAgent {
            r matches Err(e) && tells_model(
                e,
                "agent name not found for current sender: "@ + thread_text(conversation),
            )
        } else {
            r == Ok::<_, FunctionCallError>(SenderName::RegisterPrimary)
        },
    }
}

/// The name a caller goes by. The root agent of a session gets its name the
/// first time it calls; a sub-agent has to have one.
pub fn ensure_sender_agent_name(
    names: &AgentNames,
    conversation_id: ThreadId,
    source: &SessionSource,
) -> (r: Result<SenderName, FunctionCallError>)
    ensures
        names_caller(r, *names, conversation_id, *source),
{
    match names.agent_name_for_thread(conversation_id) {
        Some(name) => Ok(SenderName::Known(name)),
        None => match source {
            SessionSource::SubAgent(_) => {
                let mut message = "agent name not found for current sender: ".to_string();
                message.append(conversation_id.to_text().as_str());
                Err(FunctionCallError::RespondToModel(message))
            },
            _ => Ok(SenderName::RegisterPrimary),
        },
    }
}

// ---------------------------------------------------------------------------
// What is sent
// ---------------------------------------------------------------------------

/// Whether a session is a verifier that the thread `parent` has spawned.
pub open spec fn is_own_verifier(source: SessionSource, parent: ThreadId) -> bool {
    source matches SessionSource::SubAgent(
        SubAgentSource::ThreadSpawn { parent_thread_id, agent_type, .. },
    ) && parent_thread_id == parent && agent_type == Some(SpawnedAgentType::Verifier)
}

/// The `i`-th of `total` user inputs as it is quoted, counted from one.
pub open spec fn quoted_input(i: nat, total: nat, text: Seq<char>) -> Seq<char> {
    "- User input "@ + decimal(i) + (if i == total {
        " (latest)"@
    } else {
        Seq::empty()
    }) + ":\n"@ + text
}

/// The user inputs as they are quoted.
pub open spec fn quoted_inputs(inputs: Seq<Seq<char>>) -> Seq<Seq<char>> {
    Seq::new(inputs.len(), |i: int| quoted_input((i + 1) as nat, inputs.len(), inputs[i]))
}

/// The content of a call. A verifier that the caller has spawned is also told
/// what the user recently said, oldest first.
pub open spec fn augmented(
    caller: SessionSource,
    target: Option<SessionSource>,
    conversation: ThreadId,
    inputs: Seq<Seq<char>>,
    content: Seq<char>,
) -> Seq<char> {
    if !(caller is SubAgent) && (target matches Some(t) && is_own_verifier(t, conversation))
        && inputs.len() > 0 {
        trim_end(content)
            + "\n\nPlease also consider the following recent real human user inputs from the main agent session. These are preserved verbatim in chronological order and may conflict; use the ordering to resolve that context.\n\n"@
            + joined(quoted_inputs(inputs), "\n\n"@)
    } else {
        content
    }
}

/// The content of a call, as the target is to read it.
pub fn augment_call_content_for_verifier(
    caller: &SessionSource,
    target: Option<&SessionSource>,
    conversation_id: ThreadId,
    recent_user_inputs: &Vec<String>,
    content: &str,
) -> (r: String)
    ensures
        r@ == augmented(
            *caller,
            match target {
                Some(t) => Some(*t),
                None => None,
            },
            conversation_id,
            texts(recent_user_inputs@),
            content@,
        ),
{
    let from_root = match caller {
        SessionSource::SubAgent(_) => false,
        _ => true,
    };
    let to_own_verifier = match target {
        Some(
            SessionSource::SubAgent(
                SubAgentSource::ThreadSpawn { parent_thread_id, agent_type, .. },
            ),
        ) => match agent_type {
            Some(SpawnedAgentType::Verifier) => *parent_thread_id == conversation_id,
            _ => false,
        },
        _ => false,
    };
    let total: usize = recent_user_inputs.len();
    if !from_root || !to_own_verifier || total == 0 {
        return content.to_string();
    }
    let ghost inputs = texts(recent_user_inputs@);
    let mut quoted: Vec<String> = Vec::new();
    let mut i: usize = 0;
    while i < total
        invariant
            total == recent_user_inputs@.len(),
            inputs == texts(recent_user_inputs@),
            i <= total,
            texts(quoted@) == quoted_inputs(inputs).take(i as int),
        decreases total - i,
    {
        let ordinal: usize = i + 1;
        let mut line = "- User input ".to_string();
        line.append(decimal_of_usize(ordinal).as_str());
        if ordinal == total {
            line.append(" (latest)");
        } else {
            assert(line@ =~= line@ + Seq::<char>::empty());
        }
        line.append(":\n");
        line.append(recent_user_inputs[i].as_str());
        let ghost before = texts(quoted@);
        assert(line@ =~= quoted_inputs(inputs)[i as int]);
        quoted.push(line);
        i = i + 1;
        assert(texts(quoted@) =~= before.push(line@));
        assert(quoted_inputs(inputs).take(i as int) =~= quoted_inputs(inputs).take(i - 1).push(
            quoted_inputs(inputs)[i - 1],
        ));
    }
    assert(quoted_inputs(inputs).take(total as int) =~= quoted_inputs(inputs));
    let mut out = trim_end_str(content).to_string();
    out.append(
        "\n\nPlease also consider the following recent real human user inputs from the main agent session. These are preserved verbatim in chronological order and may conflict; use the ordering to resolve that context.\n\n",
    );
    out.append(join(&quoted, "\n\n").as_str());
    out
}

/// A marked span of a text input.
#[derive(Debug, Clone, PartialEq, Eq)]
pub struct TextElement {
    pub start: usize,
    pub end: usize,
}

/// What is put before an agent.
#[derive(Debug, Clone, PartialEq, Eq)]
pub enum UserInput {
    Text { text: String, text_elements: Vec<TextElement> },
    Image { image_url: String },
    LocalImage { path: String },
    Skill { name: String, path: String },
    Mention { name: String, path: String },
    Other,
}

/// How the receiver of a call is to reply.
pub open spec fn reply_instruction(sender: Seq<char>, message_id: Seq<char>) -> Seq<char> {
    "\n\nWhen finished, send your result back using `call` with:\n- target_agent_name: \""@ + sender
        + "\"\n- message_id: <a new id for your reply>\n- reply_to_message_id: \""@ + message_id
        + "\"\n- content: <your final result>.\n\nIf you delegate further using `call`, keep using new message_id values and set reply_to_message_id to the relevant original message_id you are replying to."@
}

/// The text of a call: who calls, what it replies to, its id, and the content.
/// Where a reply is asked for, how to give it is added, unless the content
/// already speaks of message ids.
pub open spec fn call_text(
    sender: Seq<char>,
    message_id: Seq<char>,
    reply_to: Option<Seq<char>>,
    content: Seq<char>,
    need_reply: bool,
) -> Seq<char> {
    let body = trim_end(content);
    "call from ["@ + sender + "],reply_to["@ + (match reply_to {
        Some(id) => id,
        None => "none"@,
    }) + "],message_id["@ + message_id + "]\n\n"@ + (if need_reply && !has_text(
        body,
        "reply_to_message_id"@,
    ) && !has_text(body, "message_id"@) {
        body + reply_instruction(sender, message_id)
    } else {
        body
    })
}

/// The input that a call puts before its target.
pub fn build_call_message(
    sender_agent_name: &str,
    message_id: &str,
    reply_to_message_id: Option<&str>,
    content: &str,
    need_reply: bool,
) -> (r: Vec<UserInput>)
    ensures
        r@.len() == 1,
        r@[0] matches UserInput::Text { text, text_elements } && text@ == call_text(
            sender_agent_name@,
            message_id@,
            opt_str(reply_to_message_id),
            content@,
            need_reply,
        ) && text_elements@.len() == 0,
{
    let mut body = trim_end_str(content).to_string();
    if need_reply {
        if !contains_text(body.as_str(), "reply_to_message_id") && !contains_text(
            body.as_str(),
            "message_id",
        ) {
            let mut suffix =
                "\n\nWhen finished, send your result back using `call` with:\n- target_agent_name: \"".to_string();
            suffix.append(sender_agent_name);
            suffix.append(
                "\"\n- message_id: <a new id for your reply>\n- reply_to_message_id: \"",
            );
            suffix.append(message_id);
            suffix.append(
                "\"\n- content: <your final result>.\n\nIf you delegate further using `call`, keep using new message_id values and set reply_to_message_id to the relevant original message_id you are replying to.",
            );
            body.append(suffix.as_str());
        }
    }
    let mut text = "call from [".to_string();
    text.append(sender_agent_name);
    text.append("],reply_to[");
    text.append(
        match reply_to_message_id {
            Some(id) => id,
            None => "none",
        },
    );
    text.append("],message_id[");
    text.append(message_id);
    text.append("]\n\n");
    text.append(body.as_str());
    let mut out: Vec<UserInput> = Vec::new();
    out.push(UserInput::Text { text, text_elements: Vec::new() });
    out
}

/// How one input is shown in a preview.
pub open spec fn shown_input(i: UserInput) -> Seq<char> {
    match i {
        UserInput::Text { text, .. } => text@,
        UserInput::Image { .. } => "[image]"@,
        UserInput::LocalImage { path } => "[local_image:"@ + path@ + "]"@,
        UserInput::Skill { name, path } => "[skill:$"@ + name@ + "]("@ + path@ + ")"@,
        UserInput::Mention { name, path } => "[mention:$"@ + name@ + "]("@ + path@ + ")"@,
        UserInput::Other => "[input]"@,
    }
}

fn show_input(i: &UserInput) -> (r: String)
    ensures
        r@ == shown_input(*i),
{
    match i {
        UserInput::Text { text, .. } => text.clone(),
        UserInput::Image { .. } => "[image]".to_string(),
        UserInput::LocalImage { path } => {
            let mut out = "[local_image:".to_string();
            out.append(path.as_str());
            out.append("]");
            out
        },
        UserInput::Skill { name, path } => {
            let mut out = "[skill:$".to_string();
            out.append(name.as_str());
            out.append("](");
            out.append(path.as_str());
            out.append(")");
            out
        },
        UserInput::Mention { name, path } => {
            let mut out = "[mention:$".to_string();
            out.append(name.as_str());
            out.append("](");
            out.append(path.as_str());
            out.append(")");
            out
        },
        UserInput::Other => "[input]".to_string(),
    }
}

/// The preview of a list of inputs, one to a line.
pub fn input_preview(items: &Vec<UserInput>) -> (r: String)
    ensures
        r@ == joined(items@.map_values(|i: UserInput| shown_input(i)), "\n"@),
{
    let mut parts: Vec<String> = Vec::new();
    let mut i: usize = 0;
    let ghost all = items@.map_values(|i: UserInput| shown_input(i));
    while i < items.len()
        invariant
            i <= items@.len(),
            all == items@.map_values(|i: UserInput| shown_input(i)),
            texts(parts@) == all.take(i as int),
        decreases items@.len() - i,
    {
        let ghost before = texts(parts@);
        let part = show_input(&items[i]);
        parts.push(part);
        i = i + 1;
        assert(texts(parts@) =~= before.push(part@));
        assert(all.take(i as int) =~= all.take(i - 1).push(all[i - 1]));
    }
    assert(all.take(i as int) =~= all);
    join(&parts, "\n")
}

// ---------------------------------------------------------------------------
// What a call leaves behind
// ---------------------------------------------------------------------------

/// The inboxes after a reply to `reply_to`, if any, was given from the inbox
/// `from` to the inbox `to`.
pub open spec fn discharged(
    m: Map<Seq<char>, InboxView>,
    from: Seq<char>,
    to: Seq<char>,
    reply_to: Option<Seq<char>>,
) -> Map<Seq<char>, InboxView> {
    match reply_to {
        Some(id) => if owes_reply(m, from, to, id) {
            with_obligation(m, from, id, fulfilled(obligation(m, from, id)))
        } else {
            with_inbox(m, from)
        },
        None => m,
    }
}

/// The inboxes after a call went out. In a swarm, a call that asks for a reply
/// obliges its target, and one that is a reply discharges the caller; the message
/// is always left in the target's inbox.
pub open spec fn call_recorded(
    before: Map<Seq<char>, InboxView>,
    obliged: Map<Seq<char>, InboxView>,
    after: Map<Seq<char>, InboxView>,
    inbox: Seq<char>,
    conversation: ThreadId,
    sender: Seq<char>,
    args: CallArgs,
    content: Seq<char>,
    swarm: bool,
    message: InboxMessage,
) -> bool {
    let settled = if swarm {
        discharged(obliged, thread_text(conversation), inbox, opt_text(args.reply_to_message_id))
    } else {
        obliged
    };
    &&& if swarm && args.need_reply {
        registered(
            before,
            obliged,
            inbox,
            thread_text(conversation),
            sender,
            conversation,
            args.message_id@,
            content,
        )
    } else {
        obliged == before
    }
    &&& message.seq == next_number(inbox_of(settled, inbox).next_seq)
    &&& message.sender_agent_name@ == sender
    &&& message.message_id@ == args.message_id@
    &&& message.need_reply == args.need_reply
    &&& opt_text(message.reply_to_message_id) == opt_text(args.reply_to_message_id)
    &&& message.content@ == content
    &&& after == settled.insert(inbox, delivered(inbox_of(settled, inbox), message))
}

/// Records a call that went out.
pub fn record_call(
    inboxes: &mut InboxRuntime,
    target_inbox_id: &str,
    conversation_id: ThreadId,
    sender_agent_name: &str,
    args: &CallArgs,
    content: &str,
    swarm: bool,
)
    ensures
        exists|obliged: Map<Seq<char>, InboxView>, message: InboxMessage| #[trigger]
            call_recorded(
                old(inboxes)@,
                obliged,
                final(inboxes)@,
                target_inbox_id@,
                conversation_id,
                sender_agent_name@,
                *args,
                content@,
                swarm,
                message,
            ),
{
    let ghost before = inboxes@;
    if swarm && args.need_reply {
        inboxes.register_required_reply_logical(
            target_inbox_id,
            sender_agent_name.to_string(),
            conversation_id,
            args.message_id.clone(),
            content.to_string(),
        );
    }
    let ghost obliged = inboxes@;
    if swarm {
        if let Some(id) = &args.reply_to_message_id {
            inboxes.resolve_required_reply_logical_from_source_id(
                conversation_id.to_text().as_str(),
                target_inbox_id,
                id.as_str(),
            );
        }
    }
    let ghost settled = inboxes@;
    let sender = sender_agent_name.to_string();
    let message_id = args.message_id.clone();
    let reply_to_message_id = match &args.reply_to_message_id {
        Some(id) => Some(id.clone()),
        None => None,
    };
    let body = content.to_string();
    let seq: u64 = inboxes.append_logical_message(
        target_inbox_id,
        sender,
        message_id,
        args.need_reply,
        reply_to_message_id,
        body,
    );
    let ghost message = InboxMessage {
        seq,
        sender_agent_name: sender,
        message_id,
        need_reply: args.need_reply,
        reply_to_message_id,
        content: body,
    };
    assert(call_recorded(
        before,
        obliged,
        inboxes@,
        target_inbox_id@,
        conversation_id,
        sender_agent_name@,
        *args,
        content@,
        swarm,
        message,
    ));
}

// ---------------------------------------------------------------------------
// Laws
// ---------------------------------------------------------------------------

/// Reading a text again never makes it look more damaged.
pub proof fn law_repair_never_worsens(content: Seq<char>)
    ensures
        !score_less(repair_score(content), repair_score(repaired(content))),
{
    lemma_best_reading_not_worse(content, 5);
}

proof fn lemma_best_reading_not_worse(content: Seq<char>, n: nat)
    ensures
        !score_less(repair_score(content), repair_score(best_reading(content, n))),
    decreases n,
{
    if n > 0 {
        lemma_best_reading_not_worse(content, (n - 1) as nat);
    }
}

/// A text that shows no sign of damage is left as it is.
pub proof fn law_clean_text_is_kept(content: Seq<char>)
    requires
        repair_score(content) == (0nat, 0nat, 0nat),
    ensures
        repaired(content) == content,
{
    lemma_clean_kept(content, 5);
}

proof fn lemma_clean_kept(content: Seq<char>, n: nat)
    requires
        repair_score(content) == (0nat, 0nat, 0nat),
    ensures
        best_reading(content, n) == content,
    decreases n,
{
    if n > 0 {
        lemma_clean_kept(content, (n - 1) as nat);
    }
}

/// A call in a swarm that asks for a reply leaves its target owing one, and a
/// second call under the same id is then refused.
pub proof fn law_call_obliges_target(
    before: Map<Seq<char>, InboxView>,
    obliged: Map<Seq<char>, InboxView>,
    after: Map<Seq<char>, InboxView>,
    inbox: Seq<char>,
    conversation: ThreadId,
    sender: Seq<char>,
    args: CallArgs,
    content: Seq<char>,
    message: InboxMessage,
)
    requires
        call_recorded(
            before,
            obliged,
            after,
            inbox,
            conversation,
            sender,
            args,
            content,
            true,
            message,
        ),
        args.need_reply,
        args.reply_to_message_id is None,
        !inbox_of(before, inbox).obligations.contains_key(args.message_id@),
    ensures
        in_flight(after, inbox, args.message_id@),
{
}

/// Outside a swarm a call changes no obligation.
pub proof fn law_plain_call_changes_no_obligation(
    before: Map<Seq<char>, InboxView>,
    obliged: Map<Seq<char>, InboxView>,
    after: Map<Seq<char>, InboxView>,
    inbox: Seq<char>,
    conversation: ThreadId,
    sender: Seq<char>,
    args: CallArgs,
    content: Seq<char>,
    message: InboxMessage,
    other: Seq<char>,
    id: Seq<char>,
)
    requires
        call_recorded(
            before,
            obliged,
            after,
            inbox,
            conversation,
            sender,
            args,
            content,
            false,
            message,
        ),
    ensures
        has_obligation(after, other, id) == has_obligation(before, other, id),
        has_obligation(before, other, id) ==> obligation(after, other, id) == obligation(
            before,
            other,
            id,
        ),
{
}

/// Whether a field is a message id, and which: a text, or a number as it is printed.
pub open spec fn is_message_id(f: Option<FieldModel>, id: Seq<char>) -> bool {
    f == Some(FieldModel::Text(id)) || f == Some(FieldModel::Number(id))
}

/// A call has its target, its message id and what it replies to just as they are
/// given; it replies to nothing only where nothing is given. It asks for a reply just
/// where that is said.
pub proof fn law_calls_say_what_was_given(a: CallArgs, s: Seq<(Seq<char>, FieldModel)>)
    requires
        call_args_are(a, s),
    ensures
        field_named(s, "target_id"@) is Some ==> field_named(s, "target_id"@) == Some(
            FieldModel::Text(a.target_id@),
        ),
        field_named(s, "target_id"@) is None ==> field_named(s, "target_agent_name"@) == Some(
            FieldModel::Text(a.target_id@),
        ),
        is_message_id(field_named(s, "message_id"@), a.message_id@),
        a.reply_to_message_id matches Some(id) ==> is_message_id(
            field_named(s, "reply_to_message_id"@),
            id@,
        ),
        a.reply_to_message_id is None <==> field_named(s, "reply_to_message_id"@) is None
            || field_named(s, "reply_to_message_id"@) == Some(FieldModel::Null),
        a.need_reply <==> field_named(s, "need_reply"@) == Some(FieldModel::Bool(true)),
        field_named(s, "content"@) matches Some(FieldModel::Text(c)) ==> (forall|i: int|
            0 <= i < c.len() ==> #[trigger] c[i] < '\u{80}' && c[i] != '?') ==> a.content@ == c,
{
    if let Some(FieldModel::Text(c)) = field_named(s, "content"@) {
        if forall|i: int| 0 <= i < c.len() ==> #[trigger] c[i] < '\u{80}' && c[i] != '?' {
            lemma_none_counted(c, |c: char| is_lossy_marker(c));
            lemma_none_counted(c, |c: char| is_c1_control(c));
            lemma_none_counted(c, |c: char| is_mojibake_hint(c));
            law_clean_text_is_kept(c);
        }
    }
}

proof fn lemma_none_counted(s: Seq<char>, p: spec_fn(char) -> bool)
    requires
        forall|i: int| 0 <= i < s.len() ==> !p(#[trigger] s[i]),
    ensures
        count(s, p) == 0,
    decreases s.len(),
{
    reveal(Seq::filter);
    if s.len() > 0 {
        let front = s.drop_last();
        assert forall|i: int| 0 <= i < front.len() implies !p(#[trigger] front[i]) by {
            assert(front[i] == s[i]);
        }
        lemma_none_counted(front, p);
        assert(!p(s[s.len() - 1]));
    }
}

/// The arguments of a call can be read just where they are an object that names a
/// target, a content and a message id, and has none of the fields that belong to
/// other tools; what it replies to is an id, if it is given.
pub proof fn law_what_calls_are_read(d: Option<Seq<(Seq<char>, FieldModel)>>)
    ensures
        call_fault(d) is None <==> {
            &&& d matches Some(s)
            &&& field_named(s, "status_control"@) is None
            &&& field_named(s, "timeout_ms"@) is None
            &&& field_named(s, "context_data"@) is None
            &&& if field_named(s, "target_id"@) is Some {
                field_named(s, "target_id"@)->0 is Text
            } else {
                field_named(s, "target_agent_name"@) is Some && field_named(
                    s,
                    "target_agent_name"@,
                )->0 is Text
            }
            &&& field_named(s, "content"@) is Some && field_named(s, "content"@)->0 is Text
            &&& field_named(s, "message_id"@) is Some && (field_named(s, "message_id"@)->0 is Text
                || field_named(s, "message_id"@)->0 is Number)
            &&& field_named(s, "reply_to_message_id"@) matches Some(f) ==> f is Null || f is Text
                || f is Number
        },
{
}

/// A call goes out just where its target, its content, its message id and what it
/// replies to are not blank, and the content is no longer than 32768 characters.
pub proof fn law_what_calls_go_out(a: CallArgs)
    ensures
        argument_fault(a) is None <==> !blank(a.target_id@) && !blank(a.content@)
            && a.content@.len() <= 32768 && !blank(a.message_id@) && (a.reply_to_message_id is Some
            ==> !blank(a.reply_to_message_id->0@)),
{
}

/// Text that was decoded wrongly is read the best way that there is: it stays, or is
/// read through one of five encodings, and no other of these readings looks less
/// damaged.
pub proof fn law_repair_takes_the_best_reading(content: Seq<char>, e: RetryEncoding)
    ensures
        repaired(content) == content || exists|f: RetryEncoding|
            #[trigger] transcoded(f, content) == Some(repaired(content)),
        transcoded(e, content) matches Some(x) ==> !score_less(
            repair_score(x),
            repair_score(repaired(content)),
        ),
{
    lemma_best_of(content, 5);
    let k: int = match e {
        RetryEncoding::Gbk => 0,
        RetryEncoding::Big5 => 1,
        RetryEncoding::ShiftJis => 2,
        RetryEncoding::EucKr => 3,
        RetryEncoding::Windows1252 => 4,
    };
    assert(retry_order()[k] == e);
}

proof fn lemma_best_of(content: Seq<char>, n: nat)
    requires
        n <= 5,
    ensures
        best_reading(content, n) == content || exists|f: RetryEncoding|
            #[trigger] transcoded(f, content) == Some(best_reading(content, n)),
        forall|k: int|
            0 <= k < n ==> (transcoded(#[trigger] retry_order()[k], content) matches Some(x)
                ==> !score_less(repair_score(x), repair_score(best_reading(content, n)))),
    decreases n,
{
    if n > 0 {
        lemma_best_of(content, (n - 1) as nat);
        let best = best_reading(content, n);
        let before = best_reading(content, (n - 1) as nat);
        assert(!score_less(repair_score(before), repair_score(best)));
    }
}

/// The marks of damage are counted one by one: question marks and replacement
/// characters weigh most, then control characters, then the letters that are left of
/// Latin and Cyrillic texts, and of Chinese ones.
pub proof fn law_damage_is_counted(s: Seq<char>, c: char)
    ensures
        repair_score(Seq::empty()) == (0nat, 0nat, 0nat),
        repair_score(s.push(c)).0 == repair_score(s).0 + (if c == '?' || c == '\u{FFFD}' {
            1nat
        } else {
            0
        }),
        repair_score(s.push(c)).1 == repair_score(s).1 + (if '\u{80}' <= c && c <= '\u{9F}' {
            1nat
        } else {
            0
        }),
        repair_score(s.push(c)).2 == repair_score(s).2 + (if c == '\u{C2}' || c == '\u{C3}' || c
            == '\u{D0}' || c == '\u{D1}' || c == '\u{E2}' || c == '\u{E5}' || c == '\u{E6}' {
            1nat
        } else {
            0
        }),
{
    reveal(Seq::filter);
    assert(s.push(c).drop_last() =~= s);
    let none = Seq::<char>::empty();
    lemma_none_counted(none, |c: char| is_lossy_marker(c));
    lemma_none_counted(none, |c: char| is_c1_control(c));
    lemma_none_counted(none, |c: char| is_mojibake_hint(c));
}

/// A call to an agent that runs waits for the turn to end, one to an agent that is
/// gone is not sent, and any other starts a turn.
pub proof fn law_calls_reach_those_who_live(status: AgentStatus)
    ensures
        status is Running ==> dispatch_mode(status) == Some(CallDispatchMode::QueueInRunningTurn),
        status is Shutdown || status is NotFound ==> dispatch_mode(status) is None,
        status is PendingInit || status is Interrupted || status is Completed || status is Errored
            ==> dispatch_mode(status) == Some(CallDispatchMode::StartNewTurn),
{
}

/// A call goes to the agent of that name, or else to the thread of that identity, or
/// else to the inbox under that id. It is refused where nobody has a name with a
/// hyphen, as those of agents are, and, in a swarm, where a reply to this message is
/// still owed there. Planning it changes nothing that is owed or waits to be read.
pub proof fn law_calls_go_where_they_are_addressed(
    r: Result<CallPlan, FunctionCallError>,
    m: Map<Seq<char>, InboxView>,
    m_after: Map<Seq<char>, InboxView>,
    names: AgentNames,
    args: CallArgs,
    swarm: bool,
)
    requires
        plans_call(r, m, m_after, names, args, swarm),
    ensures
        ({
            let target = args.target_id@;
            let thread: Option<ThreadId> = if names.thread_of(target) is Some {
                names.thread_of(target)
            } else {
                thread_named(target)
            };
            let inbox: Seq<char> = if thread is Some {
                thread_text(thread->0)
            } else {
                target
            };
            &&& r is Err <==> (thread is None && target.contains('-')) || (swarm
                && has_obligation(m, inbox, args.message_id@) && !obligation(
                m,
                inbox,
                args.message_id@,
            ).resolved)
            &&& r matches Ok(plan) ==> plan.target_inbox_id@ == inbox && match thread {
                Some(t) => plan.target == ResolvedCallTarget::Agent(t),
                None => plan.target is Logical,
            }
            &&& forall|x: Seq<char>| (#[trigger] inbox_of(m_after, x)) == inbox_of(m, x)
        }),
{
}

/// The line that the text of a call begins with.
pub open spec fn call_head(
    sender: Seq<char>,
    message_id: Seq<char>,
    reply_to: Option<Seq<char>>,
) -> Seq<char> {
    "call from ["@ + sender + "],reply_to["@ + (if reply_to is Some {
        reply_to->0
    } else {
        "none"@
    }) + "],message_id["@ + message_id + "]\n\n"@
}

/// The text of a call says who calls, what it replies to, under which id, and all of
/// the content. Where no reply is asked for there is nothing else; where one is, and
/// the content does not say it, the text says whom to reply to and with which id.
pub proof fn law_call_text_says_all(
    sender: Seq<char>,
    message_id: Seq<char>,
    reply_to: Option<Seq<char>>,
    content: Seq<char>,
    need_reply: bool,
)
    ensures
        ({
            let head = call_head(sender, message_id, reply_to);
            let text = call_text(sender, message_id, reply_to, content, need_reply);
            &&& text.len() >= head.len() + trim_end(content).len()
            &&& text.take(head.len() as int) == head
            &&& text.skip(head.len() as int).take(trim_end(content).len() as int) == trim_end(content)
            &&& !need_reply ==> text.skip(head.len() as int) == trim_end(content)
        }),
        need_reply && !has_text(trim_end(content), "message_id"@) && !has_text(
            trim_end(content),
            "reply_to_message_id"@,
        ) ==> exists|i: int, j: int|
            call_head(sender, message_id, reply_to).len() + trim_end(content).len() <= i < j
                && #[trigger] occurs_at(
                call_text(sender, message_id, reply_to, content, need_reply),
                sender,
                i,
            ) && #[trigger] occurs_at(
                call_text(sender, message_id, reply_to, content, need_reply),
                message_id,
                j,
            ),
{
    let head = call_head(sender, message_id, reply_to);
    let text = call_text(sender, message_id, reply_to, content, need_reply);
    let said = trim_end(content);
    let body = text.skip(head.len() as int);
    let rest = if need_reply && !has_text(said, "reply_to_message_id"@) && !has_text(
        said,
        "message_id"@,
    ) {
        said + reply_instruction(sender, message_id)
    } else {
        said
    };
    assert(text =~= head + rest);
    assert(text.take(head.len() as int) =~= head);
    assert(body =~= rest);
    assert(body.take(said.len() as int) =~= said);
    if need_reply && !has_text(said, "message_id"@) && !has_text(said, "reply_to_message_id"@) {
        let a =
            "\n\nWhen finished, send your result back using `call` with:\n- target_agent_name: \""@;
        let b = "\"\n- message_id: <a new id for your reply>\n- reply_to_message_id: \""@;
        let i = (head.len() + said.len() + a.len()) as int;
        let j = (i + sender.len() + b.len()) as int;
        reveal_strlit("\"\n- message_id: <a new id for your reply>\n- reply_to_message_id: \"");
        assert(text.subrange(i, i + sender.len()) =~= sender);
        assert(text.subrange(j, j + message_id.len()) =~= message_id);
        assert(occurs_at(text, sender, i));
        assert(occurs_at(text, message_id, j));
    }
}

/// Only a verifier that the caller has spawned is told what the user said; everybody
/// else gets the content as it is. The verifier gets it too, and behind it every
/// input, the latest last.
pub proof fn law_verifiers_hear_the_user(
    caller: SessionSource,
    target: Option<SessionSource>,
    conversation: ThreadId,
    inputs: Seq<Seq<char>>,
    content: Seq<char>,
)
    ensures
        ({
            let told = augmented(caller, target, conversation, inputs, content);
            let to_verifier = target matches Some(
                SessionSource::SubAgent(
                    SubAgentSource::ThreadSpawn {
                        parent_thread_id,
                        agent_type: Some(SpawnedAgentType::Verifier),
                        ..
                    },
                ),
            ) && parent_thread_id == conversation;
            &&& caller is SubAgent || !to_verifier || inputs.len() == 0 ==> told == content
            &&& !(caller is SubAgent) && to_verifier && inputs.len() > 0 ==> {
                &&& told.len() > trim_end(content).len()
                &&& told.take(trim_end(content).len() as int) == trim_end(content)
                &&& told.len() >= inputs.last().len()
                &&& told.skip(told.len() - inputs.last().len()) == inputs.last()
            }
        }),
{
    let told = augmented(caller, target, conversation, inputs, content);
    let said = trim_end(content);
    if !(caller is SubAgent) && (target matches Some(t) && is_own_verifier(t, conversation))
        && inputs.len() > 0 {
        let lead =
            "\n\nPlease also consider the following recent real human user inputs from the main agent session. These are preserved verbatim in chronological order and may conflict; use the ordering to resolve that context.\n\n"@;
        reveal_strlit(
            "\n\nPlease also consider the following recent real human user inputs from the main agent session. These are preserved verbatim in chronological order and may conflict; use the ordering to resolve that context.\n\n",
        );
        assert(lead.len() > 0);
        let all = quoted_inputs(inputs);
        let list = joined(all, "\n\n"@);
        assert(told =~= said + lead + list);
        assert(told.take(said.len() as int) =~= said);
        let last = all.last();
        let n = inputs.last().len();
        assert(list.skip(list.len() - last.len()) =~= last);
        assert(last.skip(last.len() - n) =~= inputs.last());
        assert(told.skip(told.len() - n) =~= last.skip(last.len() - n));
    }
}

/// A call that went out lies in the inbox of its target, behind all that were there,
/// with who sent it, its id, what it replies to and its content. In a swarm, a reply
/// that the caller owed to the target is given by it.
pub proof fn law_calls_arrive(
    before: Map<Seq<char>, InboxView>,
    obliged: Map<Seq<char>, InboxView>,
    after: Map<Seq<char>, InboxView>,
    inbox: Seq<char>,
    conversation: ThreadId,
    sender: Seq<char>,
    args: CallArgs,
    content: Seq<char>,
    swarm: bool,
    message: InboxMessage,
)
    requires
        call_recorded(
            before,
            obliged,
            after,
            inbox,
            conversation,
            sender,
            args,
            content,
            swarm,
            message,
        ),
    ensures
        inbox_of(after, inbox).messages.len() > 0,
        inbox_of(after, inbox).messages.last() == message,
        inbox_of(before, inbox).messages.len() < 2048 ==> inbox_of(after, inbox).messages
            == inbox_of(before, inbox).messages.push(message),
        message.sender_agent_name@ == sender,
        message.message_id@ == args.message_id@,
        message.content@ == content,
        message.need_reply == args.need_reply,
        opt_text(message.reply_to_message_id) == opt_text(args.reply_to_message_id),
        swarm && (args.reply_to_message_id matches Some(id) && has_obligation(
            before,
            thread_text(conversation),
            id@,
        ) && trim(obligation(before, thread_text(conversation), id@).source_inbox_id@) == inbox)
            ==> obligation(after, thread_text(conversation), args.reply_to_message_id->0@).resolved,
        forall|x: Seq<char>|
            x != inbox ==> (#[trigger] inbox_of(after, x)).messages == inbox_of(before, x).messages,
{
    let settled = if swarm {
        discharged(obliged, thread_text(conversation), inbox, opt_text(args.reply_to_message_id))
    } else {
        obliged
    };
    assert(inbox_of(obliged, inbox).messages == inbox_of(before, inbox).messages);
    assert(inbox_of(settled, inbox).messages == inbox_of(before, inbox).messages);
    let all = inbox_of(before, inbox).messages.push(message);
    assert(all.last() == message);
    assert forall|x: Seq<char>| x != inbox implies (#[trigger] inbox_of(after, x)).messages
        == inbox_of(before, x).messages by {
        assert(inbox_of(obliged, x).messages == inbox_of(before, x).messages);
        assert(inbox_of(settled, x).messages == inbox_of(obliged, x).messages);
    }
}

/// A call goes on to anybody but its caller, and its caller is told whether it did; a
/// failure names the agent that was not found or is gone.
pub proof fn law_callers_are_told_how_calls_went(
    caller: ThreadId,
    target: ThreadId,
    r: FunctionOutput,
    success: bool,
    agent_name: Seq<char>,
)
    requires
        is_call_output(r, success),
    ensures
        goes_on(caller, target) <==> caller.value != target.value,
        r.success == Some(success),
        success ==> r.text@ == "call dispatched successfully; continue without waiting"@,
        !success ==> r.text@ == "call failed; continue without waiting"@,
        failure_details(agent_name, SendFailure::ThreadNotFound) == "agent name not found: "@
            + agent_name,
        failure_details(agent_name, SendFailure::InternalAgentDied) == "agent `"@ + agent_name
            + "` is closed"@,
{
}

/// A caller goes by the name that they have. Without one, a sub-agent cannot call, and
/// any other is the first agent.
pub proof fn law_callers_go_by_their_name(
    r: Result<SenderName, FunctionCallError>,
    names: AgentNames,
    conversation: ThreadId,
    source: SessionSource,
)
    requires
        names_caller(r, names, conversation, source),
    ensures
        r is Err <==> names.name_of(conversation) is None && source is SubAgent,
        names.name_of(conversation) matches Some(name) ==> (r matches Ok(SenderName::Known(n))
            && n@ == name),
        names.name_of(conversation) is None && !(source is SubAgent) ==> (r matches Ok(
            SenderName::RegisterPrimary,
        )),
{
}

} // verus!
