//! The answers of chat providers as events of a conversation: a whole answer, or
//! one that comes in chunks.
use crate::chat_history::{
    call_models, message_models, CallModel, ChatMessage, ChatToolCall, ChatToolCallFunction,
    MessageModel,
};
use crate::provider_adapter::{
    or_empty, unsupported, ContentItem, ContentModel, ItemModel, ProviderError, ResponseItem,
};
use crate::text::{chars_of, opt_text, same_text};
use vstd::prelude::*;

verus! {

#[derive(Clone, Copy, Debug, PartialEq, Eq, Structural)]
pub struct TokenUsage {
    pub input_tokens: i64,
    pub cached_input_tokens: i64,
    pub output_tokens: i64,
    pub reasoning_output_tokens: i64,
    pub total_tokens: i64,
}

/// What a chat provider says it used.
#[derive(Clone, Copy, Debug, PartialEq, Eq, Structural)]
pub struct ChatCompletionUsage {
    pub prompt_tokens: i64,
    pub completion_tokens: i64,
    pub total_tokens: i64,
}

pub open spec fn usage_of(u: ChatCompletionUsage) -> TokenUsage {
    TokenUsage {
        input_tokens: u.prompt_tokens,
        cached_input_tokens: 0,
        output_tokens: u.completion_tokens,
        reasoning_output_tokens: 0,
        total_tokens: u.total_tokens,
    }
}

impl ChatCompletionUsage {
    pub fn token_usage(self) -> (r: TokenUsage)
        ensures
            r == usage_of(self),
    {
        TokenUsage {
            input_tokens: self.prompt_tokens,
            cached_input_tokens: 0,
            output_tokens: self.completion_tokens,
            reasoning_output_tokens: 0,
            total_tokens: self.total_tokens,
        }
    }
}

/// What happens in a conversation.
#[derive(Clone, Debug, PartialEq, Eq)]
pub enum ResponseEvent {
    OutputItemAdded(ResponseItem),
    OutputItemDone(ResponseItem),
    OutputTextDelta(String),
    Completed { response_id: String, token_usage: Option<TokenUsage>, can_append: bool },
}

#[verifier::ext_equal]
pub enum EventModel {
    Added(ItemModel),
    Done(ItemModel),
    Delta(Seq<char>),
    Completed { response_id: Seq<char>, token_usage: Option<TokenUsage>, can_append: bool },
}

impl View for ResponseEvent {
    type V = EventModel;

    open spec fn view(&self) -> EventModel {
        match *self {
            ResponseEvent::OutputItemAdded(i) => EventModel::Added(i@),
            ResponseEvent::OutputItemDone(i) => EventModel::Done(i@),
            ResponseEvent::OutputTextDelta(t) => EventModel::Delta(t@),
            ResponseEvent::Completed { response_id, token_usage, can_append } => EventModel::Completed {
                response_id: response_id@,
                token_usage,
                can_append,
            },
        }
    }
}

pub open spec fn event_models(v: Seq<ResponseEvent>) -> Seq<EventModel> {
    v.map_values(|e: ResponseEvent| e@)
}

/// Whether these are the events, or the error.
pub open spec fn gives(
    r: Result<Vec<ResponseEvent>, ProviderError>,
    x: Result<Seq<EventModel>, Seq<char>>,
) -> bool {
    match (r, x) {
        (Ok(v), Ok(events)) => event_models(v@) == events,
        (Err(e), Err(t)) => e.text() == t,
        _ => false,
    }
}

// ---------------------------------------------------------------------------
// What the events of an answer are
// ---------------------------------------------------------------------------

/// A message with this text; none for the start of one.
pub open spec fn message_item(role: Seq<char>, text: Option<Seq<char>>) -> ItemModel {
    ItemModel::Message {
        id: None,
        role,
        content: match text {
            Some(t) => seq![ContentModel::OutputText(t)],
            None => Seq::empty(),
        },
        end_turn: None,
        phase: None,
    }
}

pub open spec fn call_item(c: CallModel) -> ItemModel {
    ItemModel::FunctionCall { id: None, name: c.name, arguments: c.arguments, call_id: c.id }
}

pub open spec fn kind_text(kind: Seq<char>) -> Seq<char> {
    "unsupported chat tool call type '"@ + kind + "'"@
}

pub open spec fn is_function(kind: Seq<char>, lenient: bool) -> bool {
    kind == "function"@ || (lenient && kind.len() == 0)
}

/// The events of calls, or that one calls no function. Lenient: no kind is one.
pub open spec fn call_events(calls: Seq<CallModel>, lenient: bool) -> Result<
    Seq<EventModel>,
    Seq<char>,
>
    decreases calls.len(),
{
    if calls.len() == 0 {
        Ok(Seq::empty())
    } else {
        match call_events(calls.drop_last(), lenient) {
            Err(e) => Err(e),
            Ok(done) => if is_function(calls.last().kind, lenient) {
                Ok(done.push(EventModel::Done(call_item(calls.last()))))
            } else {
                Err(kind_text(calls.last().kind))
            },
        }
    }
}

/// The event of a text, if there is any.
pub open spec fn text_events(role: Seq<char>, text: Seq<char>) -> Seq<EventModel> {
    if text.len() == 0 {
        Seq::empty()
    } else {
        seq![EventModel::Done(message_item(role, Some(text)))]
    }
}

/// The events of a message: its text, then its calls.
pub open spec fn message_events(m: MessageModel) -> Result<Seq<EventModel>, Seq<char>> {
    match call_events(m.tool_calls, false) {
        Err(e) => Err(e),
        Ok(calls) => Ok(text_events(m.role, or_empty(m.content)) + calls),
    }
}

pub open spec fn messages_events(s: Seq<MessageModel>) -> Result<Seq<EventModel>, Seq<char>>
    decreases s.len(),
{
    if s.len() == 0 {
        Ok(Seq::empty())
    } else {
        match messages_events(s.drop_last()) {
            Err(e) => Err(e),
            Ok(done) => match message_events(s.last()) {
                Err(e) => Err(e),
                Ok(more) => Ok(done + more),
            },
        }
    }
}

pub open spec fn opt_usage(u: Option<ChatCompletionUsage>) -> Option<TokenUsage> {
    match u {
        Some(u) => Some(usage_of(u)),
        None => None,
    }
}

pub open spec fn completed_event(
    id: Option<Seq<char>>,
    usage: Option<ChatCompletionUsage>,
) -> EventModel {
    EventModel::Completed {
        response_id: or_empty(id),
        token_usage: opt_usage(usage),
        can_append: false,
    }
}

// ---------------------------------------------------------------------------
// A whole answer
// ---------------------------------------------------------------------------

#[derive(Clone, Debug, PartialEq, Eq)]
pub struct ChatCompletionResponse {
    pub id: Option<String>,
    /// The messages of the choices.
    pub choices: Vec<ChatMessage>,
    pub usage: Option<ChatCompletionUsage>,
}

fn kind_error(kind: &str) -> (r: ProviderError)
    ensures
        r.text() == kind_text(kind@),
{
    let mut text = "unsupported chat tool call type '".to_string();
    text.append(kind);
    text.append("'");
    ProviderError::UnsupportedOperation(text)
}

fn message_done(role: &str, text: &str) -> (r: ResponseEvent)
    ensures
        r@ == EventModel::Done(message_item(role@, Some(text@))),
{
    let content: Vec<ContentItem> = vec![ContentItem::OutputText { text: text.to_string() }];
    assert(content@.map_values(|c: ContentItem| c@) =~= seq![ContentModel::OutputText(text@)]);
    ResponseEvent::OutputItemDone(
        ResponseItem::Message {
            id: None,
            role: role.to_string(),
            content,
            end_turn: None,
            phase: None,
        },
    )
}

fn message_started() -> (r: ResponseEvent)
    ensures
        r@ == EventModel::Added(message_item("assistant"@, None)),
{
    let content: Vec<ContentItem> = Vec::new();
    assert(content@.map_values(|c: ContentItem| c@) =~= Seq::<ContentModel>::empty());
    ResponseEvent::OutputItemAdded(
        ResponseItem::Message {
            id: None,
            role: "assistant".to_string(),
            content,
            end_turn: None,
            phase: None,
        },
    )
}

fn push_event(events: &mut Vec<ResponseEvent>, event: ResponseEvent)
    ensures
        event_models(final(events)@) == event_models(old(events)@).push(event@),
{
    events.push(event);
    assert(event_models(events@) =~= event_models(old(events)@).push(event@));
}

fn append_events(events: &mut Vec<ResponseEvent>, more: Vec<ResponseEvent>)
    ensures
        event_models(final(events)@) == event_models(old(events)@) + event_models(more@),
{
    let ghost before = events@;
    let ghost tail = more@;
    let mut more = more;
    events.append(&mut more);
    assert(event_models(events@) =~= event_models(before) + event_models(tail));
}

proof fn lemma_calls_stop(calls: Seq<CallModel>, n: int, lenient: bool)
    requires
        0 <= n <= calls.len(),
        call_events(calls.take(n), lenient) is Err,
    ensures
        call_events(calls, lenient) == call_events(calls.take(n), lenient),
    decreases calls.len(),
{
    if n == calls.len() {
        assert(calls.take(n) =~= calls);
    } else {
        let front = calls.drop_last();
        assert(front.take(n) =~= calls.take(n));
        lemma_calls_stop(front, n, lenient);
    }
}

/// The events of calls.
fn events_of_calls(calls: &Vec<ChatToolCall>, lenient: bool) -> (r: Result<
    Vec<ResponseEvent>,
    ProviderError,
>)
    ensures
        gives(r, call_events(call_models(calls@), lenient)),
{
    let ghost s = call_models(calls@);
    let mut events: Vec<ResponseEvent> = Vec::new();
    let mut i: usize = 0;
    proof {
        assert(s.take(0) =~= Seq::<CallModel>::empty());
        assert(event_models(events@) =~= Seq::<EventModel>::empty());
    }
    while i < calls.len()
        invariant
            i <= calls@.len(),
            s == call_models(calls@),
            call_events(s.take(i as int), lenient) == Ok::<_, Seq<char>>(event_models(events@)),
        decreases calls@.len() - i,
    {
        proof {
            assert(s.take(i + 1).drop_last() =~= s.take(i as int));
            assert(s.take(i + 1).last() == calls@[i as int]@);
        }
        let kind = calls[i].kind.as_str();
        if !same_text(kind, "function") && !(lenient && chars_of(kind).len() == 0) {
            proof {
                lemma_calls_stop(s, i + 1, lenient);
            }
            return Err(kind_error(kind));
        }
        push_event(
            &mut events,
            ResponseEvent::OutputItemDone(
                ResponseItem::FunctionCall {
                    id: None,
                    name: calls[i].function.name.clone(),
                    arguments: calls[i].function.arguments.clone(),
                    call_id: calls[i].id.clone(),
                },
            ),
        );
        i = i + 1;
    }
    assert(s.take(i as int) =~= s);
    Ok(events)
}

/// The events of a message.
pub fn chat_message_to_response_events(message: &ChatMessage) -> (r: Result<
    Vec<ResponseEvent>,
    ProviderError,
>)
    ensures
        gives(r, message_events(message@)),
{
    let mut events: Vec<ResponseEvent> = Vec::new();
    assert(event_models(events@) =~= Seq::<EventModel>::empty());
    if let Some(content) = &message.content {
        if chars_of(content.as_str()).len() > 0 {
            push_event(&mut events, message_done(message.role.as_str(), content.as_str()));
        }
    }
    assert(event_models(events@) =~= text_events(message@.role, or_empty(message@.content)));
    match events_of_calls(&message.tool_calls, false) {
        Ok(calls) => {
            append_events(&mut events, calls);
            Ok(events)
        },
        Err(e) => Err(e),
    }
}

proof fn lemma_messages_stop(s: Seq<MessageModel>, n: int)
    requires
        0 <= n <= s.len(),
        messages_events(s.take(n)) is Err,
    ensures
        messages_events(s) == messages_events(s.take(n)),
    decreases s.len(),
{
    if n == s.len() {
        assert(s.take(n) =~= s);
    } else {
        let front = s.drop_last();
        assert(front.take(n) =~= s.take(n));
        lemma_messages_stop(front, n);
    }
}

pub open spec fn answer_events(
    s: Seq<MessageModel>,
    id: Option<Seq<char>>,
    usage: Option<ChatCompletionUsage>,
) -> Result<Seq<EventModel>, Seq<char>> {
    match messages_events(s) {
        Err(e) => Err(e),
        Ok(events) => Ok(events.push(completed_event(id, usage))),
    }
}

/// The events of a whole answer: those of its messages, and that it is complete.
pub fn chat_completion_response_to_response_events(response: &ChatCompletionResponse) -> (r: Result<
    Vec<ResponseEvent>,
    ProviderError,
>)
    ensures
        gives(
            r,
            answer_events(message_models(response.choices@), opt_text(response.id), response.usage),
        ),
{
    let ghost s = message_models(response.choices@);
    let mut events: Vec<ResponseEvent> = Vec::new();
    let mut i: usize = 0;
    proof {
        assert(s.take(0) =~= Seq::<MessageModel>::empty());
        assert(event_models(events@) =~= Seq::<EventModel>::empty());
    }
    while i < response.choices.len()
        invariant
            i <= response.choices@.len(),
            s == message_models(response.choices@),
            messages_events(s.take(i as int)) == Ok::<_, Seq<char>>(event_models(events@)),
        decreases response.choices@.len() - i,
    {
        proof {
            assert(s.take(i + 1).drop_last() =~= s.take(i as int));
            assert(s.take(i + 1).last() == response.choices@[i as int]@);
        }
        match chat_message_to_response_events(&response.choices[i]) {
            Ok(more) => {
                append_events(&mut events, more);
            },
            Err(e) => {
                proof {
                    lemma_messages_stop(s, i + 1);
                }
                return Err(e);
            },
        }
        i = i + 1;
    }
    assert(s.take(i as int) =~= s);
    push_event(&mut events, completed(&response.id, response.usage));
    Ok(events)
}

fn completed(id: &Option<String>, usage: Option<ChatCompletionUsage>) -> (r: ResponseEvent)
    ensures
        r@ == completed_event(opt_text(*id), usage),
{
    let response_id = match id {
        Some(t) => t.clone(),
        None => {
            proof {
                reveal_strlit("");
                assert(""@ =~= Seq::<char>::empty());
            }
            "".to_string()
        },
    };
    let token_usage = match usage {
        Some(u) => Some(u.token_usage()),
        None => None,
    };
    ResponseEvent::Completed { response_id, token_usage, can_append: false }
}

// ---------------------------------------------------------------------------
// An answer in chunks
// ---------------------------------------------------------------------------

#[derive(Clone, Debug, PartialEq, Eq)]
pub struct ChatToolCallFunctionDelta {
    pub name: Option<String>,
    pub arguments: Option<String>,
}

/// A part of a call.
#[derive(Clone, Debug, PartialEq, Eq)]
pub struct ChatToolCallDelta {
    pub index: Option<u64>,
    pub id: Option<String>,
    pub kind: Option<String>,
    pub function: Option<ChatToolCallFunctionDelta>,
}

#[derive(Clone, Debug, PartialEq, Eq, Default)]
pub struct ChatCompletionDelta {
    pub content: Option<String>,
    pub tool_calls: Vec<ChatToolCallDelta>,
}

#[derive(Clone, Debug, PartialEq, Eq)]
pub struct ChatCompletionChunkChoice {
    pub delta: ChatCompletionDelta,
    pub finish_reason: Option<String>,
}

#[derive(Clone, Debug, PartialEq, Eq)]
pub struct ChatCompletionChunk {
    pub id: Option<String>,
    pub choices: Vec<ChatCompletionChunkChoice>,
    pub usage: Option<ChatCompletionUsage>,
}

/// What was said so far.
#[verifier::ext_equal]
pub struct StreamModel {
    pub response_id: Option<Seq<char>>,
    pub content: Seq<char>,
    pub text_item_added: bool,
    pub tool_calls: Seq<CallModel>,
    pub usage: Option<ChatCompletionUsage>,
    pub completed: bool,
}

/// What is said so far, and the events or the error of the last step.
#[verifier::ext_equal]
pub struct StreamStep {
    pub state: StreamModel,
    pub events: Result<Seq<EventModel>, Seq<char>>,
}

pub open spec fn new_call() -> CallModel {
    CallModel {
        id: Seq::empty(),
        kind: Seq::empty(),
        name: Seq::empty(),
        arguments: Seq::empty(),
    }
}

/// The place of the call that a part belongs to.
pub open spec fn call_place(calls: Seq<CallModel>, d: ChatToolCallDelta) -> int {
    match d.index {
        Some(i) => i as int,
        None => calls.len() as int,
    }
}

/// The calls, with new ones up to this place.
pub open spec fn calls_up_to(calls: Seq<CallModel>, place: int) -> Seq<CallModel>
    recommends
        place >= 0,
{
    if place < calls.len() {
        calls
    } else {
        calls + Seq::new((place + 1 - calls.len()) as nat, |i: int| new_call())
    }
}

/// A call with one more part: the id and the kind as the part says, the name and
/// the arguments continued.
pub open spec fn with_part(c: CallModel, d: ChatToolCallDelta) -> CallModel {
    CallModel {
        id: match d.id {
            Some(t) => t@,
            None => c.id,
        },
        kind: match d.kind {
            Some(t) => t@,
            None => c.kind,
        },
        name: match d.function {
            Some(f) => c.name + or_empty(opt_text(f.name)),
            None => c.name,
        },
        arguments: match d.function {
            Some(f) => c.arguments + or_empty(opt_text(f.arguments)),
            None => c.arguments,
        },
    }
}

/// Whether a part belongs to a call of something other than a function.
pub open spec fn is_foreign(d: ChatToolCallDelta) -> bool {
    d.kind matches Some(k) && k@ != "function"@
}

/// One more part of a call.
pub open spec fn part_step(s: StreamModel, d: ChatToolCallDelta) -> StreamStep {
    if is_foreign(d) {
        StreamStep { state: s, events: Err(kind_text(d.kind->0@)) }
    } else {
        let place = call_place(s.tool_calls, d);
        let calls = calls_up_to(s.tool_calls, place);
        StreamStep {
            state: StreamModel {
                tool_calls: calls.update(place, with_part(calls[place], d)),
                ..s
            },
            events: Ok(Seq::empty()),
        }
    }
}

/// A step behind a step: an error stops.
pub open spec fn next_step(a: StreamStep, b: StreamStep) -> StreamStep {
    match a.events {
        Err(e) => a,
        Ok(done) => StreamStep {
            state: b.state,
            events: match b.events {
                Err(e) => Err(e),
                Ok(more) => Ok(done + more),
            },
        },
    }
}

pub open spec fn still(s: StreamModel) -> StreamStep {
    StreamStep { state: s, events: Ok(Seq::empty()) }
}

pub open spec fn parts_step(s: StreamModel, parts: Seq<ChatToolCallDelta>) -> StreamStep
    decreases parts.len(),
{
    if parts.len() == 0 {
        still(s)
    } else {
        let a = parts_step(s, parts.drop_last());
        next_step(a, part_step(a.state, parts.last()))
    }
}

/// More text. Before the first text a message is announced.
pub open spec fn text_step(s: StreamModel, text: Option<Seq<char>>) -> StreamStep {
    match text {
        None => still(s),
        Some(t) => if t.len() == 0 {
            still(s)
        } else {
            StreamStep {
                state: StreamModel { content: s.content + t, text_item_added: true, ..s },
                events: Ok(
                    if s.text_item_added {
                        seq![EventModel::Delta(t)]
                    } else {
                        seq![
                            EventModel::Added(message_item("assistant"@, None)),
                            EventModel::Delta(t),
                        ]
                    },
                ),
            }
        },
    }
}

/// The answer is complete: its text, its calls, and that it is. Said once only.
pub open spec fn complete_step(s: StreamModel) -> StreamStep {
    if s.completed {
        still(s)
    } else {
        StreamStep {
            state: StreamModel { completed: true, ..s },
            events: match call_events(s.tool_calls, true) {
                Err(e) => Err(e),
                Ok(calls) => Ok(
                    (text_events("assistant"@, s.content) + calls).push(
                        completed_event(s.response_id, s.usage),
                    ),
                ),
            },
        }
    }
}

pub open spec fn choice_step(s: StreamModel, c: ChatCompletionChunkChoice) -> StreamStep {
    let a = text_step(s, opt_text(c.delta.content));
    let b = next_step(a, parts_step(a.state, c.delta.tool_calls@));
    if c.finish_reason is Some {
        next_step(b, complete_step(b.state))
    } else {
        b
    }
}

pub open spec fn choices_step(s: StreamModel, choices: Seq<ChatCompletionChunkChoice>) -> StreamStep
    decreases choices.len(),
{
    if choices.len() == 0 {
        still(s)
    } else {
        let a = choices_step(s, choices.drop_last());
        next_step(a, choice_step(a.state, choices.last()))
    }
}

/// What a chunk says of the answer as a whole.
pub open spec fn noted(s: StreamModel, c: ChatCompletionChunk) -> StreamModel {
    StreamModel {
        response_id: if s.response_id is None {
            opt_text(c.id)
        } else {
            s.response_id
        },
        usage: if c.usage is Some {
            c.usage
        } else {
            s.usage
        },
        ..s
    }
}

pub open spec fn chunk_step(s: StreamModel, c: ChatCompletionChunk) -> StreamStep {
    choices_step(noted(s, c), c.choices@)
}

/// Whether the calls that the parts belong to can be counted.
pub open spec fn parts_fit(parts: Seq<ChatToolCallDelta>) -> bool {
    forall|i: int| 0 <= i < parts.len() ==> part_fits(#[trigger] parts[i])
}

pub open spec fn part_fits(d: ChatToolCallDelta) -> bool {
    d.index matches Some(k) ==> k < usize::MAX
}

pub open spec fn chunk_fits(c: ChatCompletionChunk) -> bool {
    forall|i: int| 0 <= i < c.choices@.len() ==> parts_fit(#[trigger] c.choices@[i].delta.tool_calls@)
}

/// Makes events of the chunks of an answer.
#[derive(Debug)]
pub struct ChatCompletionsChunkNormalizer {
    response_id: Option<String>,
    content: String,
    text_item_added: bool,
    tool_calls: Vec<ChatToolCall>,
    usage: Option<ChatCompletionUsage>,
    completed: bool,
}

impl View for ChatCompletionsChunkNormalizer {
    type V = StreamModel;

    closed spec fn view(&self) -> StreamModel {
        StreamModel {
            response_id: opt_text(self.response_id),
            content: self.content@,
            text_item_added: self.text_item_added,
            tool_calls: call_models(self.tool_calls@),
            usage: self.usage,
            completed: self.completed,
        }
    }
}

/// Nothing was said.
pub open spec fn silent() -> StreamModel {
    StreamModel {
        response_id: None,
        content: Seq::empty(),
        text_item_added: false,
        tool_calls: Seq::empty(),
        usage: None,
        completed: false,
    }
}

impl Default for ChatCompletionsChunkNormalizer {
    fn default() -> (r: ChatCompletionsChunkNormalizer)
        ensures
            r@ == silent(),
    {
        proof {
            reveal_strlit("");
        }
        let r = ChatCompletionsChunkNormalizer {
            response_id: None,
            content: "".to_string(),
            text_item_added: false,
            tool_calls: Vec::new(),
            usage: None,
            completed: false,
        };
        assert(r@ =~= silent());
        r
    }
}

fn empty_call() -> (r: ChatToolCall)
    ensures
        r@ == new_call(),
{
    proof {
        reveal_strlit("");
    }
    let r = ChatToolCall {
        id: "".to_string(),
        kind: "".to_string(),
        function: ChatToolCallFunction { name: "".to_string(), arguments: "".to_string() },
    };
    assert(r@ =~= new_call());
    r
}

fn add_part(call: ChatToolCall, delta: &ChatToolCallDelta) -> (r: ChatToolCall)
    ensures
        r@ == with_part(call@, *delta),
{
    let mut call = call;
    let ghost given = call@;
    if let Some(id) = &delta.id {
        call.id = id.clone();
    }
    if let Some(kind) = &delta.kind {
        call.kind = kind.clone();
    }
    if let Some(function) = &delta.function {
        if let Some(name) = &function.name {
            call.function.name.append(name.as_str());
        }
        if let Some(arguments) = &function.arguments {
            call.function.arguments.append(arguments.as_str());
        }
    }
    assert(call@ =~= with_part(given, *delta));
    call
}

proof fn lemma_choices_stop(s: StreamModel, choices: Seq<ChatCompletionChunkChoice>, n: int)
    requires
        0 <= n <= choices.len(),
        choices_step(s, choices.take(n)).events is Err,
    ensures
        choices_step(s, choices) == choices_step(s, choices.take(n)),
    decreases choices.len(),
{
    if n == choices.len() {
        assert(choices.take(n) =~= choices);
    } else {
        let front = choices.drop_last();
        assert(front.take(n) =~= choices.take(n));
        lemma_choices_stop(s, front, n);
    }
}

proof fn lemma_parts_stop(s: StreamModel, parts: Seq<ChatToolCallDelta>, n: int)
    requires
        0 <= n <= parts.len(),
        parts_step(s, parts.take(n)).events is Err,
    ensures
        parts_step(s, parts) == parts_step(s, parts.take(n)),
    decreases parts.len(),
{
    if n == parts.len() {
        assert(parts.take(n) =~= parts);
    } else {
        let front = parts.drop_last();
        assert(front.take(n) =~= parts.take(n));
        lemma_parts_stop(s, front, n);
    }
}

/// Parts of calls make no events.
proof fn lemma_parts_are_silent(s: StreamModel, parts: Seq<ChatToolCallDelta>)
    ensures
        parts_step(s, parts).events matches Ok(e) ==> e == Seq::<EventModel>::empty(),
    decreases parts.len(),
{
    if parts.len() > 0 {
        lemma_parts_are_silent(s, parts.drop_last());
        let e = parts_step(s, parts).events;
        assert(e is Ok ==> e->Ok_0 =~= Seq::<EventModel>::empty());
    }
}

impl ChatCompletionsChunkNormalizer {
    /// One more part of a call.
    fn accumulate_tool_call(&mut self, delta: &ChatToolCallDelta) -> (r: Result<(), ProviderError>)
        requires
            part_fits(*delta),
        ensures
            final(self)@ == part_step(old(self)@, *delta).state,
            match (r, part_step(old(self)@, *delta).events) {
                (Ok(_), Ok(_)) => true,
                (Err(e), Err(t)) => e.text() == t,
                _ => false,
            },
    {
        if let Some(kind) = &delta.kind {
            if !same_text(kind.as_str(), "function") {
                return Err(kind_error(kind.as_str()));
            }
        }
        let ghost s = self@;
        let ghost given = call_models(self.tool_calls@);
        let ghost place = call_place(given, *delta);
        let ghost calls = calls_up_to(given, place);
        match delta.index {
            None => {
                self.tool_calls.push(add_part(empty_call(), delta));
                proof {
                    assert(calls[place] == new_call());
                    assert(call_models(self.tool_calls@) =~= calls.update(
                        place,
                        with_part(calls[place], *delta),
                    ));
                    assert(self@ =~= part_step(s, *delta).state);
                }
            },
            Some(k) => {
                let index: usize = k as usize;
                while self.tool_calls.len() <= index
                    invariant
                        index < usize::MAX,
                        s.tool_calls == given,
                        self@ == (StreamModel { tool_calls: call_models(self.tool_calls@), ..s }),
                        given.len() <= self.tool_calls@.len(),
                        self.tool_calls@.len() <= index + 1 || self.tool_calls@.len() == given.len(),
                        call_models(self.tool_calls@) =~= given + Seq::new(
                            (self.tool_calls@.len() - given.len()) as nat,
                            |i: int| new_call(),
                        ),
                    decreases index + 1 - self.tool_calls@.len(),
                {
                    let ghost before = call_models(self.tool_calls@);
                    self.tool_calls.push(empty_call());
                    proof {
                        assert(call_models(self.tool_calls@) =~= before.push(new_call()));
                        assert(self@ =~= (StreamModel {
                            tool_calls: call_models(self.tool_calls@),
                            ..s
                        }));
                    }
                }
                let ghost all = call_models(self.tool_calls@);
                assert(all =~= calls);
                let call = self.tool_calls.remove(index);
                assert(call@ == all[index as int]);
                self.tool_calls.insert(index, add_part(call, delta));
                proof {
                    assert(call_models(self.tool_calls@) =~= calls.update(
                        place,
                        with_part(calls[place], *delta),
                    ));
                    assert(self@ =~= part_step(s, *delta).state);
                }
            },
        }
        Ok(())
    }

    /// The answer is complete.
    fn complete_once(&mut self) -> (r: Result<Vec<ResponseEvent>, ProviderError>)
        ensures
            final(self)@ == complete_step(old(self)@).state,
            gives(r, complete_step(old(self)@).events),
    {
        let ghost s = self@;
        let mut events: Vec<ResponseEvent> = Vec::new();
        assert(event_models(events@) =~= Seq::<EventModel>::empty());
        if self.completed {
            return Ok(events);
        }
        self.completed = true;
        assert(self@ =~= complete_step(s).state);
        if chars_of(self.content.as_str()).len() > 0 {
            push_event(&mut events, message_done("assistant", self.content.as_str()));
        }
        assert(event_models(events@) =~= text_events("assistant"@, s.content));
        match events_of_calls(&self.tool_calls, true) {
            Ok(calls) => {
                append_events(&mut events, calls);
                push_event(&mut events, completed(&self.response_id, self.usage));
                Ok(events)
            },
            Err(e) => Err(e),
        }
    }

    /// The end of the stream.
    pub fn finish_done(&mut self) -> (r: Result<Vec<ResponseEvent>, ProviderError>)
        ensures
            final(self)@ == complete_step(old(self)@).state,
            gives(r, complete_step(old(self)@).events),
    {
        self.complete_once()
    }

    fn push_text(&mut self, content: &Option<String>) -> (r: Vec<ResponseEvent>)
        ensures
            final(self)@ == text_step(old(self)@, opt_text(*content)).state,
            text_step(old(self)@, opt_text(*content)).events == Ok::<_, Seq<char>>(
                event_models(r@),
            ),
    {
        let ghost s = self@;
        let mut events: Vec<ResponseEvent> = Vec::new();
        assert(event_models(events@) =~= Seq::<EventModel>::empty());
        if let Some(delta) = content {
            if chars_of(delta.as_str()).len() > 0 {
                if !self.text_item_added {
                    self.text_item_added = true;
                    push_event(&mut events, message_started());
                }
                self.content.append(delta.as_str());
                push_event(&mut events, ResponseEvent::OutputTextDelta(delta.clone()));
                proof {
                    assert(self@ =~= text_step(s, opt_text(*content)).state);
                    assert(event_models(events@) =~= text_step(
                        s,
                        opt_text(*content),
                    ).events->Ok_0);
                }
            }
        }
        events
    }

    fn push_parts(&mut self, parts: &Vec<ChatToolCallDelta>) -> (r: Result<(), ProviderError>)
        requires
            parts_fit(parts@),
        ensures
            final(self)@ == parts_step(old(self)@, parts@).state,
            match (r, parts_step(old(self)@, parts@).events) {
                (Ok(_), Ok(_)) => true,
                (Err(e), Err(t)) => e.text() == t,
                _ => false,
            },
    {
        let ghost s = self@;
        let mut i: usize = 0;
        assert(parts@.take(0) =~= Seq::<ChatToolCallDelta>::empty());
        while i < parts.len()
            invariant
                i <= parts@.len(),
                parts_fit(parts@),
                s == old(self)@,
                parts_step(s, parts@.take(i as int)).state == self@,
                parts_step(s, parts@.take(i as int)).events is Ok,
            decreases parts@.len() - i,
        {
            proof {
                assert(parts@.take(i + 1).drop_last() =~= parts@.take(i as int));
                assert(parts@.take(i + 1).last() == parts@[i as int]);
                assert(part_fits(parts@[i as int]));
            }
            if let Err(e) = self.accumulate_tool_call(&parts[i]) {
                proof {
                    lemma_parts_stop(s, parts@, i + 1);
                }
                return Err(e);
            }
            i = i + 1;
        }
        assert(parts@.take(i as int) =~= parts@);
        Ok(())
    }

    fn push_choice(&mut self, choice: &ChatCompletionChunkChoice) -> (r: Result<
        Vec<ResponseEvent>,
        ProviderError,
    >)
        requires
            parts_fit(choice.delta.tool_calls@),
        ensures
            final(self)@ == choice_step(old(self)@, *choice).state,
            gives(r, choice_step(old(self)@, *choice).events),
    {
        let ghost s = self@;
        let mut events = self.push_text(&choice.delta.content);
        let ghost a = text_step(s, opt_text(choice.delta.content));
        let ghost p = parts_step(a.state, choice.delta.tool_calls@);
        let ghost b = next_step(a, p);
        proof {
            lemma_parts_are_silent(a.state, choice.delta.tool_calls@);
        }
        if let Err(e) = self.push_parts(&choice.delta.tool_calls) {
            return Err(e);
        }
        assert(b.events->Ok_0 =~= event_models(events@));
        if choice.finish_reason.is_some() {
            match self.complete_once() {
                Ok(more) => {
                    append_events(&mut events, more);
                },
                Err(e) => {
                    return Err(e);
                },
            }
        }
        Ok(events)
    }

    /// One more chunk.
    pub fn push_chunk(&mut self, chunk: &ChatCompletionChunk) -> (r: Result<
        Vec<ResponseEvent>,
        ProviderError,
    >)
        requires
            chunk_fits(*chunk),
        ensures
            final(self)@ == chunk_step(old(self)@, *chunk).state,
            gives(r, chunk_step(old(self)@, *chunk).events),
    {
        let ghost given = self@;
        if self.response_id.is_none() {
            self.response_id = match &chunk.id {
                Some(t) => Some(t.clone()),
                None => None,
            };
        }
        if chunk.usage.is_some() {
            self.usage = chunk.usage;
        }
        let ghost s = noted(given, *chunk);
        assert(self@ =~= s);
        let ghost all = chunk.choices@;
        let mut events: Vec<ResponseEvent> = Vec::new();
        let mut i: usize = 0;
        proof {
            assert(all.take(0) =~= Seq::<ChatCompletionChunkChoice>::empty());
            assert(event_models(events@) =~= Seq::<EventModel>::empty());
        }
        while i < chunk.choices.len()
            invariant
                i <= chunk.choices@.len(),
                all == chunk.choices@,
                chunk_fits(*chunk),
                s == noted(old(self)@, *chunk),
                choices_step(s, all.take(i as int)).state == self@,
                choices_step(s, all.take(i as int)).events == Ok::<_, Seq<char>>(
                    event_models(events@),
                ),
            decreases chunk.choices@.len() - i,
        {
            proof {
                assert(all.take(i + 1).drop_last() =~= all.take(i as int));
                assert(all.take(i + 1).last() == all[i as int]);
                assert(parts_fit(chunk.choices@[i as int].delta.tool_calls@));
            }
            match self.push_choice(&chunk.choices[i]) {
                Ok(more) => {
                    append_events(&mut events, more);
                },
                Err(e) => {
                    proof {
                        lemma_choices_stop(s, all, i + 1);
                    }
                    return Err(e);
                },
            }
            i = i + 1;
        }
        assert(all.take(i as int) =~= all);
        Ok(events)
    }
}

// ---------------------------------------------------------------------------
// Laws
// ---------------------------------------------------------------------------

/// How often it is said that the answer is complete.
pub open spec fn completions(events: Seq<EventModel>) -> nat
    decreases events.len(),
{
    if events.len() == 0 {
        0
    } else {
        completions(events.drop_last()) + (if events.last() is Completed {
            1nat
        } else {
            0
        })
    }
}

/// How often a message is announced.
pub open spec fn announcements(events: Seq<EventModel>) -> nat
    decreases events.len(),
{
    if events.len() == 0 {
        0
    } else {
        announcements(events.drop_last()) + (if events.last() is Added {
            1nat
        } else {
            0
        })
    }
}

/// The text that is added.
pub open spec fn added_text(events: Seq<EventModel>) -> Seq<char>
    decreases events.len(),
{
    if events.len() == 0 {
        Seq::empty()
    } else {
        match events.last() {
            EventModel::Delta(t) => added_text(events.drop_last()) + t,
            _ => added_text(events.drop_last()),
        }
    }
}

/// Whether no text is added before a message is announced.
pub open spec fn announced_first(events: Seq<EventModel>, announced: bool) -> bool {
    forall|k: int|
        0 <= k < events.len() && #[trigger] events[k] is Delta ==> announced || exists|j: int|
            0 <= j < k && #[trigger] events[j] is Added
}

/// Whether the events tell what changed: that the answer is complete and that a
/// message has begun, once, when it comes about; the text that is added, and that
/// a message has begun before.
pub open spec fn tells_changes(s: StreamModel, step: StreamStep) -> bool {
    let t = step.state;
    step.events matches Ok(e) ==> {
        &&& completions(e) == (if t.completed && !s.completed {
            1nat
        } else {
            0
        })
        &&& announcements(e) == (if t.text_item_added && !s.text_item_added {
            1nat
        } else {
            0
        })
        &&& t.content == s.content + added_text(e)
        &&& announced_first(e, s.text_item_added)
        &&& s.completed ==> t.completed
        &&& s.text_item_added ==> t.text_item_added
    }
}

proof fn lemma_counts_of_two(a: Seq<EventModel>, b: Seq<EventModel>)
    ensures
        completions(a + b) == completions(a) + completions(b),
        announcements(a + b) == announcements(a) + announcements(b),
        added_text(a + b) == added_text(a) + added_text(b),
    decreases b.len(),
{
    if b.len() == 0 {
        assert(a + b =~= a);
        assert(added_text(a) + Seq::<char>::empty() =~= added_text(a));
    } else {
        lemma_counts_of_two(a, b.drop_last());
        assert((a + b).drop_last() =~= a + b.drop_last());
        assert((a + b).last() == b.last());
        if let EventModel::Delta(t) = b.last() {
            assert(added_text(a) + added_text(b.drop_last()) + t =~= added_text(a) + (added_text(
                b.drop_last(),
            ) + t));
        }
    }
}

proof fn lemma_has_announcement(events: Seq<EventModel>)
    requires
        announcements(events) > 0,
    ensures
        exists|j: int| 0 <= j < events.len() && #[trigger] events[j] is Added,
    decreases events.len(),
{
    if events.len() > 0 {
        if events.last() is Added {
            assert(events[events.len() - 1] is Added);
        } else {
            lemma_has_announcement(events.drop_last());
            let j = choose|j: int|
                0 <= j < events.drop_last().len() && #[trigger] events.drop_last()[j] is Added;
            assert(events[j] is Added);
        }
    }
}

proof fn lemma_next_tells(s: StreamModel, a: StreamStep, b: StreamStep)
    requires
        tells_changes(s, a),
        tells_changes(a.state, b),
    ensures
        tells_changes(s, next_step(a, b)),
{
    if a.events is Ok && b.events is Ok {
        let x = a.events->Ok_0;
        let y = b.events->Ok_0;
        lemma_counts_of_two(x, y);
        assert(s.content + added_text(x) + added_text(y) =~= s.content + (added_text(x)
            + added_text(y)));
        let all = x + y;
        assert forall|k: int| 0 <= k < all.len() && #[trigger] all[k] is Delta implies
            s.text_item_added || exists|j: int| 0 <= j < k && #[trigger] all[j] is Added by {
            if k < x.len() {
                assert(x[k] is Delta);
                if !s.text_item_added {
                    let j = choose|j: int| 0 <= j < k && #[trigger] x[j] is Added;
                    assert(all[j] is Added);
                }
            } else {
                assert(y[k - x.len()] is Delta);
                if !s.text_item_added {
                    if a.state.text_item_added {
                        lemma_has_announcement(x);
                        let j = choose|j: int| 0 <= j < x.len() && #[trigger] x[j] is Added;
                        assert(all[j] is Added);
                    } else {
                        let j = choose|j: int| 0 <= j < k - x.len() && #[trigger] y[j] is Added;
                        assert(all[x.len() + j] is Added);
                    }
                }
            }
        }
    }
}

proof fn lemma_still_tells(s: StreamModel)
    ensures
        tells_changes(s, still(s)),
{
    assert(s.content + Seq::<char>::empty() =~= s.content);
}

proof fn lemma_part_tells(s: StreamModel, d: ChatToolCallDelta)
    ensures
        tells_changes(s, part_step(s, d)),
{
    assert(s.content + Seq::<char>::empty() =~= s.content);
}

proof fn lemma_parts_tell(s: StreamModel, parts: Seq<ChatToolCallDelta>)
    ensures
        tells_changes(s, parts_step(s, parts)),
    decreases parts.len(),
{
    if parts.len() == 0 {
        lemma_still_tells(s);
    } else {
        let a = parts_step(s, parts.drop_last());
        lemma_parts_tell(s, parts.drop_last());
        lemma_part_tells(a.state, parts.last());
        lemma_next_tells(s, a, part_step(a.state, parts.last()));
    }
}

proof fn lemma_text_tells(s: StreamModel, text: Option<Seq<char>>)
    ensures
        tells_changes(s, text_step(s, text)),
{
    let step = text_step(s, text);
    lemma_still_tells(s);
    if text is Some && text->0.len() > 0 {
        let t = text->0;
        let e = step.events->Ok_0;
        let added = EventModel::Added(message_item("assistant"@, None));
        let delta = EventModel::Delta(t);
        let none = Seq::<EventModel>::empty();
        assert(completions(none) == 0);
        assert(announcements(none) == 0);
        assert(added_text(none) == Seq::<char>::empty());
        if s.text_item_added {
            assert(e =~= none.push(delta));
            assert(e.drop_last() =~= none);
        } else {
            let one = none.push(added);
            assert(one.drop_last() =~= none);
            assert(e =~= one.push(delta));
            assert(e.drop_last() =~= one);
            assert(completions(one) == 0);
            assert(announcements(one) == 1);
            assert(added_text(one) == Seq::<char>::empty());
            assert(e[0] is Added);
        }
        assert(Seq::<char>::empty() + t =~= t);
        assert(added_text(e) =~= t);
    }
}

proof fn lemma_calls_tell(calls: Seq<CallModel>, lenient: bool)
    ensures
        call_events(calls, lenient) matches Ok(e) ==> completions(e) == 0 && announcements(e) == 0
            && added_text(e) == Seq::<char>::empty() && forall|k: int|
            0 <= k < e.len() ==> !(#[trigger] e[k] is Delta),
    decreases calls.len(),
{
    if calls.len() > 0 {
        lemma_calls_tell(calls.drop_last(), lenient);
        if call_events(calls, lenient) is Ok {
            let e = call_events(calls, lenient)->Ok_0;
            assert(e.drop_last() =~= call_events(calls.drop_last(), lenient)->Ok_0);
        }
    }
}

proof fn lemma_complete_tells(s: StreamModel)
    ensures
        tells_changes(s, complete_step(s)),
{
    lemma_still_tells(s);
    let step = complete_step(s);
    if !s.completed && step.events is Ok {
        let none = Seq::<EventModel>::empty();
        let text = text_events("assistant"@, s.content);
        let calls = call_events(s.tool_calls, true)->Ok_0;
        lemma_calls_tell(s.tool_calls, true);
        assert(completions(none) == 0);
        assert(announcements(none) == 0);
        assert(added_text(none) == Seq::<char>::empty());
        if s.content.len() > 0 {
            assert(text.drop_last() =~= none);
        }
        assert(completions(text) == 0);
        assert(announcements(text) == 0);
        assert(added_text(text) == Seq::<char>::empty());
        lemma_counts_of_two(text, calls);
        let e = step.events->Ok_0;
        assert(e.drop_last() =~= text + calls);
        assert(Seq::<char>::empty() + Seq::<char>::empty() =~= Seq::<char>::empty());
        assert forall|k: int| 0 <= k < e.len() implies !(#[trigger] e[k] is Delta) by {
            if k < text.len() {
                assert(e[k] == text[k]);
            } else if k < text.len() + calls.len() {
                assert(e[k] == calls[k - text.len()]);
            }
        }
    }
}

proof fn lemma_choice_tells(s: StreamModel, c: ChatCompletionChunkChoice)
    ensures
        tells_changes(s, choice_step(s, c)),
{
    let a = text_step(s, opt_text(c.delta.content));
    let p = parts_step(a.state, c.delta.tool_calls@);
    let b = next_step(a, p);
    lemma_text_tells(s, opt_text(c.delta.content));
    lemma_parts_tell(a.state, c.delta.tool_calls@);
    lemma_next_tells(s, a, p);
    if c.finish_reason is Some {
        lemma_complete_tells(b.state);
        lemma_next_tells(s, b, complete_step(b.state));
    }
}

/// The events of a chunk tell what it changed: that the answer is complete and
/// that a message has begun are told once, when they come about; the texts that
/// are told add up to the text of the message, and none is told before the message
/// has begun.
pub proof fn law_chunk_events_tell_changes(s: StreamModel, c: ChatCompletionChunk)
    ensures
        tells_changes(s, chunk_step(s, c)),
{
    lemma_choices_tell(noted(s, c), c.choices@);
}

proof fn lemma_choices_tell(s: StreamModel, choices: Seq<ChatCompletionChunkChoice>)
    ensures
        tells_changes(s, choices_step(s, choices)),
    decreases choices.len(),
{
    if choices.len() == 0 {
        lemma_still_tells(s);
    } else {
        let a = choices_step(s, choices.drop_last());
        lemma_choices_tell(s, choices.drop_last());
        lemma_choice_tells(a.state, choices.last());
        lemma_next_tells(s, a, choice_step(a.state, choices.last()));
    }
}

/// A stream: its chunks, one after the other.
pub open spec fn stream_step(s: StreamModel, chunks: Seq<ChatCompletionChunk>) -> StreamStep
    decreases chunks.len(),
{
    if chunks.len() == 0 {
        still(s)
    } else {
        let a = stream_step(s, chunks.drop_last());
        next_step(a, chunk_step(a.state, chunks.last()))
    }
}

proof fn lemma_stream_tells(chunks: Seq<ChatCompletionChunk>)
    ensures
        tells_changes(silent(), stream_step(silent(), chunks)),
    decreases chunks.len(),
{
    if chunks.len() == 0 {
        lemma_still_tells(silent());
    } else {
        let a = stream_step(silent(), chunks.drop_last());
        lemma_stream_tells(chunks.drop_last());
        law_chunk_events_tell_changes(a.state, chunks.last());
        lemma_next_tells(silent(), a, chunk_step(a.state, chunks.last()));
    }
}

/// However an answer is cut into chunks, that it is complete is told once, at the
/// latest at the end of the stream; that a message has begun is told at most once,
/// and before any of its text.
pub proof fn law_streams_complete_once(chunks: Seq<ChatCompletionChunk>)
    ensures
        ({
            let a = stream_step(silent(), chunks);
            let all = next_step(a, complete_step(a.state));
            all.events matches Ok(e) ==> completions(e) == 1 && announcements(e) <= 1
                && announced_first(e, false) && all.state.content == added_text(e)
                && complete_step(all.state).events == Ok::<_, Seq<char>>(Seq::<EventModel>::empty())
        }),
{
    let a = stream_step(silent(), chunks);
    let all = next_step(a, complete_step(a.state));
    lemma_stream_tells(chunks);
    lemma_complete_tells(a.state);
    lemma_next_tells(silent(), a, complete_step(a.state));
    if all.events is Ok {
        let e = all.events->Ok_0;
        assert(silent().content + added_text(e) =~= added_text(e));
    }
}

/// Whether the calls so far are such that the answer can be complete.
pub open spec fn can_complete(s: StreamModel) -> bool {
    forall|i: int| 0 <= i < s.tool_calls.len() ==> is_function((#[trigger] s.tool_calls[i]).kind, true)
}

proof fn lemma_part_keeps(s: StreamModel, d: ChatToolCallDelta)
    requires
        can_complete(s),
    ensures
        can_complete(part_step(s, d).state),
{
    if !is_foreign(d) {
        let place = call_place(s.tool_calls, d);
        let calls = calls_up_to(s.tool_calls, place);
        let t = part_step(s, d).state;
        assert forall|i: int| 0 <= i < t.tool_calls.len() implies is_function(
            (#[trigger] t.tool_calls[i]).kind,
            true,
        ) by {
            if i < s.tool_calls.len() {
                assert(calls[i] == s.tool_calls[i]);
            } else {
                assert(calls[i] == new_call());
            }
        }
    }
}

proof fn lemma_parts_keep(s: StreamModel, parts: Seq<ChatToolCallDelta>)
    requires
        can_complete(s),
    ensures
        can_complete(parts_step(s, parts).state),
    decreases parts.len(),
{
    if parts.len() > 0 {
        lemma_parts_keep(s, parts.drop_last());
        lemma_part_keeps(parts_step(s, parts.drop_last()).state, parts.last());
    }
}

proof fn lemma_choices_keep(s: StreamModel, choices: Seq<ChatCompletionChunkChoice>)
    requires
        can_complete(s),
    ensures
        can_complete(choices_step(s, choices).state),
    decreases choices.len(),
{
    if choices.len() > 0 {
        lemma_choices_keep(s, choices.drop_last());
        let m = choices_step(s, choices.drop_last()).state;
        let c = choices.last();
        let a = text_step(m, opt_text(c.delta.content));
        assert(a.state.tool_calls == m.tool_calls);
        lemma_parts_keep(a.state, c.delta.tool_calls@);
        let b = next_step(a, parts_step(a.state, c.delta.tool_calls@));
        assert(complete_step(b.state).state.tool_calls == b.state.tool_calls);
    }
}

proof fn lemma_calls_complete(calls: Seq<CallModel>)
    requires
        forall|i: int| 0 <= i < calls.len() ==> is_function((#[trigger] calls[i]).kind, true),
    ensures
        call_events(calls, true) is Ok,
    decreases calls.len(),
{
    if calls.len() > 0 {
        let t = calls.drop_last();
        assert forall|i: int| 0 <= i < t.len() implies is_function(
            (#[trigger] t[i]).kind,
            true,
        ) by {
            assert(t[i] == calls[i]);
        }
        lemma_calls_complete(t);
        assert(is_function(calls[calls.len() - 1].kind, true));
    }
}

/// A part of a call of something other than a function is refused when it comes,
/// so that completing a stream never fails.
pub proof fn law_streams_can_complete(chunks: Seq<ChatCompletionChunk>)
    ensures
        can_complete(stream_step(silent(), chunks).state),
        complete_step(stream_step(silent(), chunks).state).events is Ok,
    decreases chunks.len(),
{
    let t = stream_step(silent(), chunks).state;
    if chunks.len() > 0 {
        law_streams_can_complete(chunks.drop_last());
        let m = stream_step(silent(), chunks.drop_last()).state;
        let c = chunks.last();
        assert(noted(m, c).tool_calls == m.tool_calls);
        lemma_choices_keep(noted(m, c), c.choices@);
    }
    assert(can_complete(t));
    lemma_calls_complete(t.tool_calls);
}

/// The texts of the messages that are done.
pub open spec fn done_texts(events: Seq<EventModel>) -> Seq<Seq<char>>
    decreases events.len(),
{
    if events.len() == 0 {
        Seq::empty()
    } else {
        match events.last() {
            EventModel::Done(ItemModel::Message { role, content, .. }) => done_texts(
                events.drop_last(),
            ).push(
                if role == "assistant"@ && content.len() == 1 && content[0] is OutputText {
                    content[0]->OutputText_0
                } else {
                    Seq::empty()
                },
            ),
            _ => done_texts(events.drop_last()),
        }
    }
}

/// The calls that are done, in their order: the id, the name and the arguments.
pub open spec fn done_calls_of(events: Seq<EventModel>) -> Seq<(Seq<char>, Seq<char>, Seq<char>)>
    decreases events.len(),
{
    if events.len() == 0 {
        Seq::empty()
    } else {
        match events.last() {
            EventModel::Done(ItemModel::FunctionCall { name, arguments, call_id, .. }) =>
            done_calls_of(events.drop_last()).push((call_id, name, arguments)),
            _ => done_calls_of(events.drop_last()),
        }
    }
}

/// The calls that were made so far: the id, the name and the arguments.
pub open spec fn calls_so_far(s: StreamModel) -> Seq<(Seq<char>, Seq<char>, Seq<char>)> {
    s.tool_calls.map_values(|c: CallModel| (c.id, c.name, c.arguments))
}

/// Whether the events before and the events of a step that ends with this text and
/// these calls say the same: where the answer becomes complete, all that was said is
/// done before it is; nothing is done otherwise.
pub open spec fn is_done_once(s: StreamModel, step: StreamStep) -> bool {
    step.events matches Ok(e) ==> {
        if step.state.completed && !s.completed {
            exists|k: int| #[trigger] is_done_at(s, e, k)
        } else {
            &&& done_texts(e).len() == 0
            &&& done_calls_of(e).len() == 0
            &&& forall|k: int| 0 <= k < e.len() ==> !(#[trigger] e[k] is Completed)
        }
    }
}

/// Whether the answer is complete with the `k`-th of these events. Before it, the
/// message of which text was told is done with that text, if there is any; nothing
/// is done behind it.
pub open spec fn is_done_at(s: StreamModel, e: Seq<EventModel>, k: int) -> bool {
    let before = e.take(k);
    let text = s.content + added_text(before);
    &&& 0 <= k < e.len()
    &&& e[k] is Completed
    &&& done_texts(before) == (if text.len() == 0 {
        Seq::<Seq<char>>::empty()
    } else {
        seq![text]
    })
    &&& done_texts(e) == done_texts(before)
    &&& done_calls_of(e) == done_calls_of(before)
    &&& forall|j: int| 0 <= j < e.len() && j != k ==> !(#[trigger] e[j] is Completed)
}

proof fn lemma_done_of_two(a: Seq<EventModel>, b: Seq<EventModel>)
    ensures
        done_texts(a + b) == done_texts(a) + done_texts(b),
        done_calls_of(a + b) == done_calls_of(a) + done_calls_of(b),
    decreases b.len(),
{
    if b.len() == 0 {
        assert(a + b =~= a);
        assert(done_texts(a + b) =~= done_texts(a) + done_texts(b));
        assert(done_calls_of(a + b) =~= done_calls_of(a) + done_calls_of(b));
    } else {
        lemma_done_of_two(a, b.drop_last());
        assert((a + b).drop_last() =~= a + b.drop_last());
        assert((a + b).last() == b.last());
        assert(done_texts(a + b) =~= done_texts(a) + done_texts(b));
        assert(done_calls_of(a + b) =~= done_calls_of(a) + done_calls_of(b));
    }
}

proof fn lemma_next_is_done_once(s: StreamModel, a: StreamStep, b: StreamStep)
    requires
        tells_changes(s, a),
        tells_changes(a.state, b),
        is_done_once(s, a),
        is_done_once(a.state, b),
    ensures
        is_done_once(s, next_step(a, b)),
{
    if a.events is Ok && b.events is Ok {
        let x = a.events->Ok_0;
        let y = b.events->Ok_0;
        let all = x + y;
        lemma_done_of_two(x, y);
        if a.state.completed && !s.completed {
            let k = choose|k: int| #[trigger] is_done_at(s, x, k);
            assert(all.take(k) =~= x.take(k));
            assert(done_texts(y) =~= Seq::<Seq<char>>::empty());
            assert(done_texts(all) =~= done_texts(x));
            assert(done_calls_of(all) =~= done_calls_of(x));
            assert forall|j: int| 0 <= j < all.len() && j != k implies !(
            #[trigger] all[j] is Completed) by {
                if j < x.len() {
                    assert(all[j] == x[j]);
                } else {
                    assert(all[j] == y[j - x.len()]);
                }
            }
            assert(all[k] == x[k]);
            assert(is_done_at(s, all, k));
        } else if b.state.completed && !a.state.completed {
            let k = choose|k: int| #[trigger] is_done_at(a.state, y, k);
            let n = x.len() + k;
            assert(all.take(n) =~= x + y.take(k));
            lemma_done_of_two(x, y.take(k));
            lemma_counts_of_two(x, y.take(k));
            assert(s.content + added_text(x) + added_text(y.take(k)) =~= s.content + (added_text(x)
                + added_text(y.take(k))));
            assert(done_texts(x) =~= Seq::<Seq<char>>::empty());
            assert(done_texts(x) + done_texts(y.take(k)) =~= done_texts(y.take(k)));
            assert(done_texts(x) + done_texts(y) =~= done_texts(y));
            assert(done_calls_of(x) + done_calls_of(y.take(k)) =~= done_calls_of(x)
                + done_calls_of(y));
            assert forall|j: int| 0 <= j < all.len() && j != n implies !(
            #[trigger] all[j] is Completed) by {
                if j < x.len() {
                    assert(all[j] == x[j]);
                } else {
                    assert(all[j] == y[j - x.len()]);
                }
            }
            assert(all[n] == y[k]);
            assert(is_done_at(s, all, n));
        } else {
            assert forall|j: int| 0 <= j < all.len() implies !(#[trigger] all[j] is Completed) by {
                if j < x.len() {
                    assert(all[j] == x[j]);
                } else {
                    assert(all[j] == y[j - x.len()]);
                }
            }
        }
    }
}

proof fn lemma_calls_done(calls: Seq<CallModel>, lenient: bool)
    ensures
        call_events(calls, lenient) matches Ok(e) ==> {
            &&& done_texts(e).len() == 0
            &&& done_calls_of(e) == calls.map_values(|c: CallModel| (c.id, c.name, c.arguments))
            &&& forall|k: int| 0 <= k < e.len() ==> !(#[trigger] e[k] is Completed)
        },
        call_events(calls, lenient) is Err <==> exists|i: int|
            0 <= i < calls.len() && (#[trigger] calls[i]).kind != "function"@ && !(lenient
                && calls[i].kind.len() == 0),
    decreases calls.len(),
{
    if calls.len() == 0 {
        if let Ok(e) = call_events(calls, lenient) {
            assert(done_calls_of(e) =~= calls.map_values(
                |c: CallModel| (c.id, c.name, c.arguments),
            ));
        }
    } else {
        let front = calls.drop_last();
        lemma_calls_done(front, lenient);
        if call_events(calls, lenient) is Ok {
            let e = call_events(calls, lenient)->Ok_0;
            let before = call_events(front, lenient)->Ok_0;
            assert(e.drop_last() =~= before);
            assert(done_calls_of(e) =~= calls.map_values(
                |c: CallModel| (c.id, c.name, c.arguments),
            ));
            assert forall|k: int| 0 <= k < e.len() implies !(#[trigger] e[k] is Completed) by {
                if k < before.len() {
                    assert(e[k] == before[k]);
                }
            }
        }
        if call_events(front, lenient) is Err {
            let i = choose|i: int|
                0 <= i < front.len() && (#[trigger] front[i]).kind != "function"@ && !(lenient
                    && front[i].kind.len() == 0);
            assert(calls[i] == front[i]);
        }
        if call_events(calls, lenient) is Err && call_events(front, lenient) is Ok {
            assert(calls[calls.len() - 1] == calls.last());
        }
        if exists|i: int|
            0 <= i < calls.len() && (#[trigger] calls[i]).kind != "function"@ && !(lenient
                && calls[i].kind.len() == 0) {
            let i = choose|i: int|
                0 <= i < calls.len() && (#[trigger] calls[i]).kind != "function"@ && !(lenient
                    && calls[i].kind.len() == 0);
            if i < front.len() {
                assert(front[i] == calls[i]);
            }
        }
    }
}

proof fn lemma_text_done(text: Seq<char>)
    ensures
        done_texts(text_events("assistant"@, text)) == (if text.len() == 0 {
            Seq::<Seq<char>>::empty()
        } else {
            seq![text]
        }),
        done_calls_of(text_events("assistant"@, text)).len() == 0,
        added_text(text_events("assistant"@, text)).len() == 0,
{
    let e = text_events("assistant"@, text);
    let none = Seq::<EventModel>::empty();
    assert(done_texts(none) =~= Seq::<Seq<char>>::empty());
    assert(done_calls_of(none).len() == 0);
    assert(added_text(none).len() == 0);
    if text.len() > 0 {
        assert(e.drop_last() =~= none);
        assert(done_texts(e) =~= seq![text]);
    }
}

/// When an answer becomes complete, all of it is told: the text in one message, if
/// there is any, then every call, whole, and at last that it is complete, under the
/// id of the answer and with what was used. It is told once only.
pub proof fn law_completion_tells_all(s: StreamModel)
    ensures
        complete_step(s).state == (StreamModel { completed: true, ..s }),
        s.completed ==> complete_step(s).events == Ok::<_, Seq<char>>(Seq::<EventModel>::empty()),
        !s.completed ==> (complete_step(s).events matches Ok(e) ==> {
            &&& done_texts(e) == (if s.content.len() == 0 {
                Seq::<Seq<char>>::empty()
            } else {
                seq![s.content]
            })
            &&& done_calls_of(e) == calls_so_far(s)
            &&& e.len() == done_texts(e).len() + s.tool_calls.len() + 1
            &&& e.last() matches EventModel::Completed { response_id, token_usage, can_append }
            &&& response_id == (match s.response_id {
                Some(id) => id,
                None => Seq::empty(),
            })
            &&& !can_append
            &&& match s.usage {
                Some(u) => token_usage matches Some(t) && t.input_tokens == u.prompt_tokens
                    && t.output_tokens == u.completion_tokens && t.total_tokens == u.total_tokens
                    && t.cached_input_tokens == 0 && t.reasoning_output_tokens == 0,
                None => token_usage is None,
            }
        }),
        is_done_once(s, complete_step(s)),
{
    let step = complete_step(s);
    let none = Seq::<EventModel>::empty();
    assert(done_texts(none).len() == 0);
    assert(done_calls_of(none).len() == 0);
    if !s.completed && step.events is Ok {
        let e = step.events->Ok_0;
        let text = text_events("assistant"@, s.content);
        let calls = call_events(s.tool_calls, true)->Ok_0;
        let k = e.len() - 1;
        lemma_text_done(s.content);
        lemma_calls_done(s.tool_calls, true);
        lemma_calls_tell(s.tool_calls, true);
        lemma_calls_len(s.tool_calls, true);
        lemma_done_of_two(text, calls);
        lemma_counts_of_two(text, calls);
        assert(e.drop_last() =~= text + calls);
        assert(e.take(k) =~= text + calls);
        assert(done_texts(e) =~= done_texts(text));
        assert(done_calls_of(e) =~= calls_so_far(s));
        assert(added_text(e.take(k)) =~= Seq::<char>::empty());
        assert(s.content + Seq::<char>::empty() =~= s.content);
        assert forall|j: int| 0 <= j < e.len() && j != k implies !(#[trigger] e[j] is Completed) by {
            if j < text.len() {
                assert(e[j] == text[j]);
            } else {
                assert(e[j] == calls[j - text.len()]);
            }
        }
        assert(is_done_at(s, e, k));
    }
}

proof fn lemma_calls_len(calls: Seq<CallModel>, lenient: bool)
    ensures
        call_events(calls, lenient) matches Ok(e) ==> e.len() == calls.len(),
    decreases calls.len(),
{
    if calls.len() > 0 {
        lemma_calls_len(calls.drop_last(), lenient);
    }
}

/// More text is told as it comes, and is kept; nothing else changes.
pub proof fn law_text_is_told_as_it_comes(s: StreamModel, text: Option<Seq<char>>)
    ensures
        text_step(s, text).events matches Ok(e) && added_text(e) == (match text {
            Some(t) => t,
            None => Seq::empty(),
        }) && done_texts(e).len() == 0 && done_calls_of(e).len() == 0,
        text_step(s, text).state.content == s.content + added_text(text_step(s, text).events->Ok_0),
        text_step(s, text).state.tool_calls == s.tool_calls,
        text_step(s, text).state.completed == s.completed,
        text_step(s, text).state.response_id == s.response_id,
        text_step(s, text).state.usage == s.usage,
        is_done_once(s, text_step(s, text)),
{
    lemma_text_tells(s, text);
    let e = text_step(s, text).events->Ok_0;
    let none = Seq::<EventModel>::empty();
    assert(done_texts(none).len() == 0);
    assert(done_calls_of(none).len() == 0);
    assert(added_text(none).len() == 0);
    if text is Some && text->0.len() > 0 {
        let t = text->0;
        assert(e.last() == EventModel::Delta(t));
        if s.text_item_added {
            assert(e.drop_last() =~= none);
        } else {
            assert(e.drop_last() =~= seq![e[0]]);
            assert(seq![e[0]].drop_last() =~= none);
            assert(done_texts(seq![e[0]]).len() == 0);
            assert(done_calls_of(seq![e[0]]).len() == 0);
            assert(added_text(seq![e[0]]).len() == 0);
        }
        assert(added_text(e) =~= t);
    } else if text is Some {
        assert(text->0 =~= Seq::<char>::empty());
    }
}

/// A part of a call goes to the call it names by its place, or to a new one: its
/// name and its arguments are put behind what came before, its id is taken over. The
/// other calls and all else stay as they are, and nothing is told yet. A part of
/// something other than a function is refused and changes nothing.
pub proof fn law_parts_make_up_calls(s: StreamModel, d: ChatToolCallDelta)
    ensures
        ({
            let step = part_step(s, d);
            let old_calls = s.tool_calls;
            let new_calls = step.state.tool_calls;
            let p: int = match d.index {
                Some(i) => i as int,
                None => old_calls.len() as int,
            };
            &&& (step.events is Err) == (d.kind matches Some(k) && k@ != "function"@)
            &&& step.events is Err ==> step.state == s
            &&& step.events matches Ok(e) ==> {
                &&& e.len() == 0
                &&& step.state == (StreamModel { tool_calls: new_calls, ..s })
                &&& new_calls.len() == (if p < old_calls.len() {
                    old_calls.len() as int
                } else {
                    p + 1
                })
                &&& forall|i: int|
                    0 <= i < old_calls.len() && i != p ==> #[trigger] new_calls[i] == old_calls[i]
                &&& forall|i: int|
                    old_calls.len() <= i < p ==> (#[trigger] new_calls[i]).id.len() == 0
                        && new_calls[i].name.len() == 0 && new_calls[i].arguments.len() == 0
                &&& new_calls[p].id == (match d.id {
                    Some(id) => id@,
                    None => if p < old_calls.len() {
                        old_calls[p].id
                    } else {
                        Seq::empty()
                    },
                })
                &&& new_calls[p].name == (if p < old_calls.len() {
                    old_calls[p].name
                } else {
                    Seq::empty()
                }) + said_in(d, true)
                &&& new_calls[p].arguments == (if p < old_calls.len() {
                    old_calls[p].arguments
                } else {
                    Seq::empty()
                }) + said_in(d, false)
            }
        }),
{
    let step = part_step(s, d);
    if step.events is Ok {
        let p = call_place(s.tool_calls, d);
        let calls = calls_up_to(s.tool_calls, p);
        let e = Seq::<char>::empty();
        assert(calls[p].name + e =~= calls[p].name);
        assert(calls[p].arguments + e =~= calls[p].arguments);
    }
}

/// What a part says of the name of its call, or of its arguments.
pub open spec fn said_in(d: ChatToolCallDelta, name: bool) -> Seq<char> {
    match d.function {
        Some(f) => match (if name {
            f.name
        } else {
            f.arguments
        }) {
            Some(t) => t@,
            None => Seq::empty(),
        },
        None => Seq::empty(),
    }
}

proof fn lemma_parts_are_done_once(s: StreamModel, parts: Seq<ChatToolCallDelta>)
    ensures
        is_done_once(s, parts_step(s, parts)),
        parts_step(s, parts).state.completed == s.completed,
        parts_step(s, parts).events matches Ok(e) ==> e.len() == 0,
    decreases parts.len(),
{
    let none = Seq::<EventModel>::empty();
    assert(done_texts(none).len() == 0);
    assert(done_calls_of(none).len() == 0);
    if parts.len() > 0 {
        let front = parts.drop_last();
        let a = parts_step(s, front);
        lemma_parts_are_done_once(s, front);
        let b = part_step(a.state, parts.last());
        assert(is_done_once(a.state, b));
        lemma_parts_tell(s, front);
        lemma_part_tells(a.state, parts.last());
        lemma_next_is_done_once(s, a, b);
    }
}

/// A choice of a chunk adds its text and its parts of calls. The answer is complete
/// behind it just where it says why the model has finished, or was before.
pub proof fn law_choices_finish_answers(s: StreamModel, c: ChatCompletionChunkChoice)
    ensures
        is_done_once(s, choice_step(s, c)),
        choice_step(s, c).events matches Ok(e) ==> {
            &&& choice_step(s, c).state.completed == (s.completed || c.finish_reason is Some)
            &&& added_text(e) == (match c.delta.content {
                Some(t) => t@,
                None => Seq::empty(),
            })
            &&& choice_step(s, c).state.content == s.content + added_text(e)
        },
{
    let a = text_step(s, opt_text(c.delta.content));
    let p = parts_step(a.state, c.delta.tool_calls@);
    let b = next_step(a, p);
    law_text_is_told_as_it_comes(s, opt_text(c.delta.content));
    lemma_text_tells(s, opt_text(c.delta.content));
    lemma_parts_tell(a.state, c.delta.tool_calls@);
    lemma_parts_are_done_once(a.state, c.delta.tool_calls@);
    lemma_next_tells(s, a, p);
    lemma_next_is_done_once(s, a, p);
    if b.events is Ok {
        assert(b.events->Ok_0 =~= a.events->Ok_0);
    }
    if c.finish_reason is Some {
        law_completion_tells_all(b.state);
        lemma_complete_tells(b.state);
        lemma_next_is_done_once(s, b, complete_step(b.state));
        if choice_step(s, c).events is Ok {
            let x = b.events->Ok_0;
            let y = complete_step(b.state).events->Ok_0;
            lemma_counts_of_two(x, y);
            assert(b.state.content + added_text(y) == b.state.content);
            assert((b.state.content + added_text(y)).len() == b.state.content.len()
                + added_text(y).len());
            assert(added_text(y) =~= Seq::<char>::empty());
            assert(added_text(x) + added_text(y) =~= added_text(x));
        }
    }
}

proof fn lemma_choices_are_done_once(s: StreamModel, choices: Seq<ChatCompletionChunkChoice>)
    ensures
        is_done_once(s, choices_step(s, choices)),
    decreases choices.len(),
{
    let none = Seq::<EventModel>::empty();
    assert(done_texts(none).len() == 0);
    assert(done_calls_of(none).len() == 0);
    if choices.len() > 0 {
        let front = choices.drop_last();
        let a = choices_step(s, front);
        let b = choice_step(a.state, choices.last());
        lemma_choices_are_done_once(s, front);
        law_choices_finish_answers(a.state, choices.last());
        lemma_choices_tell(s, front);
        lemma_choice_tells(a.state, choices.last());
        lemma_next_is_done_once(s, a, b);
    }
}

proof fn lemma_stream_is_done_once(chunks: Seq<ChatCompletionChunk>)
    ensures
        is_done_once(silent(), stream_step(silent(), chunks)),
    decreases chunks.len(),
{
    let none = Seq::<EventModel>::empty();
    assert(done_texts(none).len() == 0);
    assert(done_calls_of(none).len() == 0);
    if chunks.len() > 0 {
        let front = chunks.drop_last();
        let c = chunks.last();
        let a = stream_step(silent(), front);
        let b = chunk_step(a.state, c);
        lemma_stream_is_done_once(front);
        lemma_choices_are_done_once(noted(a.state, c), c.choices@);
        assert(is_done_once(a.state, b)) by {
            if b.events is Ok && b.state.completed && !a.state.completed {
                let e = b.events->Ok_0;
                let k = choose|k: int| #[trigger] is_done_at(noted(a.state, c), e, k);
                assert(is_done_at(a.state, e, k));
            }
        }
        lemma_stream_tells(front);
        law_chunk_events_tell_changes(a.state, c);
        lemma_next_is_done_once(silent(), a, b);
    }
}

/// However an answer is cut into chunks, with or without calls: one message is done
/// before it is told that the answer is complete, with just the text that was told
/// piece by piece until then. Where no text was told there is none. Nothing is done
/// behind it.
pub proof fn law_streamed_text_is_done_whole(chunks: Seq<ChatCompletionChunk>)
    ensures
        ({
            let a = stream_step(silent(), chunks);
            let all = next_step(a, complete_step(a.state));
            all.events matches Ok(e) ==> exists|k: int| {
                &&& 0 <= k < e.len()
                &&& #[trigger] e[k] is Completed
                &&& done_texts(e) == (if added_text(e.take(k)).len() == 0 {
                    Seq::<Seq<char>>::empty()
                } else {
                    seq![added_text(e.take(k))]
                })
                &&& done_texts(e.take(k)) == done_texts(e)
                &&& done_calls_of(e.take(k)) == done_calls_of(e)
            }
        }),
{
    let a = stream_step(silent(), chunks);
    let b = complete_step(a.state);
    let all = next_step(a, b);
    lemma_stream_is_done_once(chunks);
    lemma_stream_tells(chunks);
    law_completion_tells_all(a.state);
    lemma_complete_tells(a.state);
    lemma_next_is_done_once(silent(), a, b);
    if all.events is Ok {
        let e = all.events->Ok_0;
        let k = choose|k: int| #[trigger] is_done_at(silent(), e, k);
        assert(Seq::<char>::empty() + added_text(e.take(k)) =~= added_text(e.take(k)));
        assert(e[k] is Completed);
    }
}

/// A chunk says under which id the answer goes, the first time it does, and what was
/// used, the last time it does. Neither changes what was said.
pub proof fn law_chunks_note_id_and_usage(s: StreamModel, c: ChatCompletionChunk)
    ensures
        s.response_id is Some ==> noted(s, c).response_id == s.response_id,
        s.response_id is None ==> (match c.id {
            Some(id) => noted(s, c).response_id == Some(id@),
            None => noted(s, c).response_id is None,
        }),
        c.usage is Some ==> noted(s, c).usage == c.usage,
        c.usage is None ==> noted(s, c).usage == s.usage,
        noted(s, c).content == s.content,
        noted(s, c).tool_calls == s.tool_calls,
        noted(s, c).completed == s.completed,
{
}

/// A whole message is told as a streamed one is: its text, if there is any, as
/// that of who speaks, then each call. It is refused just where something other than
/// a function is called.
pub proof fn law_whole_messages_are_told(m: MessageModel)
    ensures
        message_events(m) is Err <==> exists|i: int|
            0 <= i < m.tool_calls.len() && (#[trigger] m.tool_calls[i]).kind != "function"@,
        message_events(m) matches Ok(e) ==> {
            let n: int = match m.content {
                Some(t) => if t.len() > 0 {
                    1
                } else {
                    0
                },
                None => 0,
            };
            &&& e.len() == n + m.tool_calls.len()
            &&& n == 1 ==> (e[0] matches EventModel::Done(
                ItemModel::Message { role, content, .. },
            ) && role == m.role && content == seq![ContentModel::OutputText(m.content->0)])
            &&& done_calls_of(e) == m.tool_calls.map_values(
                |c: CallModel| (c.id, c.name, c.arguments),
            )
        },
{
    lemma_calls_done(m.tool_calls, false);
    lemma_calls_len(m.tool_calls, false);
    if message_events(m) is Ok {
        let e = message_events(m)->Ok_0;
        let text = text_events(m.role, or_empty(m.content));
        let calls = call_events(m.tool_calls, false)->Ok_0;
        lemma_done_of_two(text, calls);
        let none = Seq::<EventModel>::empty();
        assert(done_calls_of(none).len() == 0);
        if text.len() > 0 {
            assert(text.drop_last() =~= none);
            assert(e[0] == text[0]);
        }
        assert(done_calls_of(text).len() == 0);
        assert(done_calls_of(e) =~= done_calls_of(calls));
    }
}

/// The messages of a whole answer are told one after the other; one that is refused
/// refuses the answer.
pub proof fn law_whole_answers_are_told_in_order(s: Seq<MessageModel>, m: MessageModel)
    ensures
        messages_events(Seq::empty()) == Ok::<_, Seq<char>>(Seq::<EventModel>::empty()),
        messages_events(s.push(m)) is Ok <==> messages_events(s) is Ok && message_events(m) is Ok,
        messages_events(s.push(m)) is Ok ==> messages_events(s.push(m))->Ok_0 == messages_events(
            s,
        )->Ok_0 + message_events(m)->Ok_0,
{
    assert(s.push(m).drop_last() =~= s);
}

/// Behind the messages of a whole answer it is told that the answer is complete,
/// under its id and with what was used.
pub proof fn law_whole_answers_are_complete(
    s: Seq<MessageModel>,
    id: Option<Seq<char>>,
    usage: Option<ChatCompletionUsage>,
)
    ensures
        answer_events(s, id, usage) is Ok <==> messages_events(s) is Ok,
        answer_events(s, id, usage) matches Ok(e) ==> {
            &&& e.len() > 0
            &&& e.drop_last() == messages_events(s)->Ok_0
            &&& e.last() matches EventModel::Completed { response_id, token_usage, can_append }
            &&& response_id == (match id {
                Some(id) => id,
                None => Seq::empty(),
            })
            &&& !can_append
            &&& match usage {
                Some(u) => token_usage matches Some(t) && t.input_tokens == u.prompt_tokens
                    && t.output_tokens == u.completion_tokens && t.total_tokens == u.total_tokens
                    && t.cached_input_tokens == 0 && t.reasoning_output_tokens == 0,
                None => token_usage is None,
            }
        },
{
    if answer_events(s, id, usage) is Ok {
        let e = answer_events(s, id, usage)->Ok_0;
        assert(e.drop_last() =~= messages_events(s)->Ok_0);
    }
}

/// The tokens of a prompt count as input and those of a completion as output; the total
/// stays, and nothing is counted as cached or as reasoning.
pub proof fn law_tokens_are_counted(u: ChatCompletionUsage)
    ensures
        usage_of(u).input_tokens == u.prompt_tokens,
        usage_of(u).output_tokens == u.completion_tokens,
        usage_of(u).total_tokens == u.total_tokens,
        usage_of(u).cached_input_tokens == 0 && usage_of(u).reasoning_output_tokens == 0,
{
}

} // verus!
