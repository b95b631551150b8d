//! Requests to model providers. Agents speak of items of a conversation; providers
//! that know chats only are sent messages instead.
//!
//! What a chat cannot carry is refused, unless the profile of the provider says to
//! leave it out.
use crate::chat_history::{
    answered_once, answers_call, called_ids, calls_made, found_output, has_its_outputs, in_order,
    is_output, law_calls_get_their_first_outputs, law_repair_keeps_what_is_said,
    law_repaired_history_holds_nothing_else, law_repaired_history_is_in_order, leading_outputs,
    lemma_after_outputs, lemma_found_behind, lemma_nothing_said, lemma_said_behind_first, lemma_said_of_one,
    lemma_said_of_two, message_models, output_message, repair_chat_tool_message_sequence, repaired,
    said, CallModel, ChatMessage, ChatToolCall, ChatToolCallFunction, MessageModel,
};
use crate::json::{document_fields, field_named, FieldModel, JsonDocument, JsonField};
use crate::text::{
    blank, chars_of, join, joined, opt_text, same_text, text_of, texts, trim, trimmed,
};
use vstd::prelude::*;

verus! {

// ---------------------------------------------------------------------------
// Providers
// ---------------------------------------------------------------------------

#[derive(Clone, Copy, Debug, PartialEq, Eq, Structural)]
pub enum ProviderCompatibility {
    ResponsesNative,
    ChatCompletionsAdapter,
}

/// What a provider can take.
#[derive(Clone, Copy, Debug, PartialEq, Eq)]
pub struct ProviderProfile {
    pub compat: ProviderCompatibility,
    pub strip_unsupported_params: bool,
    pub disable_parallel_tool_calls: bool,
    pub requires_reasoning_content_for_tool_calls: bool,
    pub max_history_messages: Option<u64>,
    pub max_message_chars: Option<u64>,
    pub max_tool_output_chars: Option<u64>,
}

impl Default for ProviderProfile {
    fn default() -> (r: ProviderProfile)
        ensures
            r == (ProviderProfile {
                compat: ProviderCompatibility::ResponsesNative,
                strip_unsupported_params: false,
                disable_parallel_tool_calls: false,
                requires_reasoning_content_for_tool_calls: false,
                max_history_messages: None,
                max_message_chars: None,
                max_tool_output_chars: None,
            }),
    {
        ProviderProfile {
            compat: ProviderCompatibility::ResponsesNative,
            strip_unsupported_params: false,
            disable_parallel_tool_calls: false,
            requires_reasoning_content_for_tool_calls: false,
            max_history_messages: None,
            max_message_chars: None,
            max_tool_output_chars: None,
        }
    }
}

#[derive(Clone, Debug, PartialEq, Eq)]
pub struct ModelProviderInfo {
    pub name: String,
    pub profile: ProviderProfile,
}

impl ModelProviderInfo {
    /// The provider that takes conversations as they are.
    pub fn create_openai_provider() -> (r: ModelProviderInfo)
        ensures
            r.name@ == "OpenAI"@,
            r.profile.compat == ProviderCompatibility::ResponsesNative,
            !r.profile.strip_unsupported_params,
    {
        ModelProviderInfo { name: "OpenAI".to_string(), profile: ProviderProfile::default() }
    }
}

/// How a provider is spoken to.
#[derive(Clone, Copy, Debug, PartialEq, Eq, Structural)]
pub enum ProviderAdapterKind {
    /// The provider takes conversations as they are.
    ResponsesNative,
    /// The provider takes chats.
    ChatCompletions,
}

/// How a provider of this compatibility is spoken to.
pub open spec fn kind_for(compat: ProviderCompatibility) -> ProviderAdapterKind {
    match compat {
        ProviderCompatibility::ResponsesNative => ProviderAdapterKind::ResponsesNative,
        ProviderCompatibility::ChatCompletionsAdapter => ProviderAdapterKind::ChatCompletions,
    }
}

impl ProviderAdapterKind {
    pub fn for_provider(provider: &ModelProviderInfo) -> (r: ProviderAdapterKind)
        ensures
            r == kind_for(provider.profile.compat),
    {
        match provider.profile.compat {
            ProviderCompatibility::ResponsesNative => ProviderAdapterKind::ResponsesNative,
            ProviderCompatibility::ChatCompletionsAdapter => ProviderAdapterKind::ChatCompletions,
        }
    }

    /// Whether answers can be streamed. They can, from either.
    pub fn ensure_stream_supported(self, provider: &ModelProviderInfo) -> (r: Result<
        (),
        ProviderError,
    >)
        ensures
            r is Ok,
    {
        match self {
            ProviderAdapterKind::ResponsesNative | ProviderAdapterKind::ChatCompletions => Ok(()),
        }
    }
}

/// What a provider cannot be asked, or cannot have said.
#[derive(Clone, Debug, PartialEq, Eq)]
pub enum ProviderError {
    UnsupportedOperation(String),
}

impl ProviderError {
    pub open spec fn text(self) -> Seq<char> {
        match self {
            ProviderError::UnsupportedOperation(t) => t@,
        }
    }

    pub fn message(&self) -> (r: String)
        ensures
            r@ == self.text(),
    {
        match self {
            ProviderError::UnsupportedOperation(t) => t.clone(),
        }
    }
}

pub fn unsupported(message: &str) -> (r: ProviderError)
    ensures
        r.text() == message@,
{
    ProviderError::UnsupportedOperation(message.to_string())
}

// ---------------------------------------------------------------------------
// Conversations
// ---------------------------------------------------------------------------

#[derive(Clone, Debug, PartialEq, Eq)]
pub enum ContentItem {
    InputText { text: String },
    OutputText { text: String },
    InputImage { image_url: String },
}

/// An item of a conversation.
#[derive(Clone, Debug, PartialEq, Eq)]
pub enum ResponseItem {
    Message {
        id: Option<String>,
        role: String,
        content: Vec<ContentItem>,
        end_turn: Option<bool>,
        phase: Option<String>,
    },
    FunctionCall { id: Option<String>, name: String, arguments: String, call_id: String },
    /// What a function gave back, if that is a text.
    FunctionCallOutput { call_id: String, output: Option<String> },
    CustomToolCallOutput { call_id: String, output: String },
    Reasoning,
    /// Any other item, and how it is shown in messages.
    Other { shown: String },
}

pub enum ContentModel {
    InputText(Seq<char>),
    OutputText(Seq<char>),
    InputImage(Seq<char>),
}

impl View for ContentItem {
    type V = ContentModel;

    open spec fn view(&self) -> ContentModel {
        match *self {
            ContentItem::InputText { text } => ContentModel::InputText(text@),
            ContentItem::OutputText { text } => ContentModel::OutputText(text@),
            ContentItem::InputImage { image_url } => ContentModel::InputImage(image_url@),
        }
    }
}

#[verifier::ext_equal]
pub enum ItemModel {
    Message {
        id: Option<Seq<char>>,
        role: Seq<char>,
        content: Seq<ContentModel>,
        end_turn: Option<bool>,
        phase: Option<Seq<char>>,
    },
    FunctionCall {
        id: Option<Seq<char>>,
        name: Seq<char>,
        arguments: Seq<char>,
        call_id: Seq<char>,
    },
    FunctionCallOutput { call_id: Seq<char>, output: Option<Seq<char>> },
    CustomToolCallOutput { call_id: Seq<char>, output: Seq<char> },
    Reasoning,
    Other(Seq<char>),
}

impl View for ResponseItem {
    type V = ItemModel;

    open spec fn view(&self) -> ItemModel {
        match *self {
            ResponseItem::Message { id, role, content, end_turn, phase } => ItemModel::Message {
                id: opt_text(id),
                role: role@,
                content: content@.map_values(|c: ContentItem| c@),
                end_turn,
                phase: opt_text(phase),
            },
            ResponseItem::FunctionCall { id, name, arguments, call_id } => ItemModel::FunctionCall {
                id: opt_text(id),
                name: name@,
                arguments: arguments@,
                call_id: call_id@,
            },
            ResponseItem::FunctionCallOutput { call_id, output } => ItemModel::FunctionCallOutput {
                call_id: call_id@,
                output: opt_text(output),
            },
            ResponseItem::CustomToolCallOutput {
                call_id,
                output,
            } => ItemModel::CustomToolCallOutput { call_id: call_id@, output: output@ },
            ResponseItem::Reasoning => ItemModel::Reasoning,
            ResponseItem::Other { shown } => ItemModel::Other(shown@),
        }
    }
}

/// A request for the next items of a conversation.
#[derive(Clone, Debug, PartialEq, Eq)]
pub struct ResponsesApiRequest {
    pub model: String,
    pub instructions: String,
    pub input: Vec<ResponseItem>,
    pub tools: Vec<JsonDocument>,
    pub tool_choice: String,
    pub parallel_tool_calls: bool,
    pub stream: bool,
}

// ---------------------------------------------------------------------------
// Chats
// ---------------------------------------------------------------------------

#[derive(Clone, Debug, PartialEq, Eq)]
pub struct ChatToolFunction {
    pub name: String,
    pub description: String,
    pub parameters: JsonField,
    pub strict: Option<bool>,
}

#[derive(Clone, Debug, PartialEq, Eq)]
pub struct ChatTool {
    pub kind: String,
    pub function: ChatToolFunction,
}

#[verifier::ext_equal]
pub struct ToolModel {
    pub kind: Seq<char>,
    pub name: Seq<char>,
    pub description: Seq<char>,
    pub parameters: FieldModel,
    pub strict: Option<bool>,
}

impl View for ChatTool {
    type V = ToolModel;

    open spec fn view(&self) -> ToolModel {
        ToolModel {
            kind: self.kind@,
            name: self.function.name@,
            description: self.function.description@,
            parameters: self.function.parameters@,
            strict: self.function.strict,
        }
    }
}

pub open spec fn tool_models(v: Seq<ChatTool>) -> Seq<ToolModel> {
    v.map_values(|t: ChatTool| t@)
}

#[derive(Clone, Debug, PartialEq, Eq)]
pub struct ChatCompletionsRequest {
    pub model: String,
    pub messages: Vec<ChatMessage>,
    pub tools: Vec<ChatTool>,
    pub tool_choice: String,
    pub parallel_tool_calls: bool,
    pub stream: bool,
}

#[verifier::ext_equal]
pub struct ChatRequestModel {
    pub model: Seq<char>,
    pub messages: Seq<MessageModel>,
    pub tools: Seq<ToolModel>,
    pub tool_choice: Seq<char>,
    pub parallel_tool_calls: bool,
    pub stream: bool,
}

impl View for ChatCompletionsRequest {
    type V = ChatRequestModel;

    open spec fn view(&self) -> ChatRequestModel {
        ChatRequestModel {
            model: self.model@,
            messages: message_models(self.messages@),
            tools: tool_models(self.tools@),
            tool_choice: self.tool_choice@,
            parallel_tool_calls: self.parallel_tool_calls,
            stream: self.stream,
        }
    }
}

// ---------------------------------------------------------------------------
// From the one to the other
// ---------------------------------------------------------------------------

/// No more than the first so many characters.
pub open spec fn shortened(value: Seq<char>, max_chars: Option<u64>) -> Seq<char> {
    match max_chars {
        Some(m) => if value.len() <= m {
            value
        } else {
            value.take(m as int)
        },
        None => value,
    }
}

/// The roles that chats know; any other speaker is a user.
pub open spec fn chat_role(role: Seq<char>) -> Seq<char> {
    if role == "system"@ || role == "user"@ || role == "assistant"@ || role == "tool"@ {
        role
    } else {
        "user"@
    }
}

pub open spec fn text_message(role: Seq<char>, content: Seq<char>) -> MessageModel {
    MessageModel {
        role: chat_role(role),
        content: Some(content),
        reasoning_content: None,
        tool_call_id: None,
        tool_calls: Seq::empty(),
    }
}

pub open spec fn call_message(
    id: Seq<char>,
    name: Seq<char>,
    arguments: Seq<char>,
    profile: ProviderProfile,
) -> MessageModel {
    MessageModel {
        role: "assistant"@,
        content: None,
        reasoning_content: if profile.requires_reasoning_content_for_tool_calls {
            Some("tool call"@)
        } else {
            None
        },
        tool_call_id: None,
        tool_calls: seq![CallModel { id, kind: "function"@, name, arguments }],
    }
}

/// The text of a part of a message: none for an image, where images are left out;
/// an error where they are not.
pub open spec fn content_text(item: ContentItem, strip: bool) -> Result<
    Option<Seq<char>>,
    Seq<char>,
> {
    match item {
        ContentItem::InputText { text } => Ok(Some(text@)),
        ContentItem::OutputText { text } => Ok(Some(text@)),
        ContentItem::InputImage { image_url } => if strip {
            Ok(None)
        } else {
            Err("image content is not supported by the chat-completions adapter"@)
        },
    }
}

/// The texts of the parts of a message, or the first error.
pub open spec fn content_texts(items: Seq<ContentItem>, strip: bool) -> Result<
    Seq<Seq<char>>,
    Seq<char>,
>
    decreases items.len(),
{
    if items.len() == 0 {
        Ok(Seq::empty())
    } else {
        match content_texts(items.drop_last(), strip) {
            Err(e) => Err(e),
            Ok(done) => match content_text(items.last(), strip) {
                Err(e) => Err(e),
                Ok(Some(t)) => Ok(done.push(t)),
                Ok(None) => Ok(done),
            },
        }
    }
}

pub open spec fn output_limit(profile: ProviderProfile) -> Option<u64> {
    match profile.max_tool_output_chars {
        Some(m) => Some(m),
        None => profile.max_message_chars,
    }
}

pub open spec fn or_empty(t: Option<Seq<char>>) -> Seq<char> {
    match t {
        Some(t) => t,
        None => Seq::empty(),
    }
}

/// The message for an item, or none where it is left out.
pub open spec fn item_message(item: ResponseItem, profile: ProviderProfile) -> Result<
    Option<MessageModel>,
    Seq<char>,
> {
    match item {
        ResponseItem::Message { id, role, content, end_turn, phase } => match content_texts(
            content@,
            profile.strip_unsupported_params,
        ) {
            Err(e) => Err(e),
            Ok(parts) => Ok(
                Some(
                    text_message(
                        role@,
                        shortened(joined(parts, "\n"@), profile.max_message_chars),
                    ),
                ),
            ),
        },
        ResponseItem::FunctionCall { id, name, arguments, call_id } => Ok(
            Some(call_message(call_id@, name@, arguments@, profile)),
        ),
        ResponseItem::FunctionCallOutput { call_id, output } => Ok(
            Some(
                output_message(
                    call_id@,
                    shortened(or_empty(opt_text(output)), output_limit(profile)),
                ),
            ),
        ),
        ResponseItem::CustomToolCallOutput { call_id, output } => Ok(
            Some(output_message(call_id@, shortened(output@, output_limit(profile)))),
        ),
        ResponseItem::Reasoning => if profile.strip_unsupported_params {
            Ok(None)
        } else {
            Err("reasoning items are not supported by the chat-completions adapter"@)
        },
        ResponseItem::Other { shown } => if profile.strip_unsupported_params {
            Ok(None)
        } else {
            Err(
                "response item type is not supported by the chat-completions adapter: "@ + shown@,
            )
        },
    }
}

/// The messages for items, or the first error.
pub open spec fn item_messages(items: Seq<ResponseItem>, profile: ProviderProfile) -> Result<
    Seq<MessageModel>,
    Seq<char>,
>
    decreases items.len(),
{
    if items.len() == 0 {
        Ok(Seq::empty())
    } else {
        match item_messages(items.drop_last(), profile) {
            Err(e) => Err(e),
            Ok(done) => match item_message(items.last(), profile) {
                Err(e) => Err(e),
                Ok(Some(m)) => Ok(done.push(m)),
                Ok(None) => Ok(done),
            },
        }
    }
}

/// The last items, no more than the profile admits; 0 admits all.
pub open spec fn recent_items(items: Seq<ResponseItem>, profile: ProviderProfile) -> Seq<
    ResponseItem,
> {
    match profile.max_history_messages {
        Some(m) => if m == 0 || items.len() <= m {
            items
        } else {
            items.skip(items.len() - m)
        },
        None => items,
    }
}

pub open spec fn field_of(tool: JsonDocument, name: Seq<char>) -> Option<FieldModel> {
    match document_fields(tool) {
        Some(fields) => field_named(fields, name),
        None => None,
    }
}

pub open spec fn text_field(tool: JsonDocument, name: Seq<char>) -> Option<Seq<char>> {
    match field_of(tool, name) {
        Some(FieldModel::Text(t)) => Some(t),
        _ => None,
    }
}

/// The tool of a chat for a tool, or none where it is left out.
pub open spec fn chat_tool(tool: JsonDocument, strip: bool) -> Result<
    Option<ToolModel>,
    Seq<char>,
> {
    match text_field(tool, "type"@) {
        None => if strip {
            Ok(None)
        } else {
            Err("tool is missing string field 'type'"@)
        },
        Some(kind) => if kind != "function"@ {
            if strip {
                Ok(None)
            } else {
                Err(
                    "tool type '"@ + kind + "' is not supported by the chat-completions adapter"@,
                )
            }
        } else {
            match text_field(tool, "name"@) {
                None => Err("function tool is missing string field 'name'"@),
                Some(name) => Ok(
                    Some(
                        ToolModel {
                            kind: "function"@,
                            name,
                            description: or_empty(text_field(tool, "description"@)),
                            parameters: match field_of(tool, "parameters"@) {
                                Some(p) => p,
                                None => FieldModel::Nested("{}"@, "{}"@),
                            },
                            strict: match field_of(tool, "strict"@) {
                                Some(FieldModel::Bool(b)) => Some(b),
                                _ => None,
                            },
                        },
                    ),
                ),
            }
        },
    }
}

/// The tools of a chat for tools, or the first error.
pub open spec fn chat_tools(tools: Seq<JsonDocument>, strip: bool) -> Result<
    Seq<ToolModel>,
    Seq<char>,
>
    decreases tools.len(),
{
    if tools.len() == 0 {
        Ok(Seq::empty())
    } else {
        match chat_tools(tools.drop_last(), strip) {
            Err(e) => Err(e),
            Ok(done) => match chat_tool(tools.last(), strip) {
                Err(e) => Err(e),
                Ok(Some(t)) => Ok(done.push(t)),
                Ok(None) => Ok(done),
            },
        }
    }
}

pub open spec fn chat_tool_choice(choice: Seq<char>, strip: bool) -> Result<Seq<char>, Seq<char>> {
    if choice == "auto"@ || choice == "none"@ || strip {
        Ok(choice)
    } else {
        Err("tool_choice '"@ + choice + "' is not supported by the chat-completions adapter"@)
    }
}

/// The message that instructs the model, if there is anything to say.
pub open spec fn system_messages(instructions: Seq<char>, profile: ProviderProfile) -> Seq<
    MessageModel,
> {
    if trim(instructions).len() == 0 {
        Seq::empty()
    } else {
        seq![text_message("system"@, shortened(instructions, profile.max_message_chars))]
    }
}

/// The request of a chat for a request of a conversation. The first that a chat
/// cannot carry refuses it: of the items, of the tools, or the choice of tools.
pub open spec fn chat_request(request: ResponsesApiRequest, profile: ProviderProfile) -> Result<
    ChatRequestModel,
    Seq<char>,
> {
    match item_messages(recent_items(request.input@, profile), profile) {
        Err(e) => Err(e),
        Ok(messages) => match chat_tools(request.tools@, profile.strip_unsupported_params) {
            Err(e) => Err(e),
            Ok(tools) => match chat_tool_choice(
                request.tool_choice@,
                profile.strip_unsupported_params,
            ) {
                Err(e) => Err(e),
                Ok(tool_choice) => Ok(
                    ChatRequestModel {
                        model: request.model@,
                        messages: repaired(
                            system_messages(request.instructions@, profile) + messages,
                        ),
                        tools,
                        tool_choice,
                        parallel_tool_calls: request.parallel_tool_calls
                            && !profile.disable_parallel_tool_calls,
                        stream: request.stream,
                    },
                ),
            },
        },
    }
}

// ---------------------------------------------------------------------------
// Functions
// ---------------------------------------------------------------------------

pub fn truncate_chars(value: &str, max_chars: Option<u64>) -> (r: String)
    ensures
        r@ == shortened(value@, max_chars),
{
    match max_chars {
        None => value.to_string(),
        Some(m) => {
            let chars = chars_of(value);
            if chars.len() as u64 <= m {
                return value.to_string();
            }
            let n: usize = m as usize;
            assert(chars@.subrange(0, n as int) =~= value@.take(n as int));
            text_of(&chars, 0, n)
        },
    }
}

pub fn normalize_chat_message_role(role: &str) -> (r: String)
    ensures
        r@ == chat_role(role@),
{
    if same_text(role, "system") || same_text(role, "user") || same_text(role, "assistant")
        || same_text(role, "tool") {
        role.to_string()
    } else {
        "user".to_string()
    }
}

impl ChatMessage {
    pub fn text(role: &str, content: &str) -> (r: ChatMessage)
        ensures
            r@ == text_message(role@, content@),
    {
        let r = ChatMessage {
            role: normalize_chat_message_role(role),
            content: Some(content.to_string()),
            reasoning_content: None,
            tool_call_id: None,
            tool_calls: Vec::new(),
        };
        assert(r@ =~= text_message(role@, content@));
        r
    }

    pub fn tool_call(call_id: &str, name: &str, arguments: &str, profile: &ProviderProfile) -> (r:
        ChatMessage)
        ensures
            r@ == call_message(call_id@, name@, arguments@, *profile),
    {
        let reasoning_content = if profile.requires_reasoning_content_for_tool_calls {
            Some("tool call".to_string())
        } else {
            None
        };
        let r = ChatMessage {
            role: "assistant".to_string(),
            content: None,
            reasoning_content,
            tool_call_id: None,
            tool_calls: vec![
                ChatToolCall {
                    id: call_id.to_string(),
                    kind: "function".to_string(),
                    function: ChatToolCallFunction {
                        name: name.to_string(),
                        arguments: arguments.to_string(),
                    },
                },
            ],
        };
        assert(r@ =~= call_message(call_id@, name@, arguments@, *profile));
        r
    }
}

/// The text of a message, or what of it a chat cannot carry.
pub fn content_items_to_text(items: &Vec<ContentItem>, profile: &ProviderProfile) -> (r: Result<
    String,
    ProviderError,
>)
    ensures
        match (r, content_texts(items@, profile.strip_unsupported_params)) {
            (Ok(t), Ok(parts)) => t@ == joined(parts, "\n"@),
            (Err(e), Err(t)) => e.text() == t,
            _ => false,
        },
{
    let ghost strip = profile.strip_unsupported_params;
    let mut parts: Vec<String> = Vec::new();
    let mut i: usize = 0;
    proof {
        assert(items@.take(0) =~= Seq::<ContentItem>::empty());
        assert(texts(parts@) =~= Seq::<Seq<char>>::empty());
    }
    while i < items.len()
        invariant
            i <= items@.len(),
            strip == profile.strip_unsupported_params,
            content_texts(items@.take(i as int), strip) == Ok::<_, Seq<char>>(texts(parts@)),
        decreases items@.len() - i,
    {
        let ghost before = texts(parts@);
        proof {
            assert(items@.take(i + 1).drop_last() =~= items@.take(i as int));
            assert(items@.take(i + 1).last() == items@[i as int]);
        }
        match &items[i] {
            ContentItem::InputText { text } => {
                parts.push(text.clone());
                assert(texts(parts@) =~= before.push(text@));
            },
            ContentItem::OutputText { text } => {
                parts.push(text.clone());
                assert(texts(parts@) =~= before.push(text@));
            },
            ContentItem::InputImage { .. } => {
                if !profile.strip_unsupported_params {
                    proof {
                        lemma_contents_stop(items@, i + 1, strip);
                    }
                    return Err(
                        unsupported("image content is not supported by the chat-completions adapter"),
                    );
                }
            },
        }
        i = i + 1;
    }
    assert(items@.take(i as int) =~= items@);
    Ok(join(&parts, "\n"))
}

proof fn lemma_contents_stop(items: Seq<ContentItem>, n: int, strip: bool)
    requires
        0 <= n <= items.len(),
        content_texts(items.take(n), strip) is Err,
    ensures
        content_texts(items, strip) == content_texts(items.take(n), strip),
    decreases items.len(),
{
    if n == items.len() {
        assert(items.take(n) =~= items);
    } else {
        let front = items.drop_last();
        assert(front.take(n) =~= items.take(n));
        lemma_contents_stop(front, n, strip);
    }
}

fn opt_str_or_empty<'a>(t: &'a Option<String>) -> (r: &'a str)
    ensures
        r@ == or_empty(opt_text(*t)),
{
    match t {
        Some(t) => t.as_str(),
        None => {
            proof {
                reveal_strlit("");
                assert(""@ =~= Seq::<char>::empty());
            }
            ""
        },
    }
}

fn tool_output_limit(profile: &ProviderProfile) -> (r: Option<u64>)
    ensures
        r == output_limit(*profile),
{
    match profile.max_tool_output_chars {
        Some(m) => Some(m),
        None => profile.max_message_chars,
    }
}

/// The message for an item.
pub fn response_item_to_chat_message(item: &ResponseItem, profile: &ProviderProfile) -> (r: Result<
    Option<ChatMessage>,
    ProviderError,
>)
    ensures
        match (r, item_message(*item, *profile)) {
            (Ok(Some(m)), Ok(Some(x))) => m@ == x,
            (Ok(None), Ok(None)) => true,
            (Err(e), Err(t)) => e.text() == t,
            _ => false,
        },
{
    match item {
        ResponseItem::Message { role, content, .. } => {
            match content_items_to_text(content, profile) {
                Err(e) => Err(e),
                Ok(t) => {
                    let short = truncate_chars(t.as_str(), profile.max_message_chars);
                    Ok(Some(ChatMessage::text(role.as_str(), short.as_str())))
                },
            }
        },
        ResponseItem::FunctionCall { name, arguments, call_id, .. } => Ok(
            Some(
                ChatMessage::tool_call(
                    call_id.as_str(),
                    name.as_str(),
                    arguments.as_str(),
                    profile,
                ),
            ),
        ),
        ResponseItem::FunctionCallOutput { call_id, output } => {
            let short = truncate_chars(opt_str_or_empty(output), tool_output_limit(profile));
            Ok(Some(ChatMessage::tool_output(call_id.as_str(), short.as_str())))
        },
        ResponseItem::CustomToolCallOutput { call_id, output } => {
            let short = truncate_chars(output.as_str(), tool_output_limit(profile));
            Ok(Some(ChatMessage::tool_output(call_id.as_str(), short.as_str())))
        },
        ResponseItem::Reasoning => if profile.strip_unsupported_params {
            Ok(None)
        } else {
            Err(unsupported("reasoning items are not supported by the chat-completions adapter"))
        },
        ResponseItem::Other { shown } => if profile.strip_unsupported_params {
            Ok(None)
        } else {
            let mut text =
                "response item type is not supported by the chat-completions adapter: ".to_string();
            text.append(shown.as_str());
            Err(ProviderError::UnsupportedOperation(text))
        },
    }
}

/// From which item on the items are sent.
pub fn bounded_history_items(items: &Vec<ResponseItem>, profile: &ProviderProfile) -> (r: usize)
    ensures
        r <= items@.len(),
        recent_items(items@, *profile) == items@.skip(r as int),
{
    assert(items@.skip(0) =~= items@);
    match profile.max_history_messages {
        None => 0,
        Some(m) => {
            let n: usize = items.len();
            if m == 0 || n as u64 <= m {
                0
            } else {
                n - (m as usize)
            }
        },
    }
}

proof fn lemma_items_stop(items: Seq<ResponseItem>, n: int, profile: ProviderProfile)
    requires
        0 <= n <= items.len(),
        item_messages(items.take(n), profile) is Err,
    ensures
        item_messages(items, profile) == item_messages(items.take(n), profile),
    decreases items.len(),
{
    if n == items.len() {
        assert(items.take(n) =~= items);
    } else {
        let front = items.drop_last();
        assert(front.take(n) =~= items.take(n));
        lemma_items_stop(front, n, profile);
    }
}

/// Puts the messages for the items from `from` on behind those that are there.
fn push_item_messages(
    messages: &mut Vec<ChatMessage>,
    items: &Vec<ResponseItem>,
    from: usize,
    profile: &ProviderProfile,
) -> (r: Result<(), ProviderError>)
    requires
        from <= items@.len(),
    ensures
        match (r, item_messages(items@.skip(from as int), *profile)) {
            (Ok(_), Ok(more)) => message_models(final(messages)@) == message_models(
                old(messages)@,
            ) + more,
            (Err(e), Err(t)) => e.text() == t,
            _ => false,
        },
{
    let ghost start = message_models(messages@);
    let ghost s = items@.skip(from as int);
    let ghost mut done: Seq<MessageModel> = Seq::empty();
    let mut i: usize = from;
    proof {
        assert(s.take(0) =~= Seq::<ResponseItem>::empty());
        assert(start + done =~= start);
    }
    while i < items.len()
        invariant
            from <= i <= items@.len(),
            s == items@.skip(from as int),
            item_messages(s.take(i - from), *profile) == Ok::<_, Seq<char>>(done),
            message_models(messages@) == start + done,
        decreases items@.len() - i,
    {
        proof {
            assert(s.take(i + 1 - from).drop_last() =~= s.take(i - from));
            assert(s.take(i + 1 - from).last() == items@[i as int]);
        }
        match response_item_to_chat_message(&items[i], profile) {
            Ok(Some(m)) => {
                let ghost before = message_models(messages@);
                messages.push(m);
                proof {
                    assert(message_models(messages@) =~= before.push(m@));
                    assert(start + done.push(m@) =~= (start + done).push(m@));
                    done = done.push(m@);
                }
            },
            Ok(None) => {},
            Err(e) => {
                proof {
                    lemma_items_stop(s, i + 1 - from, *profile);
                }
                return Err(e);
            },
        }
        i = i + 1;
    }
    assert(s.take(i - from) =~= s);
    Ok(())
}

fn tool_field<'a>(tool: &'a JsonDocument, name: &str) -> (r: Option<&'a JsonField>)
    ensures
        match r {
            Some(f) => field_of(*tool, name@) == Some(f@),
            None => field_of(*tool, name@) is None,
        },
{
    match tool {
        JsonDocument::Object(o) => o.get(name),
        JsonDocument::NotAnObject => None,
    }
}

fn tool_text<'a>(tool: &'a JsonDocument, name: &str) -> (r: Option<&'a str>)
    ensures
        match r {
            Some(t) => text_field(*tool, name@) == Some(t@),
            None => text_field(*tool, name@) is None,
        },
{
    match tool_field(tool, name) {
        Some(JsonField::Text(t)) => Some(t.as_str()),
        _ => None,
    }
}

/// The tool of a chat for a tool.
pub fn response_tool_to_chat_tool(tool: &JsonDocument, profile: &ProviderProfile) -> (r: Result<
    Option<ChatTool>,
    ProviderError,
>)
    ensures
        match (r, chat_tool(*tool, profile.strip_unsupported_params)) {
            (Ok(Some(t)), Ok(Some(x))) => t@ == x,
            (Ok(None), Ok(None)) => true,
            (Err(e), Err(t)) => e.text() == t,
            _ => false,
        },
{
    let strip = profile.strip_unsupported_params;
    let kind = match tool_text(tool, "type") {
        Some(k) => k,
        None => {
            if strip {
                return Ok(None);
            }
            return Err(unsupported("tool is missing string field 'type'"));
        },
    };
    if !same_text(kind, "function") {
        if strip {
            return Ok(None);
        }
        let mut text = "tool type '".to_string();
        text.append(kind);
        text.append("' is not supported by the chat-completions adapter");
        return Err(ProviderError::UnsupportedOperation(text));
    }
    let name = match tool_text(tool, "name") {
        Some(n) => n,
        None => {
            return Err(unsupported("function tool is missing string field 'name'"));
        },
    };
    let description = match tool_text(tool, "description") {
        Some(d) => d.to_string(),
        None => {
            proof {
                reveal_strlit("");
                assert(""@ =~= Seq::<char>::empty());
            }
            "".to_string()
        },
    };
    let parameters = match tool_field(tool, "parameters") {
        Some(p) => p.copy(),
        None => JsonField::Nested { compact: "{}".to_string(), shown: "{}".to_string() },
    };
    let strict = match tool_field(tool, "strict") {
        Some(JsonField::Bool(b)) => Some(*b),
        _ => None,
    };
    Ok(
        Some(
            ChatTool {
                kind: "function".to_string(),
                function: ChatToolFunction {
                    name: name.to_string(),
                    description,
                    parameters,
                    strict,
                },
            },
        ),
    )
}

proof fn lemma_tools_stop(tools: Seq<JsonDocument>, n: int, strip: bool)
    requires
        0 <= n <= tools.len(),
        chat_tools(tools.take(n), strip) is Err,
    ensures
        chat_tools(tools, strip) == chat_tools(tools.take(n), strip),
    decreases tools.len(),
{
    if n == tools.len() {
        assert(tools.take(n) =~= tools);
    } else {
        let front = tools.drop_last();
        assert(front.take(n) =~= tools.take(n));
        lemma_tools_stop(front, n, strip);
    }
}

/// The tools of a chat for tools.
pub fn responses_tools_to_chat_tools(tools: &Vec<JsonDocument>, profile: &ProviderProfile) -> (r:
    Result<Vec<ChatTool>, ProviderError>)
    ensures
        match (r, chat_tools(tools@, profile.strip_unsupported_params)) {
            (Ok(v), Ok(x)) => tool_models(v@) == x,
            (Err(e), Err(t)) => e.text() == t,
            _ => false,
        },
{
    let ghost strip = profile.strip_unsupported_params;
    let mut out: Vec<ChatTool> = Vec::new();
    let mut i: usize = 0;
    proof {
        assert(tools@.take(0) =~= Seq::<JsonDocument>::empty());
        assert(tool_models(out@) =~= Seq::<ToolModel>::empty());
    }
    while i < tools.len()
        invariant
            i <= tools@.len(),
            strip == profile.strip_unsupported_params,
            chat_tools(tools@.take(i as int), strip) == Ok::<_, Seq<char>>(tool_models(out@)),
        decreases tools@.len() - i,
    {
        proof {
            assert(tools@.take(i + 1).drop_last() =~= tools@.take(i as int));
            assert(tools@.take(i + 1).last() == tools@[i as int]);
        }
        match response_tool_to_chat_tool(&tools[i], profile) {
            Ok(Some(t)) => {
                let ghost before = tool_models(out@);
                out.push(t);
                assert(tool_models(out@) =~= before.push(t@));
            },
            Ok(None) => {},
            Err(e) => {
                proof {
                    lemma_tools_stop(tools@, i + 1, strip);
                }
                return Err(e);
            },
        }
        i = i + 1;
    }
    assert(tools@.take(i as int) =~= tools@);
    Ok(out)
}

pub fn normalize_tool_choice(tool_choice: &str, profile: &ProviderProfile) -> (r: Result<
    String,
    ProviderError,
>)
    ensures
        match (r, chat_tool_choice(tool_choice@, profile.strip_unsupported_params)) {
            (Ok(t), Ok(x)) => t@ == x,
            (Err(e), Err(t)) => e.text() == t,
            _ => false,
        },
{
    if same_text(tool_choice, "auto") || same_text(tool_choice, "none")
        || profile.strip_unsupported_params {
        Ok(tool_choice.to_string())
    } else {
        let mut text = "tool_choice '".to_string();
        text.append(tool_choice);
        text.append("' is not supported by the chat-completions adapter");
        Err(ProviderError::UnsupportedOperation(text))
    }
}

/// The request of a chat for a request of a conversation.
pub fn responses_request_to_chat_request(
    request: &ResponsesApiRequest,
    profile: &ProviderProfile,
) -> (r: Result<ChatCompletionsRequest, ProviderError>)
    ensures
        match (r, chat_request(*request, *profile)) {
            (Ok(c), Ok(x)) => c@ == x,
            (Err(e), Err(t)) => e.text() == t,
            _ => false,
        },
{
    let mut messages: Vec<ChatMessage> = Vec::new();
    assert(message_models(messages@) =~= Seq::<MessageModel>::empty());
    if chars_of(trimmed(request.instructions.as_str())).len() > 0 {
        let text = truncate_chars(request.instructions.as_str(), profile.max_message_chars);
        messages.push(ChatMessage::text("system", text.as_str()));
    }
    assert(message_models(messages@) =~= system_messages(request.instructions@, *profile));
    let from = bounded_history_items(&request.input, profile);
    if let Err(e) = push_item_messages(&mut messages, &request.input, from, profile) {
        return Err(e);
    }
    repair_chat_tool_message_sequence(&mut messages);
    let tools = match responses_tools_to_chat_tools(&request.tools, profile) {
        Ok(t) => t,
        Err(e) => {
            return Err(e);
        },
    };
    let tool_choice = match normalize_tool_choice(request.tool_choice.as_str(), profile) {
        Ok(t) => t,
        Err(e) => {
            return Err(e);
        },
    };
    Ok(
        ChatCompletionsRequest {
            model: request.model.clone(),
            messages,
            tools,
            tool_choice,
            parallel_tool_calls: request.parallel_tool_calls
                && !profile.disable_parallel_tool_calls,
            stream: request.stream,
        },
    )
}

// ---------------------------------------------------------------------------
// Laws
// ---------------------------------------------------------------------------

/// What a chat cannot carry refuses the request: an item that has no message makes
/// that of all items fail.
pub proof fn law_unsupported_items_fail_closed(
    items: Seq<ResponseItem>,
    k: int,
    profile: ProviderProfile,
)
    requires
        0 <= k < items.len(),
        item_message(items[k], profile) is Err,
    ensures
        item_messages(items, profile) is Err,
    decreases items.len(),
{
    if k == items.len() - 1 {
    } else {
        assert(items.drop_last()[k] == items[k]);
        law_unsupported_items_fail_closed(items.drop_last(), k, profile);
    }
}

/// A profile that leaves out what a chat cannot carry refuses no item and no choice
/// of tools.
pub proof fn law_stripping_profiles_accept_all_items(
    items: Seq<ResponseItem>,
    choice: Seq<char>,
    profile: ProviderProfile,
)
    requires
        profile.strip_unsupported_params,
    ensures
        item_messages(items, profile) is Ok,
        chat_tool_choice(choice, profile.strip_unsupported_params) is Ok,
    decreases items.len(),
{
    if items.len() > 0 {
        law_stripping_profiles_accept_all_items(items.drop_last(), choice, profile);
        if let ResponseItem::Message { id, role, content, end_turn, phase } = items.last() {
            lemma_contents_accepted(content@);
        }
    }
}

proof fn lemma_contents_accepted(items: Seq<ContentItem>)
    ensures
        content_texts(items, true) is Ok,
    decreases items.len(),
{
    if items.len() > 0 {
        lemma_contents_accepted(items.drop_last());
    }
}

proof fn lemma_one_call_each(items: Seq<ResponseItem>, profile: ProviderProfile)
    ensures
        item_messages(items, profile) matches Ok(ms) ==> forall|i: int|
            0 <= i < ms.len() ==> (#[trigger] ms[i]).tool_calls.len() <= 1,
    decreases items.len(),
{
    if items.len() > 0 {
        lemma_one_call_each(items.drop_last(), profile);
    }
}

/// The messages of a chat request are in the order that chat providers demand, and
/// each call has one output.
pub proof fn law_chat_requests_are_in_order(request: ResponsesApiRequest, profile: ProviderProfile)
    ensures
        chat_request(request, profile) matches Ok(c) ==> in_order(c.messages) && answered_once(
            c.messages,
        ),
{
    if chat_request(request, profile) is Ok {
        let items = recent_items(request.input@, profile);
        let ms = item_messages(items, profile)->Ok_0;
        let all = system_messages(request.instructions@, profile) + ms;
        lemma_one_call_each(items, profile);
        assert forall|i: int| 0 <= i < all.len() implies called_ids(
            #[trigger] all[i],
        ).no_duplicates() by {
            let n = system_messages(request.instructions@, profile).len();
            if i >= n {
                assert(all[i] == ms[i - n]);
            }
        }
        law_repaired_history_is_in_order(all);
    }
}

/// The first item of so many that is sent where a profile admits so many; 0 and
/// nothing admit all.
pub open spec fn first_sent(n: nat, max: Option<u64>) -> int {
    match max {
        Some(m) => if 0 < m && m < n {
            n - m
        } else {
            0
        },
        None => 0,
    }
}

/// Whether a text is the start of another one: all of it, unless it may only have
/// so many characters; then as many of it as may be.
pub open spec fn is_start_of(t: Seq<char>, whole: Seq<char>, max: Option<u64>) -> bool {
    &&& t.len() <= whole.len()
    &&& t == whole.take(t.len() as int)
    &&& match max {
        Some(m) => t.len() == m || (t.len() < m && t == whole),
        None => t == whole,
    }
}

/// The texts of a message, one per line; images are no texts.
pub open spec fn lines_of(content: Seq<ContentItem>) -> Seq<Seq<char>> {
    content.filter(|c: ContentItem| c is InputText || c is OutputText).map_values(
        |c: ContentItem|
            match c {
                ContentItem::InputText { text } => text@,
                ContentItem::OutputText { text } => text@,
                ContentItem::InputImage { image_url } => Seq::<char>::empty(),
            },
    )
}

/// Whether an item is something that is said: a message of anybody but a tool, or a
/// call.
pub open spec fn is_spoken(item: ResponseItem) -> bool {
    match item {
        ResponseItem::Message { role, .. } => role@ != "tool"@,
        ResponseItem::FunctionCall { .. } => true,
        _ => false,
    }
}

/// Whether a message of a chat carries what an item says: who says it, all of the
/// text or as much as may be sent, and the call that is made.
pub open spec fn carries(m: MessageModel, item: ResponseItem, profile: ProviderProfile) -> bool {
    match item {
        ResponseItem::Message { role, content, .. } => {
            &&& role@ == "system"@ ==> m.role == "system"@
            &&& role@ == "user"@ ==> m.role == "user"@
            &&& role@ == "assistant"@ ==> m.role == "assistant"@
            &&& role@ == "tool"@ ==> m.role == "tool"@
            &&& role@ != "system"@ && role@ != "user"@ && role@ != "assistant"@ && role@ != "tool"@
                ==> m.role == "user"@
            &&& m.content matches Some(t) && is_start_of(
                t,
                joined(lines_of(content@), "\n"@),
                profile.max_message_chars,
            )
            &&& m.reasoning_content is None
            &&& m.tool_call_id is None
            &&& m.tool_calls.len() == 0
        },
        ResponseItem::FunctionCall { name, arguments, call_id, .. } => {
            &&& m.role == "assistant"@
            &&& m.content is None
            &&& m.reasoning_content is Some == profile.requires_reasoning_content_for_tool_calls
            &&& m.tool_call_id is None
            &&& m.tool_calls.len() == 1
            &&& m.tool_calls[0].id == call_id@
            &&& m.tool_calls[0].name == name@
            &&& m.tool_calls[0].arguments == arguments@
            &&& m.tool_calls[0].kind == "function"@
        },
        _ => false,
    }
}

/// What comes back for a call: the first output for it among these items.
pub open spec fn first_answer(items: Seq<ResponseItem>, id: Seq<char>) -> Option<Seq<char>>
    decreases items.len(),
{
    if items.len() == 0 {
        None
    } else {
        match items[0] {
            ResponseItem::FunctionCallOutput { call_id, output } => if call_id@ == id {
                match output {
                    Some(t) => Some(t@),
                    None => Some(Seq::empty()),
                }
            } else {
                first_answer(items.skip(1), id)
            },
            ResponseItem::CustomToolCallOutput { call_id, output } => if call_id@ == id {
                Some(output@)
            } else {
                first_answer(items.skip(1), id)
            },
            _ => first_answer(items.skip(1), id),
        }
    }
}

/// Whether a message hands the output of a call back: all of it or as much as may
/// be sent, and that the call was aborted where there is none.
pub open spec fn hands_back(
    m: MessageModel,
    id: Seq<char>,
    answer: Option<Seq<char>>,
    profile: ProviderProfile,
) -> bool {
    &&& m.role == "tool"@
    &&& m.tool_call_id == Some(id)
    &&& m.tool_calls.len() == 0
    &&& m.content matches Some(t) && match answer {
        Some(whole) => is_start_of(
            t,
            whole,
            if profile.max_tool_output_chars is Some {
                profile.max_tool_output_chars
            } else {
                profile.max_message_chars
            },
        ),
        None => t == "aborted"@,
    }
}

/// Whether a chat cannot carry an item.
pub open spec fn is_beyond_chats(item: ResponseItem) -> bool {
    match item {
        ResponseItem::Message { content, .. } => exists|i: int|
            0 <= i < content@.len() && #[trigger] content@[i] is InputImage,
        ResponseItem::Reasoning => true,
        ResponseItem::Other { .. } => true,
        _ => false,
    }
}

proof fn lemma_is_start(value: Seq<char>, max: Option<u64>)
    ensures
        is_start_of(shortened(value, max), value, max),
{
    assert(value.take(value.len() as int) =~= value);
}

proof fn lemma_lines(items: Seq<ContentItem>, strip: bool)
    ensures
        content_texts(items, strip) matches Ok(parts) ==> parts == lines_of(items),
        content_texts(items, strip) is Err <==> !strip && exists|i: int|
            0 <= i < items.len() && #[trigger] items[i] is InputImage,
    decreases items.len(),
{
    reveal(Seq::filter);
    if items.len() == 0 {
        assert(lines_of(items) =~= Seq::<Seq<char>>::empty());
    } else {
        let front = items.drop_last();
        lemma_lines(front, strip);
        if content_texts(items, strip) is Ok {
            let parts = content_texts(items, strip)->Ok_0;
            assert(parts =~= lines_of(items));
        }
        if exists|i: int| 0 <= i < front.len() && #[trigger] front[i] is InputImage {
            let i = choose|i: int| 0 <= i < front.len() && #[trigger] front[i] is InputImage;
            assert(items[i] is InputImage);
        }
        if items.last() is InputImage {
            assert(items[items.len() - 1] is InputImage);
        }
        if exists|i: int| 0 <= i < items.len() && #[trigger] items[i] is InputImage {
            let i = choose|i: int| 0 <= i < items.len() && #[trigger] items[i] is InputImage;
            if i < front.len() {
                assert(front[i] is InputImage);
            }
        }
    }
}

proof fn lemma_roles_differ()
    ensures
        "system"@ != "tool"@,
        "user"@ != "tool"@,
        "assistant"@ != "tool"@,
{
    reveal_strlit("system");
    reveal_strlit("user");
    reveal_strlit("assistant");
    reveal_strlit("tool");
    assert("system"@.len() != "tool"@.len());
    assert("user"@[0] != "tool"@[0]);
    assert("assistant"@.len() != "tool"@.len());
}

proof fn lemma_item(item: ResponseItem, profile: ProviderProfile)
    ensures
        item_message(item, profile) is Err <==> !profile.strip_unsupported_params
            && is_beyond_chats(item),
        item_message(item, profile) matches Ok(Some(m)) ==> {
            &&& (is_spoken(item) ==> carries(m, item, profile))
            &&& is_spoken(item) == (m.role != "tool"@)
            &&& called_ids(m) == item_calls(item)
        },
        item_message(item, profile) matches Ok(None) ==> !is_spoken(item) && item_calls(item)
            == Seq::<Seq<char>>::empty(),
{
    lemma_roles_differ();
    if let ResponseItem::Message { id, role, content, end_turn, phase } = item {
        lemma_lines(content@, profile.strip_unsupported_params);
        lemma_is_start(joined(lines_of(content@), "\n"@), profile.max_message_chars);
    }
    if let Ok(Some(m)) = item_message(item, profile) {
        assert(called_ids(m) =~= item_calls(item));
    }
}

/// The call that an item makes, if it makes one.
pub open spec fn item_calls(item: ResponseItem) -> Seq<Seq<char>> {
    match item {
        ResponseItem::FunctionCall { call_id, .. } => seq![call_id@],
        _ => Seq::empty(),
    }
}

proof fn lemma_told(items: Seq<ResponseItem>, profile: ProviderProfile)
    ensures
        item_messages(items, profile) matches Ok(ms) ==> {
            let told = said(ms);
            let spoken = items.filter(|i: ResponseItem| is_spoken(i));
            &&& told.len() == spoken.len()
            &&& forall|j: int|
                0 <= j < told.len() ==> carries(#[trigger] told[j], spoken[j], profile)
        },
        item_messages(items, profile) is Err <==> !profile.strip_unsupported_params && exists|i: int|
            0 <= i < items.len() && is_beyond_chats(#[trigger] items[i]),
    decreases items.len(),
{
    reveal(Seq::filter);
    let p = |i: ResponseItem| is_spoken(i);
    if items.len() > 0 {
        let front = items.drop_last();
        lemma_told(front, profile);
        lemma_item(items.last(), profile);
        if item_messages(items, profile) is Ok {
            let ms = item_messages(items, profile)->Ok_0;
            let before = item_messages(front, profile)->Ok_0;
            if item_message(items.last(), profile)->Ok_0 is Some {
                assert(ms.drop_last() =~= before);
            }
        }
        if exists|i: int| 0 <= i < front.len() && is_beyond_chats(#[trigger] front[i]) {
            let i = choose|i: int| 0 <= i < front.len() && is_beyond_chats(#[trigger] front[i]);
            assert(is_beyond_chats(items[i]));
        }
        if is_beyond_chats(items.last()) {
            assert(is_beyond_chats(items[items.len() - 1]));
        }
        if exists|i: int| 0 <= i < items.len() && is_beyond_chats(#[trigger] items[i]) {
            let i = choose|i: int| 0 <= i < items.len() && is_beyond_chats(#[trigger] items[i]);
            if i < front.len() {
                assert(is_beyond_chats(front[i]));
            }
        }
    }
}

proof fn lemma_same_filter<A>(s: Seq<A>, p: spec_fn(A) -> bool, q: spec_fn(A) -> bool)
    requires
        forall|x: A| #[trigger] p(x) == q(x),
    ensures
        s.filter(p) == s.filter(q),
    decreases s.len(),
{
    reveal(Seq::filter);
    if s.len() > 0 {
        lemma_same_filter(s.drop_last(), p, q);
    } else {
        assert(s.filter(p) =~= s.filter(q));
    }
}

proof fn lemma_sent(request: ResponsesApiRequest, profile: ProviderProfile)
    ensures
        recent_items(request.input@, profile) == request.input@.skip(
            first_sent(request.input@.len(), profile.max_history_messages),
        ),
{
    assert(request.input@.skip(0) =~= request.input@);
}

/// A chat request tells the whole conversation, or its last items where the profile
/// admits no more. Behind the instructions, if there are any, stands a message for
/// each message and each call, in their order; it has the role of who speaks, the
/// text that is said, and the call that is made.
pub proof fn law_chats_tell_the_conversation(
    request: ResponsesApiRequest,
    profile: ProviderProfile,
    chat: ChatRequestModel,
)
    requires
        chat_request(request, profile) == Ok::<_, Seq<char>>(chat),
    ensures
        ({
            let sent = request.input@.skip(
                first_sent(request.input@.len(), profile.max_history_messages),
            );
            let spoken = sent.filter(|i: ResponseItem| is_spoken(i));
            let told = chat.messages.filter(|m: MessageModel| m.role != "tool"@);
            let k: int = if blank(request.instructions@) {
                0
            } else {
                1
            };
            &&& told.len() == k + spoken.len()
            &&& k == 1 ==> told[0].role == "system"@ && told[0].tool_calls.len() == 0
                && told[0].content is Some && is_start_of(
                told[0].content->0,
                request.instructions@,
                profile.max_message_chars,
            )
            &&& forall|j: int|
                0 <= j < spoken.len() ==> carries(#[trigger] told[k + j], spoken[j], profile)
        }),
{
    let sent = recent_items(request.input@, profile);
    let spoken = sent.filter(|i: ResponseItem| is_spoken(i));
    let ms = item_messages(sent, profile)->Ok_0;
    let system = system_messages(request.instructions@, profile);
    let told = chat.messages.filter(|m: MessageModel| m.role != "tool"@);
    lemma_sent(request, profile);
    lemma_told(sent, profile);
    lemma_is_start(request.instructions@, profile.max_message_chars);
    law_repair_keeps_what_is_said(system + ms);
    lemma_same_filter(
        chat.messages,
        |m: MessageModel| m.role != "tool"@,
        |m: MessageModel| !is_output(m),
    );
    lemma_said_of_two(system, ms);
    lemma_roles_differ();
    if system.len() == 1 {
        lemma_said_of_one(system[0]);
        assert(system =~= seq![system[0]]);
        assert(said(system) =~= system);
        assert forall|j: int| 0 <= j < spoken.len() implies carries(
            #[trigger] told[1 + j],
            spoken[j],
            profile,
        ) by {
            assert(told[1 + j] == said(ms)[j]);
        }
    } else {
        lemma_nothing_said(system);
        assert(told =~= said(ms));
    }
}

proof fn lemma_first_item(items: Seq<ResponseItem>, profile: ProviderProfile)
    requires
        items.len() > 0,
        item_messages(items, profile) is Ok,
    ensures
        item_message(items[0], profile) is Ok,
        item_messages(items.skip(1), profile) is Ok,
        item_messages(items, profile)->Ok_0 == (match item_message(items[0], profile)->Ok_0 {
            Some(m) => seq![m],
            None => Seq::<MessageModel>::empty(),
        }) + item_messages(items.skip(1), profile)->Ok_0,
    decreases items.len(),
{
    let front = items.drop_last();
    let rest = items.skip(1);
    let all = item_messages(items, profile)->Ok_0;
    if items.len() == 1 {
        assert(front =~= Seq::<ResponseItem>::empty());
        assert(rest =~= Seq::<ResponseItem>::empty());
        assert(item_messages(rest, profile) == Ok::<_, Seq<char>>(Seq::<MessageModel>::empty()));
        assert(items.last() == items[0]);
        assert(all =~= (match item_message(items[0], profile)->Ok_0 {
            Some(m) => seq![m],
            None => Seq::<MessageModel>::empty(),
        }) + item_messages(rest, profile)->Ok_0);
    } else {
        lemma_first_item(front, profile);
        assert(rest.drop_last() =~= front.skip(1));
        assert(rest.last() == items.last());
        assert(front[0] == items[0]);
        assert(all =~= (match item_message(items[0], profile)->Ok_0 {
            Some(m) => seq![m],
            None => Seq::<MessageModel>::empty(),
        }) + item_messages(rest, profile)->Ok_0);
    }
}

proof fn lemma_first_answer(items: Seq<ResponseItem>, id: Seq<char>, profile: ProviderProfile)
    requires
        item_messages(items, profile) is Ok,
    ensures
        hands_back(
            found_output(item_messages(items, profile)->Ok_0, id),
            id,
            first_answer(items, id),
            profile,
        ),
    decreases items.len(),
{
    let ms = item_messages(items, profile)->Ok_0;
    if items.len() > 0 {
        lemma_first_item(items, profile);
        let rest = items.skip(1);
        lemma_first_answer(rest, id, profile);
        let first = item_message(items[0], profile)->Ok_0;
        match items[0] {
            ResponseItem::FunctionCallOutput { call_id, output } => {
                lemma_is_start(or_empty(opt_text(output)), output_limit(profile));
            },
            ResponseItem::CustomToolCallOutput { call_id, output } => {
                lemma_is_start(output@, output_limit(profile));
            },
            _ => {},
        }
        if first is None {
            assert(ms =~= item_messages(rest, profile)->Ok_0);
        } else {
            assert(ms.skip(1) =~= item_messages(rest, profile)->Ok_0);
            if !answers_call(ms[0], id) {
                lemma_found_behind(ms, id);
            }
        }
    }
}

proof fn lemma_calls_of_items(items: Seq<ResponseItem>, profile: ProviderProfile)
    requires
        item_messages(items, profile) is Ok,
    ensures
        calls_made(said(item_messages(items, profile)->Ok_0)) == calls_in(items),
    decreases items.len(),
{
    let ms = item_messages(items, profile)->Ok_0;
    if items.len() == 0 {
        assert(said(ms) =~= Seq::<MessageModel>::empty()) by {
            reveal(Seq::filter);
        }
    } else {
        lemma_first_item(items, profile);
        let rest = items.skip(1);
        let more = item_messages(rest, profile)->Ok_0;
        lemma_calls_of_items(rest, profile);
        lemma_item(items[0], profile);
        match item_message(items[0], profile)->Ok_0 {
            Some(m) => {
                assert(ms.skip(1) =~= more);
                assert(ms[0] == m);
                lemma_said_behind_first(ms);
                assert(Seq::<Seq<char>>::empty() + calls_in(rest) =~= calls_in(rest));
            },
            None => {
                assert(ms =~= more);
                assert(Seq::<Seq<char>>::empty() + calls_in(rest) =~= calls_in(rest));
            },
        }
    }
}

/// The ids of the calls that items make, in their order.
pub open spec fn calls_in(items: Seq<ResponseItem>) -> Seq<Seq<char>>
    decreases items.len(),
{
    if items.len() == 0 {
        Seq::empty()
    } else {
        item_calls(items[0]) + calls_in(items.skip(1))
    }
}

proof fn lemma_place_of_item(items: Seq<ResponseItem>, i: int, profile: ProviderProfile) -> (j: int)
    requires
        item_messages(items, profile) is Ok,
        0 <= i < items.len(),
        items[i] is FunctionCall,
    ensures
        item_messages(items.skip(i + 1), profile) is Ok,
        0 <= j < item_messages(items, profile)->Ok_0.len(),
        Some(item_messages(items, profile)->Ok_0[j]) == item_message(items[i], profile)->Ok_0,
        item_messages(items, profile)->Ok_0.skip(j + 1) == item_messages(
            items.skip(i + 1),
            profile,
        )->Ok_0,
    decreases items.len(),
{
    lemma_first_item(items, profile);
    let ms = item_messages(items, profile)->Ok_0;
    let rest = items.skip(1);
    let more = item_messages(rest, profile)->Ok_0;
    if i == 0 {
        assert(ms.skip(1) =~= more);
        0
    } else {
        let j = lemma_place_of_item(rest, i - 1, profile);
        assert(rest.skip(i) =~= items.skip(i + 1));
        if item_message(items[0], profile)->Ok_0 is Some {
            assert(ms.skip(j + 2) =~= more.skip(j + 1));
            j + 1
        } else {
            assert(ms =~= more);
            j
        }
    }
}

/// Where no two calls have the same id, each call of a chat request is followed by
/// its output: the first one that comes for it behind the call, or that it was
/// aborted. There is one output for each call, and no other.
pub proof fn law_chats_hand_outputs_back(
    request: ResponsesApiRequest,
    profile: ProviderProfile,
    chat: ChatRequestModel,
    i: int,
)
    requires
        chat_request(request, profile) == Ok::<_, Seq<char>>(chat),
        calls_in(
            request.input@.skip(first_sent(request.input@.len(), profile.max_history_messages)),
        ).no_duplicates(),
        first_sent(request.input@.len(), profile.max_history_messages) <= i
            < request.input@.len(),
        request.input@[i] is FunctionCall,
    ensures
        exists|p: int|
            0 <= p && p + 1 < chat.messages.len() && #[trigger] carries(
                chat.messages[p],
                request.input@[i],
                profile,
            ) && hands_back(
                chat.messages[p + 1],
                item_calls(request.input@[i])[0],
                first_answer(request.input@.skip(i + 1), item_calls(request.input@[i])[0]),
                profile,
            ),
        chat.messages.len() == chat.messages.filter(|m: MessageModel| m.role != "tool"@).len()
            + calls_in(
            request.input@.skip(first_sent(request.input@.len(), profile.max_history_messages)),
        ).len(),
{
    let items = recent_items(request.input@, profile);
    let start = first_sent(request.input@.len(), profile.max_history_messages);
    let ms = item_messages(items, profile)->Ok_0;
    let system = system_messages(request.instructions@, profile);
    let all = system + ms;
    let item = request.input@[i];
    let id = item_calls(item)[0];
    lemma_sent(request, profile);
    assert(items[i - start] == item);
    let j = lemma_place_of_item(items, i - start, profile);
    lemma_item(item, profile);
    lemma_calls_of_items(items, profile);
    lemma_said_of_two(system, ms);
    lemma_roles_differ();
    assert(calls_made(said(all)) == calls_in(items)) by {
        if system.len() == 1 {
            lemma_said_of_one(system[0]);
            assert(system =~= seq![system[0]]);
            assert(said(all).skip(1) =~= said(ms));
            assert(called_ids(system[0]) =~= Seq::<Seq<char>>::empty());
            assert(Seq::<Seq<char>>::empty() + calls_made(said(ms)) =~= calls_made(said(ms)));
        } else {
            lemma_nothing_said(system);
            assert(said(all) =~= said(ms));
        }
    }
    let q = system.len() + j;
    assert(all[q] == ms[j]);
    assert(all.skip(q + 1) =~= ms.skip(j + 1));
    law_calls_get_their_first_outputs(all, q);
    let r = repaired(all);
    let p = choose|p: int| has_its_outputs(all, q, r, p);
    let outputs = leading_outputs(r.skip(p + 1));
    assert(called_ids(all[q])[0] == id);
    assert(called_ids(all[q]).contains(id));
    let found = found_output(all.skip(q + 1), id);
    assert(outputs.contains(found));
    let z = choose|z: int| 0 <= z < outputs.len() && outputs[z] == found;
    lemma_after_outputs(r.skip(p + 1));
    assert(z == 0);
    assert(r[p + 1] == found);
    assert(items.skip(i - start + 1) =~= request.input@.skip(i + 1));
    lemma_first_answer(request.input@.skip(i + 1), id, profile);
    assert(ms.skip(j + 1) == item_messages(request.input@.skip(i + 1), profile)->Ok_0);
    assert(hands_back(r[p + 1], id, first_answer(request.input@.skip(i + 1), id), profile));
    assert(p + 1 < r.len());
    assert(carries(chat.messages[p], request.input@[i], profile));
    law_repaired_history_holds_nothing_else(all);
    lemma_same_filter(r, |m: MessageModel| m.role != "tool"@, |m: MessageModel| !is_output(m));
}

/// Whether a document of a tool has a text under this name.
pub open spec fn has_text_field(tool: JsonDocument, name: Seq<char>, t: Seq<char>) -> bool {
    tool matches JsonDocument::Object(o) && field_named(o@, name) == Some(FieldModel::Text(t))
}

/// Whether a tool of a chat is the function that a document describes.
pub open spec fn describes(t: ToolModel, tool: JsonDocument) -> bool {
    &&& t.kind == "function"@
    &&& has_text_field(tool, "name"@, t.name)
    &&& has_text_field(tool, "description"@, t.description) || (t.description.len() == 0
        && forall|d: Seq<char>| !has_text_field(tool, "description"@, d))
    &&& tool matches JsonDocument::Object(o) && match field_named(o@, "parameters"@) {
        Some(p) => t.parameters == p,
        None => t.parameters == FieldModel::Nested("{}"@, "{}"@),
    }
    &&& tool matches JsonDocument::Object(o) && match field_named(o@, "strict"@) {
        Some(FieldModel::Bool(b)) => t.strict == Some(b),
        _ => t.strict is None,
    }
}

proof fn lemma_text_field(tool: JsonDocument, name: Seq<char>)
    ensures
        forall|t: Seq<char>| #[trigger]
            has_text_field(tool, name, t) <==> text_field(tool, name) == Some(t),
{
}

proof fn lemma_tool(tool: JsonDocument, strip: bool)
    ensures
        chat_tool(tool, strip) matches Ok(Some(t)) ==> describes(t, tool),
        chat_tool(tool, strip) matches Ok(None) ==> strip && !has_text_field(
            tool,
            "type"@,
            "function"@,
        ),
        has_text_field(tool, "type"@, "function"@) ==> !(chat_tool(tool, strip) matches Ok(None)),
        chat_tool(tool, strip) is Err <==> if has_text_field(tool, "type"@, "function"@) {
            forall|n: Seq<char>| !has_text_field(tool, "name"@, n)
        } else {
            !strip
        },
{
    lemma_text_field(tool, "type"@);
    lemma_text_field(tool, "name"@);
    lemma_text_field(tool, "description"@);
    if text_field(tool, "name"@) is Some {
        assert(has_text_field(tool, "name"@, text_field(tool, "name"@)->0));
    }
}

proof fn lemma_tools(tools: Seq<JsonDocument>, strip: bool)
    ensures
        chat_tools(tools, strip) matches Ok(ts) ==> {
            let functions = tools.filter(
                |t: JsonDocument| has_text_field(t, "type"@, "function"@),
            );
            &&& ts.len() == functions.len()
            &&& forall|i: int|
                0 <= i < ts.len() ==> describes(#[trigger] ts[i], functions[i])
        },
        chat_tools(tools, strip) is Err <==> exists|i: int|
            0 <= i < tools.len() && chat_tool(#[trigger] tools[i], strip) is Err,
    decreases tools.len(),
{
    reveal(Seq::filter);
    if tools.len() > 0 {
        let front = tools.drop_last();
        lemma_tools(front, strip);
        lemma_tool(tools.last(), strip);
        if exists|i: int| 0 <= i < front.len() && chat_tool(#[trigger] front[i], strip) is Err {
            let i = choose|i: int| 0 <= i < front.len() && chat_tool(#[trigger] front[i], strip) is Err;
            assert(chat_tool(tools[i], strip) is Err);
        }
        if chat_tool(tools.last(), strip) is Err {
            assert(chat_tool(tools[tools.len() - 1], strip) is Err);
        }
        if exists|i: int| 0 <= i < tools.len() && chat_tool(#[trigger] tools[i], strip) is Err {
            let i = choose|i: int| 0 <= i < tools.len() && chat_tool(#[trigger] tools[i], strip) is Err;
            if i < front.len() {
                assert(chat_tool(front[i], strip) is Err);
            }
        }
    }
}

/// A chat request asks the same model for the same: it offers the functions among
/// the tools, in their order and as they are described, leaves the choice of them
/// as it is, streams where that is asked for, and lets calls run side by side only
/// where that is asked for and the profile does not forbid it.
pub proof fn law_chats_ask_for_the_same(
    request: ResponsesApiRequest,
    profile: ProviderProfile,
    chat: ChatRequestModel,
)
    requires
        chat_request(request, profile) == Ok::<_, Seq<char>>(chat),
    ensures
        ({
            let functions = request.tools@.filter(
                |t: JsonDocument| has_text_field(t, "type"@, "function"@),
            );
            &&& chat.model == request.model@
            &&& chat.tool_choice == request.tool_choice@
            &&& chat.stream == request.stream
            &&& chat.parallel_tool_calls == (request.parallel_tool_calls
                && !profile.disable_parallel_tool_calls)
            &&& chat.tools.len() == functions.len()
            &&& forall|i: int|
                0 <= i < chat.tools.len() ==> describes(#[trigger] chat.tools[i], functions[i])
        }),
{
    lemma_tools(request.tools@, profile.strip_unsupported_params);
}

/// Whether a chat cannot offer a tool: it is a function without a name or, where
/// such tools are not left out, no function.
pub open spec fn is_no_chat_tool(tool: JsonDocument, strip: bool) -> bool {
    if has_text_field(tool, "type"@, "function"@) {
        forall|n: Seq<char>| !has_text_field(tool, "name"@, n)
    } else {
        !strip
    }
}

/// A request is refused just where it holds what a chat cannot carry: a function
/// without a name; and, unless the profile leaves such things out, an item with an
/// image, a reasoning or an unknown item, a tool that is no function, or a choice of
/// tools other than `auto` and `none`.
pub proof fn law_what_chats_refuse(request: ResponsesApiRequest, profile: ProviderProfile)
    ensures
        chat_request(request, profile) is Err <==> {
            ||| exists|i: int|
                0 <= i < request.tools@.len() && is_no_chat_tool(
                    #[trigger] request.tools@[i],
                    profile.strip_unsupported_params,
                )
            ||| !profile.strip_unsupported_params && exists|i: int|
                first_sent(request.input@.len(), profile.max_history_messages) <= i
                    < request.input@.len() && is_beyond_chats(#[trigger] request.input@[i])
            ||| !profile.strip_unsupported_params && request.tool_choice@ != "auto"@
                && request.tool_choice@ != "none"@
        },
{
    let strip = profile.strip_unsupported_params;
    let start = first_sent(request.input@.len(), profile.max_history_messages);
    let items = request.input@.skip(start);
    lemma_sent(request, profile);
    lemma_told(items, profile);
    lemma_tools(request.tools@, strip);
    assert forall|i: int| 0 <= i < request.tools@.len() implies (chat_tool(
        #[trigger] request.tools@[i],
        strip,
    ) is Err) == is_no_chat_tool(request.tools@[i], strip) by {
        lemma_tool(request.tools@[i], strip);
    }
    if exists|i: int| 0 <= i < items.len() && is_beyond_chats(#[trigger] items[i]) {
        let i = choose|i: int| 0 <= i < items.len() && is_beyond_chats(#[trigger] items[i]);
        assert(is_beyond_chats(request.input@[start + i]));
    }
    if exists|i: int|
        start <= i < request.input@.len() && is_beyond_chats(#[trigger] request.input@[i]) {
        let i = choose|i: int|
            start <= i < request.input@.len() && is_beyond_chats(#[trigger] request.input@[i]);
        assert(is_beyond_chats(items[i - start]));
    }
}

/// A provider is spoken to in chats just where it takes nothing else.
pub proof fn law_providers_are_spoken_to_as_they_understand(compat: ProviderCompatibility)
    ensures
        kind_for(compat) == ProviderAdapterKind::ChatCompletions <==> compat
            == ProviderCompatibility::ChatCompletionsAdapter,
        kind_for(compat) == ProviderAdapterKind::ResponsesNative <==> compat
            == ProviderCompatibility::ResponsesNative,
{
}

/// A speaker that chats know keeps their role, and any other is a user; what is said
/// stays as it is.
pub proof fn law_speakers_keep_their_role(role: Seq<char>, content: Seq<char>)
    ensures
        role == "system"@ ==> chat_role(role) == "system"@,
        role == "user"@ ==> chat_role(role) == "user"@,
        role == "assistant"@ ==> chat_role(role) == "assistant"@,
        role == "tool"@ ==> chat_role(role) == "tool"@,
        role != "system"@ && role != "user"@ && role != "assistant"@ && role != "tool"@
            ==> chat_role(role) == "user"@,
        text_message(role, content).role == chat_role(role),
        text_message(role, content).content == Some(content),
        text_message(role, content).tool_calls.len() == 0,
        text_message(role, content).tool_call_id is None,
{
}

/// A call is made by the assistant, under its id, of the function that is named and
/// with the arguments that are given.
pub proof fn law_calls_are_made_by_the_assistant(
    id: Seq<char>,
    name: Seq<char>,
    arguments: Seq<char>,
    profile: ProviderProfile,
)
    ensures
        ({
            let m = call_message(id, name, arguments, profile);
            &&& m.role == "assistant"@
            &&& m.content is None && m.tool_call_id is None
            &&& m.tool_calls.len() == 1
            &&& m.tool_calls[0].id == id
            &&& m.tool_calls[0].name == name
            &&& m.tool_calls[0].arguments == arguments
            &&& m.tool_calls[0].kind == "function"@
            &&& m.reasoning_content is Some
                <==> profile.requires_reasoning_content_for_tool_calls
        }),
{
}

/// A text is cut behind the number of characters that is set, and only where it has
/// more.
pub proof fn law_texts_are_cut_at_the_limit(value: Seq<char>, max_chars: Option<u64>)
    ensures
        max_chars is None || value.len() <= max_chars->0 ==> shortened(value, max_chars) == value,
        max_chars matches Some(m) ==> value.len() > m ==> shortened(value, max_chars).len() == m
            && shortened(value, max_chars) == value.take(m as int),
{
}

/// Of a long history the latest items stay, as many as are set; no limit, or one of
/// zero, keeps all.
pub proof fn law_latest_items_stay(items: Seq<ResponseItem>, profile: ProviderProfile)
    ensures
        profile.max_history_messages is None || profile.max_history_messages == Some(0u64)
            ==> recent_items(items, profile) == items,
        profile.max_history_messages matches Some(m) ==> 0 < m < items.len() ==> recent_items(
            items,
            profile,
        ).len() == m && recent_items(items, profile) == items.skip(items.len() - m),
        profile.max_history_messages matches Some(m) ==> items.len() <= m ==> recent_items(
            items,
            profile,
        ) == items,
{
}

/// The texts of a message stand in their order; an image is left out where that is
/// allowed, and refuses the message where it is not.
pub proof fn law_messages_are_made_of_their_texts(
    items: Seq<ContentItem>,
    item: ContentItem,
    strip: bool,
)
    ensures
        content_texts(items, strip) is Err ==> content_texts(items.push(item), strip)
            == content_texts(items, strip),
        content_texts(items, strip) matches Ok(done) ==> match item {
            ContentItem::InputText { text } => content_texts(items.push(item), strip) == Ok::<
                Seq<Seq<char>>,
                Seq<char>,
            >(done.push(text@)),
            ContentItem::OutputText { text } => content_texts(items.push(item), strip) == Ok::<
                Seq<Seq<char>>,
                Seq<char>,
            >(done.push(text@)),
            ContentItem::InputImage { .. } => if strip {
                content_texts(items.push(item), strip) == Ok::<Seq<Seq<char>>, Seq<char>>(done)
            } else {
                content_texts(items.push(item), strip) is Err
            },
        },
{
    assert(items.push(item).drop_last() =~= items);
}

} // verus!
