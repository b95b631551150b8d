use codex_core::chat_history::{
    repair_chat_tool_message_sequence, ChatMessage, ChatToolCall, ChatToolCallFunction,
};
use codex_core::chat_stream::{
    chat_completion_response_to_response_events, chat_message_to_response_events,
    ChatCompletionChunk, ChatCompletionChunkChoice, ChatCompletionDelta, ChatCompletionResponse,
    ChatCompletionUsage, ChatCompletionsChunkNormalizer, ChatToolCallDelta,
    ChatToolCallFunctionDelta, ResponseEvent, TokenUsage,
};
use codex_core::json::{JsonDocument, JsonField, JsonObject};
use codex_core::provider_adapter::{
    bounded_history_items, normalize_tool_choice, response_tool_to_chat_tool,
    responses_request_to_chat_request, truncate_chars, ContentItem, ModelProviderInfo,
    ProviderAdapterKind, ProviderCompatibility, ProviderProfile, ResponseItem,
    ResponsesApiRequest,
};

fn test_request() -> ResponsesApiRequest {
    ResponsesApiRequest {
        model: "kimi-k2.6".to_string(),
        instructions: "follow instructions".to_string(),
        input: Vec::new(),
        tools: Vec::new(),
        tool_choice: "none".to_string(),
        parallel_tool_calls: true,
        stream: true,
    }
}

fn user_message(role: &str, text: &str) -> ResponseItem {
    ResponseItem::Message {
        id: None,
        role: role.to_string(),
        content: vec![ContentItem::InputText { text: text.to_string() }],
        end_turn: None,
        phase: None,
    }
}

fn call(name: &str, arguments: &str, call_id: &str) -> ResponseItem {
    ResponseItem::FunctionCall {
        id: None,
        name: name.to_string(),
        arguments: arguments.to_string(),
        call_id: call_id.to_string(),
    }
}

fn output(call_id: &str, text: &str) -> ResponseItem {
    ResponseItem::FunctionCallOutput {
        call_id: call_id.to_string(),
        output: Some(text.to_string()),
    }
}

fn object(fields: Vec<(&str, JsonField)>) -> JsonDocument {
    JsonDocument::Object(JsonObject {
        fields: fields.into_iter().map(|(name, field)| (name.to_string(), field)).collect(),
    })
}

fn text(value: &str) -> JsonField {
    JsonField::Text(value.to_string())
}

#[test]
fn default_provider_uses_native_responses_adapter() {
    let provider = ModelProviderInfo::create_openai_provider();

    assert_eq!(
        ProviderAdapterKind::ResponsesNative,
        ProviderAdapterKind::for_provider(&provider)
    );
    assert!(ProviderAdapterKind::for_provider(&provider)
        .ensure_stream_supported(&provider)
        .is_ok());
}

#[test]
fn chat_completions_adapter_is_supported_by_http_sse_runtime() {
    let mut provider = ModelProviderInfo::create_openai_provider();
    provider.name = "Kimi Moonshot".to_string();
    provider.profile = ProviderProfile {
        compat: ProviderCompatibility::ChatCompletionsAdapter,
        ..ProviderProfile::default()
    };

    assert_eq!(
        ProviderAdapterKind::ChatCompletions,
        ProviderAdapterKind::for_provider(&provider)
    );
    assert!(ProviderAdapterKind::for_provider(&provider)
        .ensure_stream_supported(&provider)
        .is_ok());
}

#[test]
fn converts_instructions_and_text_messages_to_chat_request() {
    let mut request = test_request();
    request.input.push(user_message("user", "hello"));

    let chat = responses_request_to_chat_request(&request, &ProviderProfile::default())
        .expect("chat request");

    assert_eq!(chat.model, "kimi-k2.6");
    assert_eq!(chat.tool_choice, "none");
    assert_eq!(chat.parallel_tool_calls, true);
    assert_eq!(chat.stream, true);
    assert_eq!(chat.tools, Vec::new());
    assert_eq!(
        chat.messages,
        vec![
            ChatMessage::text("system", "follow instructions"),
            ChatMessage::text("user", "hello"),
        ]
    );
}

#[test]
fn normalizes_non_standard_text_message_roles_for_chat_providers() {
    let mut request = test_request();
    request.input.push(user_message("developer", "follow these constraints"));

    let chat = responses_request_to_chat_request(&request, &ProviderProfile::default())
        .expect("chat request");

    assert_eq!(chat.messages[1].role, "user");
    assert_eq!(chat.messages[1].content.as_deref(), Some("follow these constraints"));
}

#[test]
fn converts_function_tool_and_disables_parallel_calls_from_profile() {
    let mut request = test_request();
    request.tool_choice = "auto".to_string();
    request.parallel_tool_calls = true;
    let parameters = JsonField::Nested {
        compact: "{\"type\":\"object\",\"properties\":{}}".to_string(),
        shown: "Object {\"type\": String(\"object\"), \"properties\": Object {}}".to_string(),
    };
    request.tools.push(object(vec![
        ("type", text("function")),
        ("name", text("shell")),
        ("description", text("run a command")),
        ("strict", JsonField::Bool(false)),
        ("parameters", parameters.clone()),
    ]));
    let profile = ProviderProfile {
        disable_parallel_tool_calls: true,
        ..ProviderProfile::default()
    };

    let chat = responses_request_to_chat_request(&request, &profile).expect("chat request");

    assert_eq!(chat.parallel_tool_calls, false);
    assert_eq!(chat.tools.len(), 1);
    assert_eq!(chat.tools[0].kind, "function");
    assert_eq!(chat.tools[0].function.name, "shell");
    assert_eq!(chat.tools[0].function.strict, Some(false));
    assert_eq!(chat.tools[0].function.description, "run a command");
    assert_eq!(chat.tools[0].function.parameters, parameters);
}

#[test]
fn fails_closed_for_unsupported_tool_unless_profile_strips_it() {
    let mut request = test_request();
    request.tools.push(object(vec![("type", text("local_shell"))]));

    let err = responses_request_to_chat_request(&request, &ProviderProfile::default())
        .expect_err("unsupported tool should fail closed");
    assert!(err.message().contains("local_shell"));

    let profile = ProviderProfile {
        strip_unsupported_params: true,
        ..ProviderProfile::default()
    };
    let chat = responses_request_to_chat_request(&request, &profile).expect("chat request");
    assert!(chat.tools.is_empty());
}

#[test]
fn replays_tool_calls_and_tool_outputs_with_bounds() {
    let mut request = test_request();
    request.input.push(call("shell", "{\"cmd\":\"pwd\"}", "call-1"));
    request.input.push(output("call-1", "abcdef"));
    let profile = ProviderProfile {
        max_tool_output_chars: Some(3),
        ..ProviderProfile::default()
    };

    let chat = responses_request_to_chat_request(&request, &profile).expect("chat request");

    assert_eq!(
        chat.messages[1],
        ChatMessage::tool_call("call-1", "shell", "{\"cmd\":\"pwd\"}", &ProviderProfile::default())
    );
    assert_eq!(chat.messages[2], ChatMessage::tool_output("call-1", "abc"));
}

#[test]
fn inserts_missing_tool_output_after_replayed_tool_call() {
    let mut request = test_request();
    request.input.push(call("exec_command", "{\"cmd\":\"pwd\"}", "exec_command:0"));

    let chat = responses_request_to_chat_request(&request, &ProviderProfile::default())
        .expect("chat request");

    assert_eq!(chat.messages.len(), 3);
    assert_eq!(chat.messages[1].role, "assistant");
    assert_eq!(chat.messages[1].tool_calls[0].id, "exec_command:0");
    assert_eq!(chat.messages[2], ChatMessage::tool_output("exec_command:0", "aborted"));
}

#[test]
fn moves_delayed_tool_output_next_to_matching_tool_call() {
    let mut request = test_request();
    request.input.push(call("exec_command", "{\"cmd\":\"pwd\"}", "exec_command:0"));
    request.input.push(user_message("user", "continue"));
    request.input.push(output("exec_command:0", "done"));

    let chat = responses_request_to_chat_request(&request, &ProviderProfile::default())
        .expect("chat request");

    assert_eq!(chat.messages.len(), 4);
    assert_eq!(chat.messages[1].role, "assistant");
    assert_eq!(chat.messages[2], ChatMessage::tool_output("exec_command:0", "done"));
    assert_eq!(chat.messages[3], ChatMessage::text("user", "continue"));
}

#[test]
fn removes_orphan_tool_outputs_from_chat_history() {
    let mut request = test_request();
    request.input.push(output("orphan-call", "orphan"));
    request.input.push(user_message("user", "hello"));

    let chat = responses_request_to_chat_request(&request, &ProviderProfile::default())
        .expect("chat request");

    assert_eq!(
        chat.messages,
        vec![
            ChatMessage::text("system", "follow instructions"),
            ChatMessage::text("user", "hello"),
        ]
    );
}

#[test]
fn interleaves_multiple_tool_calls_with_matching_outputs() {
    let mut request = test_request();
    request.input.push(call("exec_command", "{\"cmd\":\"pwd\"}", "exec_command:0"));
    request.input.push(call("read_file", "{\"path\":\"README.md\"}", "read_file:0"));
    request.input.push(output("exec_command:0", "pwd-output"));
    request.input.push(output("read_file:0", "read-output"));

    let chat = responses_request_to_chat_request(&request, &ProviderProfile::default())
        .expect("chat request");

    assert_eq!(chat.messages.len(), 5);
    assert_eq!(chat.messages[1].tool_calls[0].id, "exec_command:0");
    assert_eq!(chat.messages[2], ChatMessage::tool_output("exec_command:0", "pwd-output"));
    assert_eq!(chat.messages[3].tool_calls[0].id, "read_file:0");
    assert_eq!(chat.messages[4], ChatMessage::tool_output("read_file:0", "read-output"));
}

#[test]
fn adds_reasoning_content_to_replayed_tool_calls_when_profile_requires_it() {
    let mut request = test_request();
    request.input.push(call("shell", "{\"cmd\":\"pwd\"}", "call-1"));
    let profile = ProviderProfile {
        requires_reasoning_content_for_tool_calls: true,
        ..ProviderProfile::default()
    };

    let chat = responses_request_to_chat_request(&request, &profile).expect("chat request");

    assert_eq!(chat.messages[1].role, "assistant");
    assert_eq!(chat.messages[1].reasoning_content.as_deref(), Some("tool call"));
}

fn answer(content: Option<&str>, tool_calls: Vec<ChatToolCall>) -> ChatMessage {
    ChatMessage {
        role: "assistant".to_string(),
        content: content.map(str::to_string),
        reasoning_content: None,
        tool_call_id: None,
        tool_calls,
    }
}

fn shell_call() -> ChatToolCall {
    ChatToolCall {
        id: "call-1".to_string(),
        kind: "function".to_string(),
        function: ChatToolCallFunction {
            name: "shell".to_string(),
            arguments: "{\"cmd\":\"pwd\"}".to_string(),
        },
    }
}

fn assert_shell_call(event: &ResponseEvent) {
    match event {
        ResponseEvent::OutputItemDone(ResponseItem::FunctionCall {
            name, arguments, call_id, ..
        }) => {
            assert_eq!(name, "shell");
            assert_eq!(arguments, "{\"cmd\":\"pwd\"}");
            assert_eq!(call_id, "call-1");
        }
        other => panic!("unexpected event: {other:?}"),
    }
}

#[test]
fn normalizes_non_stream_chat_response_to_response_events() {
    let response = ChatCompletionResponse {
        id: Some("chatcmpl-1".to_string()),
        choices: vec![answer(Some("done"), Vec::new())],
        usage: Some(ChatCompletionUsage {
            prompt_tokens: 7,
            completion_tokens: 3,
            total_tokens: 10,
        }),
    };

    let events = chat_completion_response_to_response_events(&response).expect("events");

    assert_eq!(events.len(), 2);
    match &events[0] {
        ResponseEvent::OutputItemDone(ResponseItem::Message { role, content, .. }) => {
            assert_eq!(role, "assistant");
            assert_eq!(content, &vec![ContentItem::OutputText { text: "done".to_string() }]);
        }
        other => panic!("unexpected first event: {other:?}"),
    }
    match &events[1] {
        ResponseEvent::Completed { response_id, token_usage, can_append } => {
            assert_eq!(response_id, "chatcmpl-1");
            assert_eq!(
                *token_usage,
                Some(TokenUsage {
                    input_tokens: 7,
                    cached_input_tokens: 0,
                    output_tokens: 3,
                    reasoning_output_tokens: 0,
                    total_tokens: 10,
                })
            );
            assert!(!can_append);
        }
        other => panic!("unexpected second event: {other:?}"),
    }
}

#[test]
fn normalizes_non_stream_chat_tool_call_response() {
    let response = ChatCompletionResponse {
        id: Some("chatcmpl-tools".to_string()),
        choices: vec![answer(None, vec![shell_call()])],
        usage: None,
    };

    let events = chat_completion_response_to_response_events(&response).expect("events");

    assert_eq!(events.len(), 2);
    assert_shell_call(&events[0]);
    assert!(matches!(events[1], ResponseEvent::Completed { .. }));
}

fn text_chunk(
    id: Option<&str>,
    content: &str,
    finish_reason: Option<&str>,
    usage: Option<ChatCompletionUsage>,
) -> ChatCompletionChunk {
    ChatCompletionChunk {
        id: id.map(str::to_string),
        choices: vec![ChatCompletionChunkChoice {
            delta: ChatCompletionDelta {
                content: Some(content.to_string()),
                tool_calls: Vec::new(),
            },
            finish_reason: finish_reason.map(str::to_string),
        }],
        usage,
    }
}

fn part_chunk(
    id: Option<&str>,
    part: ChatToolCallDelta,
    finish_reason: Option<&str>,
) -> ChatCompletionChunk {
    ChatCompletionChunk {
        id: id.map(str::to_string),
        choices: vec![ChatCompletionChunkChoice {
            delta: ChatCompletionDelta { content: None, tool_calls: vec![part] },
            finish_reason: finish_reason.map(str::to_string),
        }],
        usage: None,
    }
}

#[test]
fn stream_chunk_normalizer_accumulates_text_and_completes_once() {
    let mut normalizer = ChatCompletionsChunkNormalizer::default();

    let first = normalizer
        .push_chunk(&text_chunk(Some("chatcmpl-stream"), "hel", None, None))
        .expect("first chunk");
    let usage = ChatCompletionUsage { prompt_tokens: 4, completion_tokens: 2, total_tokens: 6 };
    let second = normalizer
        .push_chunk(&text_chunk(Some("chatcmpl-stream"), "lo", Some("stop"), Some(usage)))
        .expect("second chunk");
    let done = normalizer.finish_done().expect("done marker");

    assert_eq!(first.len(), 2);
    match &first[0] {
        ResponseEvent::OutputItemAdded(ResponseItem::Message { role, content, .. }) => {
            assert_eq!(role, "assistant");
            assert!(content.is_empty());
        }
        other => panic!("unexpected first chunk item: {other:?}"),
    }
    match &first[1] {
        ResponseEvent::OutputTextDelta(delta) => assert_eq!(delta, "hel"),
        other => panic!("unexpected first chunk delta: {other:?}"),
    }
    assert_eq!(second.len(), 3);
    match &second[0] {
        ResponseEvent::OutputTextDelta(delta) => assert_eq!(delta, "lo"),
        other => panic!("unexpected second chunk delta: {other:?}"),
    }
    match &second[1] {
        ResponseEvent::OutputItemDone(ResponseItem::Message { content, .. }) => {
            assert_eq!(content, &vec![ContentItem::OutputText { text: "hello".to_string() }]);
        }
        other => panic!("unexpected completed item: {other:?}"),
    }
    match &second[2] {
        ResponseEvent::Completed { response_id, token_usage, can_append } => {
            assert_eq!(response_id, "chatcmpl-stream");
            assert_eq!(token_usage.as_ref().map(|usage| usage.total_tokens), Some(6));
            assert!(!can_append);
        }
        other => panic!("unexpected completed event: {other:?}"),
    }
    assert!(done.is_empty());
}

#[test]
fn stream_chunk_normalizer_emits_single_text_item_added_before_deltas() {
    let mut normalizer = ChatCompletionsChunkNormalizer::default();

    let first = normalizer
        .push_chunk(&text_chunk(Some("chatcmpl-stream"), "hel", None, None))
        .expect("first chunk");
    let second = normalizer
        .push_chunk(&text_chunk(Some("chatcmpl-stream"), "lo", None, None))
        .expect("second chunk");

    assert!(matches!(first[0], ResponseEvent::OutputItemAdded(_)));
    assert!(matches!(first[1], ResponseEvent::OutputTextDelta(_)));
    assert!(matches!(second[0], ResponseEvent::OutputTextDelta(_)));
    assert!(!second.iter().any(|event| matches!(event, ResponseEvent::OutputItemAdded(_))));
}

#[test]
fn stream_chunk_normalizer_accumulates_split_tool_calls() {
    let mut normalizer = ChatCompletionsChunkNormalizer::default();

    let first = normalizer
        .push_chunk(&part_chunk(
            Some("chatcmpl-tool-stream"),
            ChatToolCallDelta {
                index: Some(0),
                id: Some("call-1".to_string()),
                kind: Some("function".to_string()),
                function: Some(ChatToolCallFunctionDelta {
                    name: Some("shell".to_string()),
                    arguments: Some("{\"cmd\":".to_string()),
                }),
            },
            None,
        ))
        .expect("first chunk");
    let second = normalizer
        .push_chunk(&part_chunk(
            Some("chatcmpl-tool-stream"),
            ChatToolCallDelta {
                index: Some(0),
                id: None,
                kind: None,
                function: Some(ChatToolCallFunctionDelta {
                    name: None,
                    arguments: Some("\"pwd\"}".to_string()),
                }),
            },
            Some("tool_calls"),
        ))
        .expect("second chunk");

    assert!(first.is_empty());
    assert_eq!(second.len(), 2);
    assert_shell_call(&second[0]);
    assert!(matches!(second[1], ResponseEvent::Completed { .. }));
}

#[test]
fn stream_chunk_normalizer_fails_closed_for_non_function_tool_calls() {
    let mut normalizer = ChatCompletionsChunkNormalizer::default();

    let err = normalizer
        .push_chunk(&part_chunk(
            None,
            ChatToolCallDelta {
                index: Some(0),
                id: Some("call-1".to_string()),
                kind: Some("custom".to_string()),
                function: None,
            },
            None,
        ))
        .expect_err("unsupported tool call should fail");

    assert!(err.message().contains("custom"));
}

#[test]
fn normalizes_chat_message_tool_calls_to_response_events() {
    let message = answer(Some("working"), vec![shell_call()]);

    let events = chat_message_to_response_events(&message).expect("events");

    assert_eq!(events.len(), 2);
    match &events[0] {
        ResponseEvent::OutputItemDone(ResponseItem::Message { role, content, .. }) => {
            assert_eq!(role, "assistant");
            assert_eq!(content, &vec![ContentItem::OutputText { text: "working".to_string() }]);
        }
        other => panic!("unexpected first event: {other:?}"),
    }
    assert_shell_call(&events[1]);
}

#[test]
fn foreign_calls_of_a_whole_answer_are_refused() {
    let mut foreign = shell_call();
    foreign.kind = "custom".to_string();
    let err = chat_message_to_response_events(&answer(Some("x"), vec![foreign]))
        .expect_err("foreign call");
    assert_eq!(err.message(), "unsupported chat tool call type 'custom'");
}

#[test]
fn parts_of_calls_without_a_place_open_a_new_call() {
    let mut normalizer = ChatCompletionsChunkNormalizer::default();
    for id in ["a", "b"] {
        normalizer
            .push_chunk(&part_chunk(
                None,
                ChatToolCallDelta {
                    index: None,
                    id: Some(id.to_string()),
                    kind: None,
                    function: None,
                },
                None,
            ))
            .expect("chunk");
    }
    normalizer
        .push_chunk(&part_chunk(
            None,
            ChatToolCallDelta { index: Some(3), id: Some("d".to_string()), kind: None, function: None },
            None,
        ))
        .expect("chunk");
    let events = normalizer.finish_done().expect("done");
    let ids: Vec<String> = events
        .iter()
        .filter_map(|event| match event {
            ResponseEvent::OutputItemDone(ResponseItem::FunctionCall { call_id, .. }) => {
                Some(call_id.clone())
            }
            _ => None,
        })
        .collect();
    assert_eq!(ids, ["a", "b", "", "d"]);
    assert!(matches!(events.last(), Some(ResponseEvent::Completed { response_id, token_usage: None, .. }) if response_id.is_empty()));
}

#[test]
fn items_that_a_chat_cannot_carry_are_refused_or_left_out() {
    let stripping = ProviderProfile {
        strip_unsupported_params: true,
        ..ProviderProfile::default()
    };
    let image = ResponseItem::Message {
        id: None,
        role: "user".to_string(),
        content: vec![
            ContentItem::InputText { text: "a".to_string() },
            ContentItem::InputImage { image_url: "u".to_string() },
            ContentItem::OutputText { text: "b".to_string() },
        ],
        end_turn: None,
        phase: None,
    };
    let other = ResponseItem::Other { shown: "Compaction".to_string() };
    for (item, message) in [
        (image.clone(), "image content is not supported by the chat-completions adapter"),
        (
            ResponseItem::Reasoning,
            "reasoning items are not supported by the chat-completions adapter",
        ),
        (
            other,
            "response item type is not supported by the chat-completions adapter: Compaction",
        ),
    ] {
        let mut request = test_request();
        request.input.push(item);
        let err = responses_request_to_chat_request(&request, &ProviderProfile::default())
            .expect_err("fails closed");
        assert_eq!(err.message(), message);
        assert!(responses_request_to_chat_request(&request, &stripping).is_ok());
    }
    let mut request = test_request();
    request.input.push(image);
    let chat = responses_request_to_chat_request(&request, &stripping).expect("chat");
    assert_eq!(chat.messages[1].content.as_deref(), Some("a\nb"));
}

#[test]
fn tools_and_choices_that_a_chat_cannot_carry_are_refused() {
    let plain = ProviderProfile::default();
    let stripping = ProviderProfile { strip_unsupported_params: true, ..plain };
    let missing_type = object(vec![("name", text("x"))]);
    let missing_name = object(vec![("type", text("function"))]);
    assert_eq!(
        response_tool_to_chat_tool(&missing_type, &plain).expect_err("type").message(),
        "tool is missing string field 'type'"
    );
    assert_eq!(response_tool_to_chat_tool(&missing_type, &stripping), Ok(None));
    assert_eq!(
        response_tool_to_chat_tool(&JsonDocument::NotAnObject, &plain).expect_err("type").message(),
        "tool is missing string field 'type'"
    );
    assert_eq!(
        response_tool_to_chat_tool(&missing_name, &stripping).expect_err("name").message(),
        "function tool is missing string field 'name'"
    );
    assert_eq!(
        normalize_tool_choice("required", &plain).expect_err("choice").message(),
        "tool_choice 'required' is not supported by the chat-completions adapter"
    );
    assert_eq!(normalize_tool_choice("required", &stripping), Ok("required".to_string()));
}

#[test]
fn histories_and_texts_are_bounded() {
    let items = vec![call("a", "", "1"), call("b", "", "2"), call("c", "", "3")];
    let bounded = |max| ProviderProfile {
        max_history_messages: max,
        ..ProviderProfile::default()
    };
    assert_eq!(bounded_history_items(&items, &bounded(None)), 0);
    assert_eq!(bounded_history_items(&items, &bounded(Some(0))), 0);
    assert_eq!(bounded_history_items(&items, &bounded(Some(2))), 1);
    assert_eq!(bounded_history_items(&items, &bounded(Some(3))), 0);
    assert_eq!(truncate_chars("h\u{e9}llo", Some(2)), "h\u{e9}");
    assert_eq!(truncate_chars("hello", Some(5)), "hello");
    assert_eq!(truncate_chars("hello", None), "hello");
}

#[test]
fn repairing_twice_is_repairing_once() {
    let profile = ProviderProfile::default();
    let mut messages = vec![
        ChatMessage::tool_output("orphan", "o"),
        ChatMessage::tool_call("1", "a", "", &profile),
        ChatMessage::tool_output("2", "two"),
        ChatMessage::text("user", "x"),
        ChatMessage::tool_call("2", "b", "", &profile),
        ChatMessage::tool_output("1", "one"),
        ChatMessage::tool_output("1", "again"),
        ChatMessage::tool_call("3", "c", "", &profile),
    ];
    repair_chat_tool_message_sequence(&mut messages);
    let expected = vec![
        ChatMessage::tool_call("1", "a", "", &profile),
        ChatMessage::tool_output("1", "one"),
        ChatMessage::text("user", "x"),
        ChatMessage::tool_call("2", "b", "", &profile),
        ChatMessage::tool_output("2", "aborted"),
        ChatMessage::tool_call("3", "c", "", &profile),
        ChatMessage::tool_output("3", "aborted"),
    ];
    assert_eq!(messages, expected);
    repair_chat_tool_message_sequence(&mut messages);
    assert_eq!(messages, expected);
}

#[test]
fn calls_get_their_first_outputs() {
    let calling = |ids: &[&str]| ChatMessage {
        role: "assistant".to_string(),
        tool_calls: ids
            .iter()
            .map(|id| ChatToolCall {
                id: id.to_string(),
                kind: "function".to_string(),
                function: ChatToolCallFunction::default(),
            })
            .collect(),
        ..ChatMessage::default()
    };
    let mut messages = vec![
        ChatMessage::tool_output("1", "too early"),
        calling(&["1", "2", "3"]),
        ChatMessage::tool_output("4", "of another"),
        ChatMessage::tool_output("2", "two"),
        ChatMessage::text("user", "x"),
        ChatMessage::tool_output("1", "one"),
        calling(&["4", "5"]),
        ChatMessage::tool_output("1", "one again"),
        ChatMessage::tool_output("5", "five"),
        ChatMessage::tool_output("4", "four"),
        ChatMessage::tool_output("2", "two again"),
    ];
    repair_chat_tool_message_sequence(&mut messages);
    assert_eq!(
        messages,
        vec![
            calling(&["1", "2", "3"]),
            ChatMessage::tool_output("2", "two"),
            ChatMessage::tool_output("1", "one"),
            ChatMessage::tool_output("3", "aborted"),
            ChatMessage::text("user", "x"),
            calling(&["4", "5"]),
            ChatMessage::tool_output("5", "five"),
            ChatMessage::tool_output("4", "four"),
        ]
    );
}
