use jacox::api::{default_limit, default_offset, OpenAIChatResponse, OpenAIChoice,
    OpenAIMessage, OpenAIStreamChunk, OpenAIUsage, PaginationQuery};
use jacox::auth::ApiKeyAuth;
use jacox::config::{AnthropicConfig, AppConfig, AuthConfig, ChatConfig, DatabaseConfig,
    LlmConfig, OllamaConfig, OpenAiConfig, ServerConfig};
use jacox::llm::{ProviderChoice, ProviderFactory};
use jacox::store::DbService;
use jacox::stream::{cancel_notifications, parse_ws_client, sse_data_frame, sse_done_frame,
    ConnectionSupervisor, StreamAccumulator, WsServerMessage};
use jacox::tools::{SearchTool, ToolRegistry};

#[test]
fn test_session_lifecycle() {
    let mut conn = DbService::new();

    // 1. Insert Session
    let session = conn.insert_session("Test Chat", "{\"source\":\"test\"}");
    assert_eq!(session.name, "Test Chat");

    // 2. Get Session
    let fetched = conn.get_session(&session.id).unwrap();
    assert_eq!(fetched.id, session.id);

    // 3. List Sessions
    let list = conn.list_sessions(10, 0);
    assert_eq!(list.len(), 1);

    // 4. Delete Session
    conn.delete_session(&session.id);
    let deleted = conn.get_session(&session.id);
    assert!(deleted.is_none());
}

#[test]
fn test_message_lifecycle() {
    let mut conn = DbService::new();
    let session = conn.insert_session("Test Chat 2", "{}");

    // 1. Insert Messages
    let msg1 = conn.insert_message(&session.id, "system", "You are a bot", None, None, "{}");

    let msg2 = conn.insert_message(&session.id, "user", "Hello!", None, Some(5), "{}");

    assert_eq!(msg1.role, "system");
    assert_eq!(msg1.session_id, session.id);
    assert_eq!(msg2.token_count, Some(5));

    // 2. Fetch Messages
    let history = conn.get_messages(&session.id, 10, 0);
    assert_eq!(history.len(), 2);
    assert_eq!(history[0].role, "system");
    assert_eq!(history[1].role, "user");

    // 3. Delete Session Cascades
    conn.delete_session(&session.id);
    let empty_history = conn.get_messages(&session.id, 10, 0);
    assert_eq!(empty_history.len(), 0);
}

#[test]
fn test_search_tool_definition() {
    let tool = SearchTool::new();
    let def = tool.definition();
    assert_eq!(def.function.name, "internet_search");
}

#[test]
fn listing_orders_by_recency_and_windows() {
    let mut store = DbService::new();
    let a = store.insert_session("a", "{}");
    let b = store.insert_session("b", "{}");
    let c = store.insert_session("c", "{}");
    // Touch `a` last: it becomes the most recently updated.
    store.insert_message(&a.id, "user", "x", None, None, "{}");
    let all = store.list_sessions(10, 0);
    let names: Vec<&str> = all.iter().map(|s| s.name.as_str()).collect();
    assert_eq!(names, vec!["a", "c", "b"]);
    let page = store.list_sessions(1, 1);
    assert_eq!(page.len(), 1);
    assert_eq!(page[0].name, "c");
    assert_eq!(store.list_sessions(10, 3).len(), 0);
    let _ = b;
}

#[test]
fn message_windows_are_oldest_first() {
    let mut store = DbService::new();
    let s = store.insert_session("s", "{}");
    for i in 0..5 {
        store.insert_message(&s.id, "user", &format!("m{}", i), None, None, "{}");
    }
    let window = store.get_messages(&s.id, 2, 1);
    assert_eq!(window.len(), 2);
    assert_eq!(window[0].content, "m1");
    assert_eq!(window[1].content, "m2");
}

#[test]
fn stats_count_store_contents() {
    let mut store = DbService::new();
    let s = store.insert_session("s", "{}");
    store.insert_message(&s.id, "user", "a", None, Some(3), "{}");
    store.insert_message(&s.id, "assistant", "b", Some("m"), Some(4), "{}");
    let stats = store.stats(123);
    assert_eq!(stats.total_sessions, 1);
    assert_eq!(stats.total_messages, 2);
    assert_eq!(stats.total_tokens, 7);
    assert_eq!(stats.db_size_bytes, 123);
}

#[test]
fn pagination_defaults() {
    assert_eq!(default_limit(), 50);
    assert_eq!(default_offset(), 0);
    let q = PaginationQuery::new_default();
    assert_eq!(q.limit, 50);
    assert_eq!(q.offset, 0);
}

#[test]
fn cancel_after_three_fragments_emits_status_then_done() {
    // Scenario: a cancel instruction arrives after 3 relayed fragments. The
    // consumer observes exactly 3 chunk notifications, then status, then
    // done — and nothing further.
    let mut supervisor = ConnectionSupervisor::new();
    let (aborted, run_id) = supervisor.on_message();
    assert!(aborted.is_none());
    let mut observed: Vec<WsServerMessage> = Vec::new();
    let mut acc = StreamAccumulator::new();
    for fragment in ["Hel", "lo ", "there"] {
        acc.on_token(fragment);
        observed.push(WsServerMessage::chunk(fragment));
    }
    let (cancelled, notices) = supervisor.on_cancel();
    assert_eq!(cancelled, Some(run_id));
    for n in notices {
        observed.push(n);
    }
    let kinds: Vec<&str> = observed.iter().map(|m| m.kind.as_str()).collect();
    assert_eq!(kinds, vec!["chunk", "chunk", "chunk", "status", "done"]);
    assert_eq!(observed[3].content, "Process cancelled");
    assert_eq!(observed[4].content, "");
    assert_eq!(acc.chunks, 3);
    assert_eq!(acc.into_text(), "Hello there");
    // No active run remains; a later cancel emits nothing.
    let (none_cancelled, no_notices) = supervisor.on_cancel();
    assert!(none_cancelled.is_none());
    assert_eq!(no_notices.len(), 0);
}

#[test]
fn supervisor_last_write_wins() {
    let mut supervisor = ConnectionSupervisor::new();
    let (aborted_first, first) = supervisor.on_message();
    assert!(aborted_first.is_none());
    let (aborted_second, second) = supervisor.on_message();
    assert_eq!(aborted_second, Some(first));
    assert_ne!(first, second);
    let closed = supervisor.on_close();
    assert_eq!(closed, Some(second));
    assert!(supervisor.on_close().is_none());
}

#[test]
fn zero_token_stream_still_completes() {
    let acc = StreamAccumulator::new();
    assert_eq!(acc.chunks, 0);
    assert_eq!(acc.into_text(), "");
    let done = cancel_notifications();
    assert_eq!(done.len(), 2);
    assert_eq!(done[1].kind, "done");
}

#[test]
fn ws_messages_render_and_parse() {
    let msg = WsServerMessage::status("Searching: internet_search...");
    assert_eq!(
        msg.to_json(),
        "{\"type\":\"status\",\"content\":\"Searching: internet_search...\"}"
    );
    let parsed = parse_ws_client("{\"type\":\"message\",\"content\":\"Hi\",\"stream\":true}")
        .unwrap();
    assert_eq!(parsed.kind, "message");
    assert_eq!(parsed.content, "Hi");
    assert_eq!(parsed.stream, Some(true));
    let cancel = parse_ws_client("{\"type\":\"cancel\",\"content\":\"\"}").unwrap();
    assert_eq!(cancel.kind, "cancel");
    assert!(cancel.stream.is_none());
    assert!(parse_ws_client("{\"content\":\"no type\"}").is_none());
    assert!(parse_ws_client("garbage").is_none());
}

#[test]
fn sse_frames() {
    assert_eq!(sse_data_frame("{\"x\":1}"), "data: {\"x\":1}\n\n");
    assert_eq!(sse_done_frame(), "data: [DONE]\n\n");
}

#[test]
fn stream_chunks_render_like_the_wire() {
    let opening = OpenAIStreamChunk::opening("chatcmpl-1", 99, "gpt-4o");
    assert_eq!(
        opening.to_json(),
        "{\"id\":\"chatcmpl-1\",\"object\":\"chat.completion.chunk\",\"created\":99,\
         \"model\":\"gpt-4o\",\"choices\":[{\"index\":0,\"delta\":{\"role\":\"assistant\",\
         \"content\":null}}]}"
    );
    let fragment = OpenAIStreamChunk::fragment("chatcmpl-1", 99, "gpt-4o", "Hi");
    let v: serde_json::Value = serde_json::from_str(&fragment.to_json()).unwrap();
    assert_eq!(v["choices"][0]["delta"]["content"].as_str(), Some("Hi"));
    let closing = OpenAIStreamChunk::closing("chatcmpl-1", 99, "gpt-4o");
    let v: serde_json::Value = serde_json::from_str(&closing.to_json()).unwrap();
    assert_eq!(v["choices"][0]["finish_reason"].as_str(), Some("stop"));
}

#[test]
fn one_shot_response_renders_like_the_wire() {
    let resp = OpenAIChatResponse {
        id: "chatcmpl-2".to_string(),
        object: "chat.completion".to_string(),
        created: 7,
        model: "gpt-4o".to_string(),
        choices: vec![OpenAIChoice {
            index: 0,
            message: OpenAIMessage {
                role: "assistant".to_string(),
                content: "Hello".to_string(),
                tool_calls: None,
                tool_call_id: None,
            },
            finish_reason: Some("stop".to_string()),
        }],
        usage: Some(OpenAIUsage { prompt_tokens: 1, completion_tokens: 2, total_tokens: 3 }),
    };
    let text = resp.to_json();
    let v: serde_json::Value = serde_json::from_str(&text).unwrap();
    assert_eq!(v["choices"][0]["message"]["content"].as_str(), Some("Hello"));
    assert_eq!(v["usage"]["total_tokens"].as_u64(), Some(3));
    assert_eq!(v["created"].as_u64(), Some(7));
}

#[test]
fn auth_decisions() {
    let keys = vec!["k1".to_string(), "k2".to_string()];
    assert!(ApiKeyAuth::check(&keys, true, "/sessions", None, None));
    assert!(ApiKeyAuth::check(&keys, false, "/health", None, None));
    assert!(ApiKeyAuth::check(&keys, false, "/", None, None));
    assert!(ApiKeyAuth::check(&keys, false, "/sessions", Some("Bearer k2"), None));
    assert!(!ApiKeyAuth::check(&keys, false, "/sessions", Some("Bearer nope"), None));
    assert!(!ApiKeyAuth::check(&keys, false, "/sessions", Some("Token k2"), None));
    // With a header present, the query parameter is never consulted.
    assert!(!ApiKeyAuth::check(&keys, false, "/sessions", Some("Basic x"), Some("k2")));
    assert!(ApiKeyAuth::check(&keys, false, "/ws/chat/abc", None, Some("k2")));
    assert!(!ApiKeyAuth::check(&keys, false, "/ws/chat/abc", None, None));
}

#[test]
fn factory_selects_configured_backend() {
    let config = AppConfig {
        server: ServerConfig { host: "127.0.0.1".to_string(), port: 8080 },
        database: DatabaseConfig { path: ":memory:".to_string() },
        auth: AuthConfig { api_keys: vec!["k".to_string()], token_expiry_hours: 24 },
        llm: LlmConfig {
            provider: "ollama".to_string(),
            model: "llama3.2".to_string(),
            openai: Some(OpenAiConfig {
                api_base: "https://api.example".to_string(),
                api_key: "sk".to_string(),
                default_model: "gpt-4o".to_string(),
            }),
            anthropic: None,
            ollama: Some(OllamaConfig {
                base_url: "http://localhost:11434".to_string(),
                default_model: "llama3.2".to_string(),
            }),
        },
        chat: ChatConfig {
            max_history_messages: 50,
            system_prompt: "You are helpful.".to_string(),
        },
    };
    match ProviderFactory::create_default(&config) {
        Some(ProviderChoice::Ollama(c)) => {
            assert_eq!(c.base_url, "http://localhost:11434");
            assert_eq!(c.default_model, "llama3.2");
        },
        _ => panic!("expected the local-inference backend"),
    }
    let mut misconfigured = config;
    misconfigured.llm.provider = "anthropic".to_string();
    assert!(ProviderFactory::create_default(&misconfigured).is_none());
    misconfigured.llm.provider = "unknown".to_string();
    assert!(ProviderFactory::create_default(&misconfigured).is_none());
    let _ = AnthropicConfig {
        api_base: String::new(),
        api_key: String::new(),
        default_model: String::new(),
    };
}

#[test]
fn history_maps_metadata_back_to_turns() {
    let mut store = DbService::new();
    let s = store.insert_session("s", "{}");
    store.insert_message(&s.id, "user", "hi", None, None, "{}");
    store.insert_message(
        &s.id,
        "assistant",
        "",
        Some("m"),
        None,
        "{\"tool_calls\":[{\"id\":\"c1\",\"function\":{\"name\":\"internet_search\",\
         \"arguments\":\"{}\"}}]}",
    );
    store.insert_message(&s.id, "tool", "result", None, None, "{\"tool_call_id\":\"c1\"}");
    let history = store.get_messages(&s.id, 50, 0);
    let transcript = jacox::gateway::history_to_transcript(&history);
    assert_eq!(transcript.len(), 3);
    assert!(transcript[0].tool_calls.is_none());
    let calls = transcript[1].tool_calls.as_ref().unwrap();
    assert_eq!(calls[0].function.name, "internet_search");
    assert_eq!(calls[0].id.as_deref(), Some("c1"));
    assert_eq!(transcript[2].tool_call_id.as_deref(), Some("c1"));
}

#[test]
fn search_arguments_parse() {
    assert_eq!(
        SearchTool::parse_arguments("{\"query\": \"rust programming language\"}").as_deref(),
        Some("rust programming language")
    );
    assert!(SearchTool::parse_arguments("{\"q\": 1}").is_none());
    assert!(SearchTool::parse_arguments("not json").is_none());
    let registry = ToolRegistry::new();
    let defs = registry.get_definitions();
    assert_eq!(defs.len(), 1);
    assert_eq!(defs[0].kind, "function");
    // The offered schema is valid JSON.
    let v: serde_json::Value = serde_json::from_str(&defs[0].function.parameters).unwrap();
    assert_eq!(v["required"][0].as_str(), Some("query"));
}

#[test]
fn normalize_adds_grounded_system_entry() {
    let messages = vec![OpenAIMessage {
        role: "user".to_string(),
        content: "what day is it, {current_date}?".to_string(),
        tool_calls: None,
        tool_call_id: None,
    }];
    let normalized = jacox::api::normalize_openai_messages(&messages, "Friday");
    assert_eq!(normalized.len(), 2);
    assert_eq!(normalized[0].role, "system");
    assert_eq!(normalized[0].content, "Current Date: Friday.\n\n");
    assert_eq!(normalized[1].content, "what day is it, Friday?");
    // With a system turn present, none is synthesized and the turn is
    // grounded.
    let with_system = vec![
        OpenAIMessage {
            role: "system".to_string(),
            content: "sys {current_date}".to_string(),
            tool_calls: None,
            tool_call_id: None,
        },
        OpenAIMessage {
            role: "user".to_string(),
            content: "hi".to_string(),
            tool_calls: None,
            tool_call_id: None,
        },
    ];
    let normalized = jacox::api::normalize_openai_messages(&with_system, "Friday");
    assert_eq!(normalized.len(), 2);
    assert_eq!(normalized[0].content, "Current Date: Friday.\n\nsys Friday");
}

#[test]
fn update_session_replaces_fields_and_bumps_recency() {
    let mut store = DbService::new();
    let a = store.insert_session("a", "{}");
    let b = store.insert_session("b", "{\"keep\":true}");
    let updated = store
        .update_session(&a.id, Some("renamed"), Some("{\"x\":1}"))
        .unwrap();
    assert_eq!(updated.id, a.id);
    assert_eq!(updated.name, "renamed");
    assert_eq!(updated.metadata, "{\"x\":1}");
    assert!(updated.updated_at >= a.updated_at);
    // The updated session is now the most recently updated one.
    let list = store.list_sessions(10, 0);
    assert_eq!(list[0].id, a.id);
    assert_eq!(list[1].id, b.id);
    // Absent fields stand.
    let touched = store.update_session(&b.id, None, None).unwrap();
    assert_eq!(touched.name, "b");
    assert_eq!(touched.metadata, "{\"keep\":true}");
    // A missing id changes nothing.
    assert!(store.update_session("no-such-id", Some("x"), None).is_none());
    assert_eq!(store.list_sessions(10, 0).len(), 2);
}

#[test]
fn session_ids_are_uuid_shaped() {
    let mut store = DbService::new();
    let first = store.insert_session("one", "{}");
    let second = store.insert_session("two", "{}");
    assert_eq!(first.id.len(), 36);
    assert_eq!(second.id.len(), 36);
    assert_ne!(first.id, second.id);
}

#[test]
fn tagged_persistence_carries_the_source_label() {
    let mut store = DbService::new();
    let s = store.insert_session("s", "{}");
    let entry = jacox::agent::PersistedEntry {
        role: "assistant".to_string(),
        content: "hello".to_string(),
        model: Some("m".to_string()),
        token_count: None,
        tool_calls: None,
        tool_call_id: None,
    };
    let stored = jacox::gateway::persist_entry_tagged(&mut store, &s.id, &entry, "openai_adapter");
    assert_eq!(stored.metadata, "{\"source\":\"openai_adapter\"}");
    let tool_entry = jacox::agent::PersistedEntry {
        role: "tool".to_string(),
        content: "result".to_string(),
        model: None,
        token_count: None,
        tool_calls: None,
        tool_call_id: Some("c1".to_string()),
    };
    let stored = jacox::gateway::persist_entry_tagged(&mut store, &s.id, &tool_entry, "openai_adapter");
    assert_eq!(
        stored.metadata,
        "{\"source\":\"openai_adapter\",\"tool_call_id\":\"c1\"}"
    );
}
