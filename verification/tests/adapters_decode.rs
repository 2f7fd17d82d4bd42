use jacox::adapters::{anthropic_request, ollama_request, openai_request, provider_name,
    supported_models, Vendor};
use jacox::decode::{classify_error_status, decode_anthropic_body, decode_ollama_body,
    decode_openai_body, decode_stream_line, extract_stream_texts, http_is_success};
use jacox::llm::LlmError;
use jacox::models::{ChatOptions, Message, ToolDefinition, FunctionDefinition};

fn user(content: &str) -> Message {
    Message {
        role: "user".to_string(),
        content: content.to_string(),
        tool_calls: None,
        tool_call_id: None,
    }
}

fn system(content: &str) -> Message {
    Message {
        role: "system".to_string(),
        content: content.to_string(),
        tool_calls: None,
        tool_call_id: None,
    }
}

fn empty_options() -> ChatOptions {
    ChatOptions {
        model: None,
        temperature: None,
        max_tokens: None,
        system_prompt: None,
        tools: None,
        tool_choice: None,
    }
}

#[test]
fn anthropic_body_extracts_system() {
    // Vendors that take the system prompt as a separate field: every
    // system turn leaves the transcript, their contents concatenate with
    // newlines, the override lands at the end, and the result is trimmed.
    let messages = vec![system("Be kind."), user("Hi"), system("Be brief.")];
    let mut options = empty_options();
    options.system_prompt = Some("Override.".to_string());
    let prepared = anthropic_request(&messages, &options, "sonnet-3-5-latest", false);
    assert_eq!(prepared.model, "sonnet-3-5-latest");
    assert_eq!(
        prepared.body,
        "{\"model\":\"sonnet-3-5-latest\",\"messages\":[{\"role\":\"user\",\"content\":\"Hi\"}],\
         \"system\":\"Be kind.\\nBe brief.\\nOverride.\",\"temperature\":0.7,\"max_tokens\":4096}"
    );
    // The body is valid JSON with the expected fields.
    let v: serde_json::Value = serde_json::from_str(&prepared.body).unwrap();
    assert_eq!(v["system"].as_str(), Some("Be kind.\nBe brief.\nOverride."));
    assert_eq!(v["messages"].as_array().unwrap().len(), 1);
}

#[test]
fn openai_body_inlines_system_option() {
    let messages = vec![user("Hi")];
    let mut options = empty_options();
    options.system_prompt = Some("sys".to_string());
    options.temperature = Some("0.2".to_string());
    options.max_tokens = Some(16);
    options.model = Some("gpt-4o".to_string());
    let prepared = openai_request(&messages, &options, "default", true);
    assert_eq!(prepared.model, "gpt-4o");
    assert_eq!(
        prepared.body,
        "{\"model\":\"gpt-4o\",\"messages\":[{\"role\":\"system\",\"content\":\"sys\"},\
         {\"role\":\"user\",\"content\":\"Hi\"}],\"stream\":true,\"temperature\":0.2,\
         \"max_tokens\":16}"
    );
}

#[test]
fn ollama_body_carries_tools() {
    let messages = vec![user("Hi")];
    let mut options = empty_options();
    options.tools = Some(vec![ToolDefinition {
        kind: "function".to_string(),
        function: FunctionDefinition {
            name: "internet_search".to_string(),
            description: "d".to_string(),
            parameters: "{\"type\":\"object\"}".to_string(),
        },
    }]);
    let prepared = ollama_request(&messages, &options, "llama3.2", false);
    let v: serde_json::Value = serde_json::from_str(&prepared.body).unwrap();
    assert_eq!(v["model"].as_str(), Some("llama3.2"));
    assert_eq!(v["stream"].as_bool(), Some(false));
    assert_eq!(v["options"]["num_predict"].as_u64(), Some(4096));
    assert_eq!(v["tools"][0]["function"]["name"].as_str(), Some("internet_search"));
}

#[test]
fn status_classification() {
    assert!(http_is_success(200));
    assert!(http_is_success(299));
    assert!(!http_is_success(199));
    assert!(!http_is_success(404));
    let rate = classify_error_status(Vendor::OpenAi, false, 429, "429 Too Many Requests", "slow");
    assert!(matches!(rate, LlmError::RateLimited));
    let api = classify_error_status(Vendor::Anthropic, false, 500, "500 Internal Server Error", "boom");
    match api {
        LlmError::Api(msg) => {
            assert_eq!(msg, "Anthropic Error 500 Internal Server Error: boom");
        },
        _ => panic!("expected an Api failure"),
    }
    let stream_api = classify_error_status(Vendor::Ollama, true, 503, "503", "down");
    match stream_api {
        LlmError::Api(msg) => assert_eq!(msg, "Ollama Stream Error 503: down"),
        _ => panic!("expected an Api failure"),
    }
}

#[test]
fn openai_decode_reads_content_and_usage() {
    let body = "{\"choices\":[{\"message\":{\"content\":\"Hello\"}}],\
                \"usage\":{\"prompt_tokens\":5,\"completion_tokens\":7}}";
    let resp = decode_openai_body(body, "gpt-4o").unwrap();
    assert_eq!(resp.content, "Hello");
    assert_eq!(resp.model, "gpt-4o");
    let usage = resp.usage.unwrap();
    assert_eq!(usage.input_tokens, 5);
    assert_eq!(usage.output_tokens, 7);
    assert!(resp.tool_calls.is_none());
}

#[test]
fn openai_decode_missing_content_is_invalid() {
    let body = "{\"choices\":[{\"message\":{}}]}";
    match decode_openai_body(body, "m") {
        Err(LlmError::InvalidRequest) => {},
        _ => panic!("expected InvalidRequest"),
    }
}

#[test]
fn decode_unreadable_body_is_network_failure() {
    match decode_openai_body("not json", "m") {
        Err(LlmError::Network(_)) => {},
        _ => panic!("expected Network"),
    }
    match decode_ollama_body("{truncated", "m") {
        Err(LlmError::Network(_)) => {},
        _ => panic!("expected Network"),
    }
}

#[test]
fn anthropic_decode_reads_text_block() {
    let body = "{\"content\":[{\"type\":\"text\",\"text\":\"Hi there\"}],\
                \"usage\":{\"input_tokens\":2,\"output_tokens\":3}}";
    let resp = decode_anthropic_body(body, "sonnet-3-5-latest").unwrap();
    assert_eq!(resp.content, "Hi there");
    let usage = resp.usage.unwrap();
    assert_eq!(usage.input_tokens, 2);
    assert_eq!(usage.output_tokens, 3);
}

#[test]
fn ollama_decode_structured_tool_calls() {
    let body = "{\"message\":{\"content\":\"\",\"tool_calls\":[{\"function\":\
                {\"name\":\"internet_search\",\"arguments\":\"{\\\"query\\\":\\\"x\\\"}\"}}]}}";
    let resp = decode_ollama_body(body, "llama3.2").unwrap();
    let calls = resp.tool_calls.unwrap();
    assert_eq!(calls.len(), 1);
    assert_eq!(calls[0].function.name, "internet_search");
    assert_eq!(calls[0].function.arguments, "{\"query\":\"x\"}");
}

#[test]
fn ollama_fallback_extracts_inline_array() {
    // Local-inference content `prefix [{"name":"f","arguments":"{}"}]` with
    // no structured field: the invocation is lifted out and the visible
    // content truncates to the text ahead of the literal.
    let body = "{\"message\":{\"content\":\
                \"prefix [{\\\"name\\\":\\\"f\\\",\\\"arguments\\\":\\\"{}\\\"}]\"}}";
    let resp = decode_ollama_body(body, "llama3.2").unwrap();
    assert_eq!(resp.content, "prefix");
    let calls = resp.tool_calls.unwrap();
    assert_eq!(calls.len(), 1);
    assert_eq!(calls[0].function.name, "f");
    assert_eq!(calls[0].function.arguments, "{}");
    assert_eq!(calls[0].kind.as_deref(), Some("function"));
}

#[test]
fn ollama_fallback_accepts_wrapped_shape_and_object_arguments() {
    let body = "{\"message\":{\"content\":\
                \"go [{\\\"function\\\":{\\\"name\\\":\\\"g\\\",\\\"arguments\\\":{\\\"q\\\":1}}}]\"}}";
    let resp = decode_ollama_body(body, "m").unwrap();
    assert_eq!(resp.content, "go");
    let calls = resp.tool_calls.unwrap();
    assert_eq!(calls[0].function.name, "g");
    assert_eq!(calls[0].function.arguments, "{\"q\":1}");
}

#[test]
fn ollama_fallback_never_fails_on_plain_arrays() {
    // An unrelated array in the content is left untouched: the heuristic
    // never raises and never mangles content it cannot read as calls.
    let body = "{\"message\":{\"content\":\"the list [1, 2, 3] stays\"}}";
    let resp = decode_ollama_body(body, "m").unwrap();
    assert_eq!(resp.content, "the list [1, 2, 3] stays");
    assert!(resp.tool_calls.is_none());
}

#[test]
fn ollama_fallback_counts_brackets_inside_strings() {
    // Bracket depth counts every bracket character, so an argument string
    // holding brackets extends the literal to its true closing bracket.
    let body = "{\"message\":{\"content\":\
                \"x [{\\\"name\\\":\\\"h\\\",\\\"arguments\\\":\\\"[1]\\\"}]\"}}";
    let resp = decode_ollama_body(body, "m").unwrap();
    assert_eq!(resp.content, "x");
    let calls = resp.tool_calls.unwrap();
    assert_eq!(calls[0].function.arguments, "[1]");
}

#[test]
fn stream_line_decoding_per_vendor() {
    // Completions protocol: data-prefixed events; the sentinel and
    // non-text frames are dropped.
    let line = "data: {\"choices\":[{\"delta\":{\"content\":\"He\"}}]}";
    assert_eq!(decode_stream_line(Vendor::OpenAi, line).as_deref(), Some("He"));
    assert_eq!(decode_stream_line(Vendor::OpenAi, "data: [DONE]"), None);
    assert_eq!(decode_stream_line(Vendor::OpenAi, ""), None);
    assert_eq!(
        decode_stream_line(Vendor::OpenAi, "data: {\"choices\":[{\"delta\":{\"role\":\"assistant\"}}]}"),
        None
    );
    // Side-channel-system vendor: only content_block_delta events carry text.
    let anthropic_line =
        "data: {\"type\":\"content_block_delta\",\"delta\":{\"text\":\"llo\"}}";
    assert_eq!(
        decode_stream_line(Vendor::Anthropic, anthropic_line).as_deref(),
        Some("llo")
    );
    assert_eq!(
        decode_stream_line(Vendor::Anthropic, "data: {\"type\":\"ping\"}"),
        None
    );
    // Local inference: bare JSON objects per line.
    assert_eq!(
        decode_stream_line(Vendor::Ollama, "{\"message\":{\"content\":\"!\"}}").as_deref(),
        Some("!")
    );
    assert_eq!(decode_stream_line(Vendor::Ollama, "   "), None);
}

#[test]
fn stream_chunk_extraction_keeps_order() {
    let chunk = "data: {\"choices\":[{\"delta\":{\"content\":\"a\"}}]}\n\
                 data: {\"choices\":[{\"delta\":{\"content\":\"b\"}}]}\n\
                 data: [DONE]\n";
    let texts = extract_stream_texts(Vendor::OpenAi, chunk);
    assert_eq!(texts, vec!["a".to_string(), "b".to_string()]);
}

#[test]
fn vendor_identity() {
    assert_eq!(provider_name(Vendor::OpenAi), "openai");
    assert_eq!(provider_name(Vendor::Anthropic), "anthropic");
    assert_eq!(provider_name(Vendor::Ollama), "ollama");
    assert_eq!(supported_models(Vendor::Ollama), vec!["llama3.2", "mistral"]);
    assert_eq!(
        supported_models(Vendor::Anthropic),
        vec!["sonnet-3-5-latest", "opus-3-latest"]
    );
}

#[test]
fn error_messages_render() {
    assert_eq!(LlmError::InvalidRequest.message(), "Invalid Request");
    assert_eq!(LlmError::RateLimited.message(), "Rate Limited");
    assert_eq!(
        LlmError::Network("timeout".to_string()).message(),
        "Network Error: timeout"
    );
    assert_eq!(LlmError::Api("x".to_string()).message(), "API Error: x");
}

#[test]
fn usage_counters_truncate_to_32_bits() {
    // A reported counter wider than 32 bits lands reduced mod 2^32, the
    // way a plain integer cast reads it.
    let body = "{\"choices\":[{\"message\":{\"content\":\"x\"}}],\
                \"usage\":{\"prompt_tokens\":4294967297,\"completion_tokens\":2}}";
    let resp = decode_openai_body(body, "m").unwrap();
    let usage = resp.usage.unwrap();
    assert_eq!(usage.input_tokens, 1);
    assert_eq!(usage.output_tokens, 2);
}

#[test]
fn ollama_stream_chunk_with_many_lines() {
    let chunk = "{\"message\":{\"content\":\"a\"}}\n\
                 \n\
                 {\"done\":true}\n\
                 {\"message\":{\"content\":\"b\"}}\n";
    let texts = extract_stream_texts(Vendor::Ollama, chunk);
    assert_eq!(texts, vec!["a".to_string(), "b".to_string()]);
}

#[test]
fn anthropic_stream_chunk_drops_non_delta_events() {
    let chunk = "data: {\"type\":\"message_start\"}\n\
                 data: {\"type\":\"content_block_delta\",\"delta\":{\"text\":\"Hi\"}}\n\
                 data: {\"type\":\"message_stop\"}\n";
    let texts = extract_stream_texts(Vendor::Anthropic, chunk);
    assert_eq!(texts, vec!["Hi".to_string()]);
}

#[test]
fn inline_system_is_not_duplicated() {
    // A synthesized system entry lands at position 0 only if none exists:
    // a transcript already holding a system turn goes out unchanged, even
    // with an options override present.
    let messages = vec![system("already here"), user("Hi")];
    let mut options = empty_options();
    options.system_prompt = Some("override".to_string());
    let prepared = openai_request(&messages, &options, "gpt-4o", false);
    let v: serde_json::Value = serde_json::from_str(&prepared.body).unwrap();
    let sent = v["messages"].as_array().unwrap();
    assert_eq!(sent.len(), 2);
    assert_eq!(sent[0]["role"].as_str(), Some("system"));
    assert_eq!(sent[0]["content"].as_str(), Some("already here"));
    assert_eq!(sent[1]["role"].as_str(), Some("user"));
    let prepared = ollama_request(&messages, &options, "llama3.2", false);
    let v: serde_json::Value = serde_json::from_str(&prepared.body).unwrap();
    assert_eq!(v["messages"].as_array().unwrap().len(), 2);
}
