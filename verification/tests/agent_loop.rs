use jacox::agent::{run_with_responses, AgentRun, RunOutcome, RunPhase};
use jacox::models::{ChatOptions, ChatResponse, FunctionCall, Message, ToolCall, Usage};
use jacox::store::DbService;
use jacox::tools::ToolRegistry;

fn user_message(content: &str) -> Message {
    Message {
        role: "user".to_string(),
        content: content.to_string(),
        tool_calls: None,
        tool_call_id: None,
    }
}

fn final_response(content: &str) -> ChatResponse {
    ChatResponse {
        content: content.to_string(),
        model: "test-model".to_string(),
        usage: None,
        tool_calls: None,
    }
}

fn tool_response(name: &str, args: &str) -> ChatResponse {
    ChatResponse {
        content: String::new(),
        model: "test-model".to_string(),
        usage: None,
        tool_calls: Some(vec![ToolCall {
            id: None,
            kind: Some("function".to_string()),
            function: FunctionCall {
                name: name.to_string(),
                arguments: args.to_string(),
            },
        }]),
    }
}

#[test]
fn scenario_first_answer_finishes() {
    // A first result with no tool invocations: one provider call, one
    // persisted assistant entry, run finished.
    let transcript = vec![user_message("Hi")];
    let responses = vec![final_response("Hello")];
    let registry = ToolRegistry::new();
    let outputs: Vec<String> = Vec::new();
    let (run, outcome) = run_with_responses(transcript, &responses, &registry, &outputs, "test");
    assert!(matches!(outcome, RunOutcome::Finished));
    assert_eq!(run.provider_calls, 1);
    assert_eq!(run.persisted.len(), 1);
    assert_eq!(run.persisted[0].role, "assistant");
    assert_eq!(run.persisted[0].content, "Hello");
    assert_eq!(run.persisted[0].model.as_deref(), Some("test"));
}

#[test]
fn scenario_persists_one_entry_with_store() {
    // Scenario: transcript=[{user,"Hi"}]; the adapter answers
    // {content:"Hello"} with no invocations; exactly one new assistant
    // entry lands in the store and the run is finished.
    let mut store = DbService::new();
    let session = store.insert_session("Test Chat", "{}");
    store.insert_message(&session.id, "user", "Hi", None, None, "{}");
    let transcript = vec![user_message("Hi")];
    let responses = vec![final_response("Hello")];
    let registry = ToolRegistry::new();
    let outputs: Vec<String> = Vec::new();
    let (run, outcome) = run_with_responses(transcript, &responses, &registry, &outputs, "test");
    assert!(matches!(outcome, RunOutcome::Finished));
    for entry in &run.persisted {
        jacox::gateway::persist_entry(&mut store, &session.id, entry);
    }
    let history = store.get_messages(&session.id, 50, 0);
    assert_eq!(history.len(), 2);
    assert_eq!(history[0].role, "user");
    assert_eq!(history[1].role, "assistant");
    assert_eq!(history[1].content, "Hello");
}

#[test]
fn scenario_tool_round_then_final() {
    // Scenario: one invocation {name:"internet_search", args:{"query":"x"}}
    // on the first call, none on the second: 2 provider calls; persisted
    // entries assistant(with invocation), tool(result), assistant(final),
    // 4 in the store counting the initial user message.
    let mut store = DbService::new();
    let session = store.insert_session("Chat", "{}");
    store.insert_message(&session.id, "user", "look this up", None, None, "{}");
    let transcript = vec![user_message("look this up")];
    let responses = vec![
        tool_response("internet_search", "{\"query\":\"x\"}"),
        final_response("here is what I found"),
    ];
    let registry = ToolRegistry::new();
    let outputs = vec!["a search result".to_string()];
    let (run, outcome) = run_with_responses(transcript, &responses, &registry, &outputs, "test");
    assert!(matches!(outcome, RunOutcome::Finished));
    assert_eq!(run.provider_calls, 2);
    assert_eq!(run.persisted.len(), 3);
    assert_eq!(run.persisted[0].role, "assistant");
    assert!(run.persisted[0].tool_calls.is_some());
    assert_eq!(run.persisted[1].role, "tool");
    assert_eq!(run.persisted[1].content, "a search result");
    assert!(run.persisted[1].tool_call_id.is_some());
    assert_eq!(run.persisted[2].role, "assistant");
    assert_eq!(run.persisted[2].content, "here is what I found");
    for entry in &run.persisted {
        jacox::gateway::persist_entry(&mut store, &session.id, entry);
    }
    let history = store.get_messages(&session.id, 50, 0);
    assert_eq!(history.len(), 4);
    let roles: Vec<&str> = history.iter().map(|m| m.role.as_str()).collect();
    assert_eq!(roles, vec!["user", "assistant", "tool", "assistant"]);
}

#[test]
fn loop_stops_at_five_calls() {
    // Every answer requests a tool: exactly 5 provider calls, then the
    // bound is reported — never a sixth.
    let transcript = vec![user_message("loop forever")];
    let responses: Vec<ChatResponse> = (0..10)
        .map(|_| tool_response("internet_search", "{\"query\":\"again\"}"))
        .collect();
    let registry = ToolRegistry::new();
    let outputs: Vec<String> = (0..10).map(|i| format!("result {}", i)).collect();
    let (run, outcome) = run_with_responses(transcript, &responses, &registry, &outputs, "test");
    assert!(matches!(outcome, RunOutcome::LoopExceeded));
    assert_eq!(run.provider_calls, 5);
    // 5 rounds of assistant + tool.
    assert_eq!(run.persisted.len(), 10);
    for k in 0..5 {
        assert_eq!(run.persisted[2 * k].role, "assistant");
        assert_eq!(run.persisted[2 * k + 1].role, "tool");
    }
}

#[test]
fn provider_failure_aborts_run() {
    // An exhausted script stands for a provider failure: the run aborts
    // with nothing persisted, the transcript never mutated.
    let transcript = vec![user_message("Hi")];
    let responses: Vec<ChatResponse> = Vec::new();
    let registry = ToolRegistry::new();
    let outputs: Vec<String> = Vec::new();
    let (run, outcome) = run_with_responses(transcript, &responses, &registry, &outputs, "test");
    assert!(matches!(outcome, RunOutcome::ProviderFailed));
    assert_eq!(run.provider_calls, 0);
    assert_eq!(run.persisted.len(), 0);
    assert_eq!(run.transcript.len(), 1);
}

#[test]
fn unknown_tool_yields_identical_diagnostics() {
    // Invoking an unknown tool name twice with identical arguments yields
    // identical diagnostic text both times, and never fails.
    let first = ToolRegistry::unknown_tool_text("no_such_tool");
    let second = ToolRegistry::unknown_tool_text("no_such_tool");
    assert_eq!(first, second);
    assert_eq!(first, "Error: Tool 'no_such_tool' not found");
    let registry = ToolRegistry::new();
    assert!(!registry.has_tool("no_such_tool"));
    assert!(registry.has_tool("internet_search"));
}

#[test]
fn unknown_tool_in_loop_becomes_tool_entry() {
    // A requested tool the registry does not know yields its diagnostic
    // text as the tool result, and the loop carries on.
    let transcript = vec![user_message("Hi")];
    let responses = vec![
        tool_response("missing_tool", "{}"),
        final_response("done"),
    ];
    let registry = ToolRegistry::new();
    let outputs: Vec<String> = Vec::new();
    let (run, outcome) = run_with_responses(transcript, &responses, &registry, &outputs, "test");
    assert!(matches!(outcome, RunOutcome::Finished));
    assert_eq!(run.persisted[1].role, "tool");
    assert_eq!(run.persisted[1].content, "Error: Tool 'missing_tool' not found");
}

#[test]
fn resolved_id_is_synthesized_when_absent() {
    let tc = ToolCall {
        id: None,
        kind: Some("function".to_string()),
        function: FunctionCall {
            name: "internet_search".to_string(),
            arguments: "{}".to_string(),
        },
    };
    let id = jacox::agent::resolve_invocation_id(&tc);
    assert_eq!(id.len(), 36);
    let with_id = ToolCall {
        id: Some("call-7".to_string()),
        kind: None,
        function: FunctionCall {
            name: "internet_search".to_string(),
            arguments: "{}".to_string(),
        },
    };
    assert_eq!(jacox::agent::resolve_invocation_id(&with_id), "call-7");
}

#[test]
fn final_entry_carries_token_sum() {
    let transcript = vec![user_message("Hi")];
    let responses = vec![ChatResponse {
        content: "Hello".to_string(),
        model: "m".to_string(),
        usage: Some(Usage { input_tokens: 3, output_tokens: 4 }),
        tool_calls: None,
    }];
    let registry = ToolRegistry::new();
    let outputs: Vec<String> = Vec::new();
    let (run, _) = run_with_responses(transcript, &responses, &registry, &outputs, "m");
    assert_eq!(run.persisted[0].token_count, Some(7));
}

#[test]
fn step_api_transitions() {
    let mut run = AgentRun::start(vec![user_message("Hi")]);
    assert!(matches!(run.phase, RunPhase::AwaitingProvider));
    run.on_provider_response(&tool_response("internet_search", "{}"), "m");
    assert!(matches!(run.phase, RunPhase::DispatchingTools));
    assert_eq!(run.transcript.len(), 2);
    let name = run.current_invocation().function.name.clone();
    assert_eq!(name, "internet_search");
    run.on_tool_result("id-1".to_string(), "found it".to_string());
    assert!(matches!(run.phase, RunPhase::AwaitingProvider));
    assert_eq!(run.transcript.len(), 3);
    assert_eq!(run.transcript[2].role, "tool");
    assert_eq!(run.transcript[2].tool_call_id.as_deref(), Some("id-1"));
    run.on_provider_response(&final_response("done"), "m");
    assert!(matches!(run.phase, RunPhase::Finished));
    // The final answer does not touch the transcript.
    assert_eq!(run.transcript.len(), 3);
}

#[test]
fn empty_response_options_build() {
    let opts = ChatOptions::new_empty();
    assert!(opts.model.is_none());
    assert!(opts.tools.is_none());
}
