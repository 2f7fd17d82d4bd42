use jacox::export::{export_transcript, import_transcript};
use jacox::store::DbService;

#[test]
fn export_then_import_round_trips() {
    // Exporting a transcript to the flat (role, content) text format and
    // re-importing yields the same ordered pairs, roles compared
    // case-insensitively.
    let mut store = DbService::new();
    let session = store.insert_session("My Session", "{}");
    store.insert_message(&session.id, "system", "You are a bot", None, None, "{}");
    store.insert_message(&session.id, "user", "Hello!", None, None, "{}");
    store.insert_message(&session.id, "assistant", "Hi.\nHow can I help?", None, None, "{}");
    let messages = store.get_messages(&session.id, 1000, 0);
    let text = export_transcript("My Session", &session.id, "12345", &messages);
    let (name, pairs) = import_transcript(&text);
    assert_eq!(name, "My Session");
    assert_eq!(pairs.len(), 3);
    assert_eq!(pairs[0].role, "system");
    assert_eq!(pairs[0].content, "You are a bot");
    assert_eq!(pairs[1].role, "user");
    assert_eq!(pairs[1].content, "Hello!");
    assert_eq!(pairs[2].role, "assistant");
    assert_eq!(pairs[2].content, "Hi.\nHow can I help?");
}

#[test]
fn export_text_shape() {
    let mut store = DbService::new();
    let session = store.insert_session("S", "{}");
    store.insert_message(&session.id, "user", "Hello", None, None, "{}");
    let messages = store.get_messages(&session.id, 1000, 0);
    let text = export_transcript("S", "abc", "7", &messages);
    assert_eq!(text, "Session: S\nID: abc\nCreated At: 7\n---\n[USER]: Hello\n---\n");
}

#[test]
fn import_without_header_uses_placeholder_name() {
    let (name, pairs) = import_transcript("not a header\n---\n");
    assert_eq!(name, "Imported Session");
    assert_eq!(pairs.len(), 0);
}

#[test]
fn import_trims_and_lowercases() {
    let text = "Session: X\n[USER]:    padded   \n---\n";
    let (name, pairs) = import_transcript(text);
    assert_eq!(name, "X");
    assert_eq!(pairs.len(), 1);
    assert_eq!(pairs[0].role, "user");
    assert_eq!(pairs[0].content, "padded");
}

#[test]
fn import_skips_empty_blocks() {
    // A terminator with no role or no content in hand records nothing.
    let text = "Session: X\nstray line\n---\n[TOOL]: result\n---\n";
    let (_, pairs) = import_transcript(text);
    assert_eq!(pairs.len(), 1);
    assert_eq!(pairs[0].role, "tool");
    assert_eq!(pairs[0].content, "result");
}

#[test]
fn text_trim_matches_expectations() {
    assert_eq!(jacox::text::trim_str("  a b \t"), "a b");
    assert_eq!(jacox::text::trim_str(""), "");
    assert_eq!(jacox::text::trim_str("\n\nx\n"), "x");
    assert_eq!(jacox::text::trim_str("   "), "");
}

#[test]
fn text_split_lines_matches_std() {
    let cases = ["a\nb\nc", "a\nb\n", "", "\n", "a\r\nb", "one"];
    for case in cases {
        let mine = jacox::text::split_lines(case);
        let std_lines: Vec<&str> = case.lines().collect();
        assert_eq!(mine.len(), std_lines.len(), "case {:?}", case);
        for (m, s) in mine.iter().zip(std_lines.iter()) {
            assert_eq!(m, s, "case {:?}", case);
        }
    }
}

#[test]
fn text_number_rendering() {
    assert_eq!(jacox::text::u64_to_string(0), "0");
    assert_eq!(jacox::text::u64_to_string(4096), "4096");
    assert_eq!(jacox::text::u64_to_string(u64::MAX), format!("{}", u64::MAX));
    assert_eq!(jacox::text::i64_to_string(-42), "-42");
    assert_eq!(jacox::text::i64_to_string(i64::MIN), format!("{}", i64::MIN));
}

#[test]
fn text_case_mapping() {
    assert_eq!(jacox::text::to_ascii_upper("user"), "USER");
    assert_eq!(jacox::text::to_ascii_lower("ASSISTANT"), "assistant");
    assert_eq!(jacox::text::to_ascii_lower("MiXeD-09"), "mixed-09");
}

#[test]
fn text_search_helpers() {
    assert_eq!(jacox::text::find_char("abc]def", ']'), Some(3));
    assert_eq!(jacox::text::find_char("abc", ']'), None);
    assert!(jacox::text::contains_sub("line]: rest", "]: "));
    assert!(!jacox::text::contains_sub("line] :rest", "]: "));
    assert!(jacox::text::starts_with("Bearer abc", "Bearer "));
    assert_eq!(
        jacox::text::strip_prefix("Session: X", "Session: ").as_deref(),
        Some("X")
    );
}

#[test]
fn json_string_escaping() {
    assert_eq!(jacox::jsonio::json_string("plain"), "\"plain\"");
    assert_eq!(jacox::jsonio::json_string("a\"b"), "\"a\\\"b\"");
    assert_eq!(jacox::jsonio::json_string("a\\b"), "\"a\\\\b\"");
    assert_eq!(jacox::jsonio::json_string("a\nb\tc"), "\"a\\nb\\tc\"");
    assert_eq!(jacox::jsonio::json_string("\u{1}"), "\"\\u0001\"");
    // The escaped text parses back to the source string through the real parser.
    let quoted = jacox::jsonio::json_string("mixed \"text\"\nwith \\ escapes");
    let back: String = serde_json::from_str(&quoted).unwrap();
    assert_eq!(back, "mixed \"text\"\nwith \\ escapes");
}

#[test]
fn gateway_replacement_and_grounding() {
    let grounded = jacox::gateway::ground_system_prompt(
        "Today is {current_date}. Be brief.",
        "Monday, June 02, 2025",
    );
    assert_eq!(
        grounded,
        "Current Date: Monday, June 02, 2025.\n\nToday is Monday, June 02, 2025. Be brief."
    );
    assert_eq!(jacox::gateway::replace_all("aaa", "a", "bb"), "bbbbbb");
    assert_eq!(jacox::gateway::replace_all("none here", "xyz", "q"), "none here");
}

#[test]
fn env_reference_detection() {
    assert_eq!(
        jacox::config::env_var_name("${OPENAI_API_KEY}").as_deref(),
        Some("OPENAI_API_KEY")
    );
    assert_eq!(jacox::config::env_var_name("plain-value"), None);
    assert_eq!(jacox::config::env_var_name("${}").as_deref(), Some(""));
    assert_eq!(jacox::config::env_var_name("${"), None);
}
