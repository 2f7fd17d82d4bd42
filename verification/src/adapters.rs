//! Protocol adapters, outbound half: system-prompt placement and the exact
//! wire bodies sent to each vendor.
//!
//! Each vendor's request body is framed here character by character, so the
//! contracts pin the full text that leaves the gateway.

use vstd::prelude::*;
use crate::jsonio::json_quoted;
use crate::jsonio::push_json_string;
use crate::models::{ChatOptions, Message, MessageView, ToolCall, ToolCallView, ToolDefinition,
    ToolDefinitionView};
use crate::text::{dec_of, push_str, trim_str, trimmed, u64_to_string};

verus! {

/// The three wire protocols spoken.
#[derive(Clone, Copy, PartialEq, Eq, Structural)]
pub enum Vendor {
    OpenAi,
    Anthropic,
    Ollama,
}

/// The stable provider name used for audit and persistence.
pub fn provider_name(v: Vendor) -> (r: &'static str)
    ensures
        v is OpenAi ==> r@ == "openai"@,
        v is Anthropic ==> r@ == "anthropic"@,
        v is Ollama ==> r@ == "ollama"@,
{
    match v {
        Vendor::OpenAi => "openai",
        Vendor::Anthropic => "anthropic",
        Vendor::Ollama => "ollama",
    }
}

/// The advertised model list, informational only.
pub fn supported_models(v: Vendor) -> (r: Vec<&'static str>)
    ensures
        v is OpenAi ==> r.deep_view() =~= seq!["gpt-4o"@, "gpt-4-turbo"@, "gpt-3.5-turbo"@],
        v is Anthropic ==> r.deep_view() =~= seq![
            "sonnet-3-5-latest"@,
            "opus-3-latest"@,
        ],
        v is Ollama ==> r.deep_view() =~= seq!["llama3.2"@, "mistral"@],
{
    match v {
        Vendor::OpenAi => {
            let mut out: Vec<&'static str> = Vec::new();
            out.push("gpt-4o");
            out.push("gpt-4-turbo");
            out.push("gpt-3.5-turbo");
            out
        },
        Vendor::Anthropic => {
            let mut out: Vec<&'static str> = Vec::new();
            out.push("sonnet-3-5-latest");
            out.push("opus-3-latest");
            out
        },
        Vendor::Ollama => {
            let mut out: Vec<&'static str> = Vec::new();
            out.push("llama3.2");
            out.push("mistral");
            out
        },
    }
}

/// True iff the turn carries the system role.
pub open spec fn is_system_role(m: MessageView) -> bool {
    m.role == "system"@
}

/// The side-channel system text gathered from a transcript: every
/// system-role content in order, each followed by a newline.
pub open spec fn system_concat(msgs: Seq<MessageView>) -> Seq<char>
    decreases msgs.len(),
{
    if msgs.len() == 0 {
        Seq::empty()
    } else {
        (if is_system_role(msgs[0]) {
            msgs[0].content + seq!['\n']
        } else {
            Seq::empty()
        }) + system_concat(msgs.drop_first())
    }
}

/// The transcript with every system-role turn removed.
pub open spec fn non_system(msgs: Seq<MessageView>) -> Seq<MessageView>
    decreases msgs.len(),
{
    if msgs.len() == 0 {
        Seq::empty()
    } else {
        (if is_system_role(msgs[0]) {
            Seq::empty()
        } else {
            seq![msgs[0]]
        }) + non_system(msgs.drop_first())
    }
}

proof fn lemma_system_concat_snoc(msgs: Seq<MessageView>, m: MessageView)
    ensures
        system_concat(msgs.push(m)) =~= system_concat(msgs) + (if is_system_role(m) {
            m.content + seq!['\n']
        } else {
            Seq::<char>::empty()
        }),
    decreases msgs.len(),
{
    let ghost tail = if is_system_role(m) {
        m.content + seq!['\n']
    } else {
        Seq::<char>::empty()
    };
    if msgs.len() == 0 {
        assert(msgs.push(m)[0] == m);
        assert(msgs.push(m).drop_first() =~= Seq::<MessageView>::empty());
        assert(system_concat(Seq::<MessageView>::empty()) == Seq::<char>::empty());
        assert(system_concat(msgs.push(m)) =~= tail);
        assert(system_concat(msgs) + tail =~= tail);
    } else {
        let ghost head = if is_system_role(msgs[0]) {
            msgs[0].content + seq!['\n']
        } else {
            Seq::<char>::empty()
        };
        assert(msgs.push(m)[0] == msgs[0]);
        assert(msgs.push(m).drop_first() =~= msgs.drop_first().push(m));
        lemma_system_concat_snoc(msgs.drop_first(), m);
        assert(system_concat(msgs.push(m)) == head + system_concat(msgs.drop_first().push(m)));
        assert(head + (system_concat(msgs.drop_first()) + tail)
            =~= (head + system_concat(msgs.drop_first())) + tail);
    }
}

proof fn lemma_non_system_snoc(msgs: Seq<MessageView>, m: MessageView)
    ensures
        non_system(msgs.push(m)) =~= non_system(msgs) + (if is_system_role(m) {
            Seq::<MessageView>::empty()
        } else {
            seq![m]
        }),
    decreases msgs.len(),
{
    let ghost tail = if is_system_role(m) {
        Seq::<MessageView>::empty()
    } else {
        seq![m]
    };
    if msgs.len() == 0 {
        assert(msgs.push(m)[0] == m);
        assert(msgs.push(m).drop_first() =~= Seq::<MessageView>::empty());
        assert(non_system(Seq::<MessageView>::empty()) == Seq::<MessageView>::empty());
        assert(non_system(msgs.push(m)) =~= tail);
        assert(non_system(msgs) + tail =~= tail);
    } else {
        let ghost head = if is_system_role(msgs[0]) {
            Seq::<MessageView>::empty()
        } else {
            seq![msgs[0]]
        };
        assert(msgs.push(m)[0] == msgs[0]);
        assert(msgs.push(m).drop_first() =~= msgs.drop_first().push(m));
        lemma_non_system_snoc(msgs.drop_first(), m);
        assert(non_system(msgs.push(m)) == head + non_system(msgs.drop_first().push(m)));
        assert(head + (non_system(msgs.drop_first()) + tail)
            =~= (head + non_system(msgs.drop_first())) + tail);
    }
}

/// The system text an options override appends: the override itself, or
/// nothing.
pub open spec fn override_text(system_prompt: Option<Seq<char>>) -> Seq<char> {
    match system_prompt {
        Some(s) => s,
        None => Seq::empty(),
    }
}

/// Pulls every system turn out of the transcript for a vendor that wants
/// the system prompt as a separate field: their contents concatenate in
/// order with newlines, the options override lands at the end, the result
/// is trimmed, and the returned transcript holds the remaining turns.
pub fn extract_system_prompt(messages: &Vec<Message>, options: &ChatOptions) -> (r: (
    String,
    Vec<Message>,
))
    ensures
        r.0@ == trimmed(system_concat(messages.deep_view()) + override_text(
            options@.system_prompt,
        )),
        r.1.deep_view() == non_system(messages.deep_view()),
{
    let mut system = String::new();
    let mut rest: Vec<Message> = Vec::new();
    let mut i: usize = 0;
    proof {
        assert(messages.deep_view().subrange(0, 0) =~= Seq::<MessageView>::empty());
        assert(system@ =~= system_concat(messages.deep_view().subrange(0, 0)));
        assert(rest.deep_view() =~= non_system(messages.deep_view().subrange(0, 0)));
    }
    while i < messages.len()
        invariant
            0 <= i <= messages@.len(),
            messages.deep_view().len() == messages@.len(),
            system@ =~= system_concat(messages.deep_view().subrange(0, i as int)),
            rest.deep_view() =~= non_system(messages.deep_view().subrange(0, i as int)),
        decreases messages@.len() - i,
    {
        let ghost prefix = messages.deep_view().subrange(0, i as int);
        let ghost mv = messages.deep_view()[i as int];
        proof {
            assert(messages.deep_view().subrange(0, i as int + 1) =~= prefix.push(mv));
            lemma_system_concat_snoc(prefix, mv);
            lemma_non_system_snoc(prefix, mv);
        }
        let m = &messages[i];
        if crate::text::str_eq(m.role.as_str(), "system") {
            push_str(&mut system, m.content.as_str());
            crate::text::push_char(&mut system, '\n');
        } else {
            rest.push(m.clone());
            proof {
                assert(rest.deep_view() =~= non_system(prefix) + seq![mv]);
            }
        }
        i = i + 1;
    }
    proof {
        assert(messages.deep_view().subrange(0, messages@.len() as int) =~= messages.deep_view());
    }
    match &options.system_prompt {
        Some(extra) => {
            push_str(&mut system, extra.as_str());
        },
        None => {
            proof {
                assert(system@ + override_text(options@.system_prompt) =~= system@);
            }
        },
    }
    let trimmed_system = trim_str(system.as_str());
    (trimmed_system, rest)
}

/// The view of a synthesized system turn.
pub open spec fn system_message_view(content: Seq<char>) -> MessageView {
    MessageView { role: "system"@, content, tool_calls: None, tool_call_id: None }
}

/// True iff some turn of the transcript carries the system role.
pub open spec fn has_system_entry(msgs: Seq<MessageView>) -> bool {
    exists|i: int| 0 <= i < msgs.len() && is_system_role(msgs[i])
}

/// Executable front for [`has_system_entry`].
pub fn transcript_has_system(messages: &Vec<Message>) -> (b: bool)
    ensures
        b == has_system_entry(messages.deep_view()),
{
    let mut found = false;
    let mut i: usize = 0;
    while i < messages.len()
        invariant
            0 <= i <= messages@.len(),
            messages.deep_view().len() == messages@.len(),
            found == exists|k: int|
                0 <= k < i && is_system_role(messages.deep_view()[k]),
        decreases messages@.len() - i,
    {
        if crate::text::str_eq(messages[i].role.as_str(), "system") {
            proof {
                assert(is_system_role(messages.deep_view()[i as int]));
            }
            found = true;
        }
        i = i + 1;
    }
    found
}

/// The transcript an inline-system vendor receives: when the options carry
/// an override and no system turn exists yet, a synthesized system turn
/// lands at position 0; otherwise the transcript stands unchanged.
pub open spec fn inline_system_transcript(
    msgs: Seq<MessageView>,
    system_prompt: Option<Seq<char>>,
) -> Seq<MessageView> {
    match system_prompt {
        Some(s) => if has_system_entry(msgs) {
            msgs
        } else {
            seq![system_message_view(s)] + msgs
        },
        None => msgs,
    }
}

/// For a vendor that takes the system prompt inline: a synthesized system
/// turn carrying the options override is placed at position 0 only if no
/// system turn exists yet; the rest of the transcript follows unchanged.
pub fn with_system_option(messages: &Vec<Message>, system_prompt: &Option<String>) -> (r: Vec<
    Message,
>)
    ensures
        r.deep_view() =~= inline_system_transcript(
            messages.deep_view(),
            crate::models::opt_str_view(*system_prompt),
        ),
{
    let mut out = crate::models::clone_messages(messages);
    match system_prompt {
        Some(s) => {
            if !transcript_has_system(messages) {
                let entry = Message {
                    role: String::from_str("system"),
                    content: s.clone(),
                    tool_calls: None,
                    tool_call_id: None,
                };
                out.insert(0, entry);
                proof {
                    assert(out.deep_view() =~= seq![system_message_view(s@)]
                        + messages.deep_view());
                }
            }
        },
        None => {},
    }
    out
}

/// Ensures a transcript opens with some system entry: when none exists a
/// synthesized one with `content` lands at position 0, otherwise the
/// transcript stands unchanged.
pub fn ensure_system_entry(messages: Vec<Message>, content: &str) -> (r: Vec<Message>)
    ensures
        has_system_entry(messages.deep_view()) ==> r.deep_view() =~= messages.deep_view(),
        !has_system_entry(messages.deep_view()) ==> r.deep_view() =~= seq![
            system_message_view(content@),
        ] + messages.deep_view(),
{
    let found = transcript_has_system(&messages);
    if found {
        messages
    } else {
        let mut out = messages;
        let entry = Message {
            role: String::from_str("system"),
            content: content.to_owned(),
            tool_calls: None,
            tool_call_id: None,
        };
        let ghost before = out.deep_view();
        out.insert(0, entry);
        proof {
            assert(out.deep_view() =~= seq![system_message_view(content@)] + before);
        }
        out
    }
}

} // verus!

verus! {

/// The tail of a comma-separated list: a comma ahead of each item.
pub open spec fn comma_rest(items: Seq<Seq<char>>) -> Seq<char>
    decreases items.len(),
{
    if items.len() == 0 {
        Seq::empty()
    } else {
        seq![','] + items[0] + comma_rest(items.drop_first())
    }
}

/// Items joined with commas.
pub open spec fn comma_joined(items: Seq<Seq<char>>) -> Seq<char> {
    if items.len() == 0 {
        Seq::empty()
    } else {
        items[0] + comma_rest(items.drop_first())
    }
}

proof fn lemma_comma_rest_snoc(items: Seq<Seq<char>>, x: Seq<char>)
    ensures
        comma_rest(items.push(x)) =~= comma_rest(items) + seq![','] + x,
    decreases items.len(),
{
    if items.len() == 0 {
        assert(items.push(x)[0] == x);
        assert(items.push(x).drop_first() =~= Seq::<Seq<char>>::empty());
        assert(comma_rest(items.push(x)) == seq![','] + x + comma_rest(Seq::<Seq<char>>::empty()));
        assert(comma_rest(items.push(x)) =~= Seq::<char>::empty() + seq![','] + x);
    } else {
        assert(items.push(x)[0] == items[0]);
        assert(items.push(x).drop_first() =~= items.drop_first().push(x));
        lemma_comma_rest_snoc(items.drop_first(), x);
        assert(comma_rest(items.push(x)) == seq![','] + items[0] + comma_rest(
            items.drop_first().push(x),
        ));
    }
}

/// Appending one item to a joined list appends a comma and the item (or
/// just the item to an empty list).
pub proof fn lemma_comma_joined_snoc(items: Seq<Seq<char>>, x: Seq<char>)
    ensures
        items.len() == 0 ==> comma_joined(items.push(x)) =~= x,
        items.len() > 0 ==> comma_joined(items.push(x)) =~= comma_joined(items) + seq![','] + x,
{
    if items.len() == 0 {
        assert(items.push(x)[0] == x);
        assert(items.push(x).drop_first() =~= Seq::<Seq<char>>::empty());
        assert(comma_joined(items.push(x)) =~= x + Seq::<char>::empty());
    } else {
        assert(items.push(x)[0] == items[0]);
        assert(items.push(x).drop_first() =~= items.drop_first().push(x));
        lemma_comma_rest_snoc(items.drop_first(), x);
    }
}

/// The wire form of one tool invocation, optional fields left out when
/// absent.
pub open spec fn tool_call_json(tc: ToolCallView) -> Seq<char> {
    "{"@ + (match tc.id {
        Some(id) => "\"id\":"@ + json_quoted(id) + ","@,
        None => Seq::<char>::empty(),
    }) + (match tc.kind {
        Some(k) => "\"type\":"@ + json_quoted(k) + ","@,
        None => Seq::<char>::empty(),
    }) + "\"function\":{\"name\":"@ + json_quoted(tc.function.name) + ",\"arguments\":"@
        + json_quoted(tc.function.arguments) + "}}"@
}

/// The wire form of a tool-invocation list.
pub open spec fn tool_calls_array_json(tcs: Seq<ToolCallView>) -> Seq<char> {
    "["@ + comma_joined(tcs.map_values(|t: ToolCallView| tool_call_json(t))) + "]"@
}

/// The wire form of one chat turn, optional fields left out when absent.
pub open spec fn message_json(m: MessageView) -> Seq<char> {
    "{\"role\":"@ + json_quoted(m.role) + ",\"content\":"@ + json_quoted(m.content) + (
    match m.tool_calls {
        Some(tcs) => ",\"tool_calls\":"@ + tool_calls_array_json(tcs),
        None => Seq::<char>::empty(),
    }) + (match m.tool_call_id {
        Some(id) => ",\"tool_call_id\":"@ + json_quoted(id),
        None => Seq::<char>::empty(),
    }) + "}"@
}

/// The wire form of a whole transcript.
pub open spec fn transcript_json(msgs: Seq<MessageView>) -> Seq<char> {
    "["@ + comma_joined(msgs.map_values(|m: MessageView| message_json(m))) + "]"@
}

/// The wire form of one offered tool; the parameter schema is already JSON
/// and splices in verbatim.
pub open spec fn tool_def_json(d: ToolDefinitionView) -> Seq<char> {
    "{\"type\":"@ + json_quoted(d.kind) + ",\"function\":{\"name\":"@ + json_quoted(
        d.function.name,
    ) + ",\"description\":"@ + json_quoted(d.function.description) + ",\"parameters\":"@
        + d.function.parameters + "}}"@
}

/// The wire form of an offered tool list.
pub open spec fn tool_defs_json(ds: Seq<ToolDefinitionView>) -> Seq<char> {
    "["@ + comma_joined(ds.map_values(|d: ToolDefinitionView| tool_def_json(d))) + "]"@
}

/// Appends the wire form of one tool invocation.
fn push_tool_call_json(out: &mut String, tc: &ToolCall)
    ensures
        final(out)@ =~= old(out)@ + tool_call_json(tc@),
{
    push_str(out, "{");
    match &tc.id {
        Some(id) => {
            push_str(out, "\"id\":");
            push_json_string(out, id.as_str());
            push_str(out, ",");
        },
        None => {},
    }
    match &tc.kind {
        Some(k) => {
            push_str(out, "\"type\":");
            push_json_string(out, k.as_str());
            push_str(out, ",");
        },
        None => {},
    }
    push_str(out, "\"function\":{\"name\":");
    push_json_string(out, tc.function.name.as_str());
    push_str(out, ",\"arguments\":");
    push_json_string(out, tc.function.arguments.as_str());
    push_str(out, "}}");
}

/// Appends the wire form of a tool-invocation list.
pub(crate) fn push_tool_calls_array(out: &mut String, tcs: &Vec<ToolCall>)
    ensures
        final(out)@ =~= old(out)@ + tool_calls_array_json(tcs.deep_view()),
{
    push_str(out, "[");
    let mut i: usize = 0;
    proof {
        assert(tcs.deep_view().subrange(0, 0).map_values(|t: ToolCallView| tool_call_json(t))
            =~= Seq::<Seq<char>>::empty());
    }
    while i < tcs.len()
        invariant
            0 <= i <= tcs@.len(),
            tcs.deep_view().len() == tcs@.len(),
            out@ =~= old(out)@ + "["@ + comma_joined(
                tcs.deep_view().subrange(0, i as int).map_values(
                    |t: ToolCallView| tool_call_json(t),
                ),
            ),
        decreases tcs@.len() - i,
    {
        let ghost prefix = tcs.deep_view().subrange(0, i as int).map_values(
            |t: ToolCallView| tool_call_json(t),
        );
        let ghost item = tool_call_json(tcs.deep_view()[i as int]);
        if i > 0 {
            push_str(out, ",");
        }
        push_tool_call_json(out, &tcs[i]);
        proof {
            assert(tcs.deep_view().subrange(0, i as int + 1)
                =~= tcs.deep_view().subrange(0, i as int).push(tcs.deep_view()[i as int]));
            assert(tcs.deep_view().subrange(0, i as int + 1).map_values(
                |t: ToolCallView| tool_call_json(t),
            ) =~= prefix.push(item));
            reveal_strlit(",");
            assert(","@ =~= seq![',']);
            lemma_comma_joined_snoc(prefix, item);
        }
        i = i + 1;
    }
    push_str(out, "]");
    proof {
        assert(tcs.deep_view().subrange(0, tcs@.len() as int) =~= tcs.deep_view());
    }
}

/// Appends the wire form of one chat turn.
fn push_message_json(out: &mut String, m: &Message)
    ensures
        final(out)@ =~= old(out)@ + message_json(m@),
{
    push_str(out, "{\"role\":");
    push_json_string(out, m.role.as_str());
    push_str(out, ",\"content\":");
    push_json_string(out, m.content.as_str());
    match &m.tool_calls {
        Some(tcs) => {
            push_str(out, ",\"tool_calls\":");
            push_tool_calls_array(out, tcs);
        },
        None => {},
    }
    match &m.tool_call_id {
        Some(id) => {
            push_str(out, ",\"tool_call_id\":");
            push_json_string(out, id.as_str());
        },
        None => {},
    }
    push_str(out, "}");
}

/// Appends the wire form of a whole transcript.
fn push_transcript_json(out: &mut String, msgs: &Vec<Message>)
    ensures
        final(out)@ =~= old(out)@ + transcript_json(msgs.deep_view()),
{
    push_str(out, "[");
    let mut i: usize = 0;
    proof {
        assert(msgs.deep_view().subrange(0, 0).map_values(|t: MessageView| message_json(t))
            =~= Seq::<Seq<char>>::empty());
    }
    while i < msgs.len()
        invariant
            0 <= i <= msgs@.len(),
            msgs.deep_view().len() == msgs@.len(),
            out@ =~= old(out)@ + "["@ + comma_joined(
                msgs.deep_view().subrange(0, i as int).map_values(
                    |t: MessageView| message_json(t),
                ),
            ),
        decreases msgs@.len() - i,
    {
        let ghost prefix = msgs.deep_view().subrange(0, i as int).map_values(
            |t: MessageView| message_json(t),
        );
        let ghost item = message_json(msgs.deep_view()[i as int]);
        if i > 0 {
            push_str(out, ",");
        }
        push_message_json(out, &msgs[i]);
        proof {
            assert(msgs.deep_view().subrange(0, i as int + 1)
                =~= msgs.deep_view().subrange(0, i as int).push(msgs.deep_view()[i as int]));
            assert(msgs.deep_view().subrange(0, i as int + 1).map_values(
                |t: MessageView| message_json(t),
            ) =~= prefix.push(item));
            reveal_strlit(",");
            assert(","@ =~= seq![',']);
            lemma_comma_joined_snoc(prefix, item);
        }
        i = i + 1;
    }
    push_str(out, "]");
    proof {
        assert(msgs.deep_view().subrange(0, msgs@.len() as int) =~= msgs.deep_view());
    }
}

/// Appends the wire form of one offered tool.
fn push_tool_def_json(out: &mut String, d: &ToolDefinition)
    ensures
        final(out)@ =~= old(out)@ + tool_def_json(d@),
{
    push_str(out, "{\"type\":");
    push_json_string(out, d.kind.as_str());
    push_str(out, ",\"function\":{\"name\":");
    push_json_string(out, d.function.name.as_str());
    push_str(out, ",\"description\":");
    push_json_string(out, d.function.description.as_str());
    push_str(out, ",\"parameters\":");
    push_str(out, d.function.parameters.as_str());
    push_str(out, "}}");
}

/// Appends the wire form of an offered tool list.
fn push_tool_defs_json(out: &mut String, defs: &Vec<ToolDefinition>)
    ensures
        final(out)@ =~= old(out)@ + tool_defs_json(defs.deep_view()),
{
    push_str(out, "[");
    let mut i: usize = 0;
    proof {
        assert(defs.deep_view().subrange(0, 0).map_values(
            |t: ToolDefinitionView| tool_def_json(t),
        ) =~= Seq::<Seq<char>>::empty());
    }
    while i < defs.len()
        invariant
            0 <= i <= defs@.len(),
            defs.deep_view().len() == defs@.len(),
            out@ =~= old(out)@ + "["@ + comma_joined(
                defs.deep_view().subrange(0, i as int).map_values(
                    |t: ToolDefinitionView| tool_def_json(t),
                ),
            ),
        decreases defs@.len() - i,
    {
        let ghost prefix = defs.deep_view().subrange(0, i as int).map_values(
            |t: ToolDefinitionView| tool_def_json(t),
        );
        let ghost item = tool_def_json(defs.deep_view()[i as int]);
        if i > 0 {
            push_str(out, ",");
        }
        push_tool_def_json(out, &defs[i]);
        proof {
            assert(defs.deep_view().subrange(0, i as int + 1)
                =~= defs.deep_view().subrange(0, i as int).push(defs.deep_view()[i as int]));
            assert(defs.deep_view().subrange(0, i as int + 1).map_values(
                |t: ToolDefinitionView| tool_def_json(t),
            ) =~= prefix.push(item));
            reveal_strlit(",");
            assert(","@ =~= seq![',']);
            lemma_comma_joined_snoc(prefix, item);
        }
        i = i + 1;
    }
    push_str(out, "]");
    proof {
        assert(defs.deep_view().subrange(0, defs@.len() as int) =~= defs.deep_view());
    }
}

} // verus!

verus! {

/// The model a call resolves to: the options' choice, else the default.
pub open spec fn resolved_model(choice: Option<Seq<char>>, default_model: Seq<char>) -> Seq<
    char,
> {
    match choice {
        Some(m) => m,
        None => default_model,
    }
}

/// The temperature text a call resolves to; absent means `0.7`.
pub open spec fn resolved_temperature(choice: Option<Seq<char>>) -> Seq<char> {
    match choice {
        Some(t) => t,
        None => "0.7"@,
    }
}

/// The output-token bound a call resolves to; absent means 4096.
pub open spec fn resolved_max_tokens(choice: Option<u32>) -> u32 {
    match choice {
        Some(m) => m,
        None => 4096,
    }
}

/// The body sent to the vendor whose system prompt rides a separate field.
pub open spec fn anthropic_body_text(
    model: Seq<char>,
    msgs: Seq<MessageView>,
    system: Seq<char>,
    stream: bool,
    temperature: Seq<char>,
    max_tokens: u32,
) -> Seq<char> {
    "{\"model\":"@ + json_quoted(model) + ",\"messages\":"@ + transcript_json(msgs)
        + ",\"system\":"@ + json_quoted(system) + (if stream {
        ",\"stream\":true"@
    } else {
        Seq::<char>::empty()
    }) + ",\"temperature\":"@ + temperature + ",\"max_tokens\":"@ + dec_of(max_tokens as nat)
        + "}"@
}

/// The body sent to the hosted completions-protocol vendor.
pub open spec fn openai_body_text(
    model: Seq<char>,
    msgs: Seq<MessageView>,
    stream: bool,
    temperature: Seq<char>,
    max_tokens: u32,
) -> Seq<char> {
    "{\"model\":"@ + json_quoted(model) + ",\"messages\":"@ + transcript_json(msgs) + (if stream {
        ",\"stream\":true"@
    } else {
        Seq::<char>::empty()
    }) + ",\"temperature\":"@ + temperature + ",\"max_tokens\":"@ + dec_of(max_tokens as nat)
        + "}"@
}

/// The body sent to the local-inference vendor.
pub open spec fn ollama_body_text(
    model: Seq<char>,
    msgs: Seq<MessageView>,
    stream: bool,
    temperature: Seq<char>,
    num_predict: u32,
    tools: Option<Seq<ToolDefinitionView>>,
) -> Seq<char> {
    "{\"model\":"@ + json_quoted(model) + ",\"messages\":"@ + transcript_json(msgs)
        + ",\"stream\":"@ + (if stream {
        "true"@
    } else {
        "false"@
    }) + ",\"options\":{\"temperature\":"@ + temperature + ",\"num_predict\":"@ + dec_of(
        num_predict as nat,
    ) + "}"@ + (match tools {
        Some(ds) => ",\"tools\":"@ + tool_defs_json(ds),
        None => Seq::<char>::empty(),
    }) + "}"@
}

/// Builds the side-channel-system vendor body.
pub fn build_anthropic_body(
    model: &str,
    msgs: &Vec<Message>,
    system: &str,
    stream: bool,
    temperature: &str,
    max_tokens: u32,
) -> (r: String)
    ensures
        r@ =~= anthropic_body_text(
            model@,
            msgs.deep_view(),
            system@,
            stream,
            temperature@,
            max_tokens,
        ),
{
    let mut out = String::from_str("{\"model\":");
    push_json_string(&mut out, model);
    push_str(&mut out, ",\"messages\":");
    push_transcript_json(&mut out, msgs);
    push_str(&mut out, ",\"system\":");
    push_json_string(&mut out, system);
    if stream {
        push_str(&mut out, ",\"stream\":true");
    }
    push_str(&mut out, ",\"temperature\":");
    push_str(&mut out, temperature);
    push_str(&mut out, ",\"max_tokens\":");
    let digits = u64_to_string(max_tokens as u64);
    push_str(&mut out, digits.as_str());
    push_str(&mut out, "}");
    out
}

/// Builds the hosted completions-protocol vendor body.
pub fn build_openai_body(
    model: &str,
    msgs: &Vec<Message>,
    stream: bool,
    temperature: &str,
    max_tokens: u32,
) -> (r: String)
    ensures
        r@ =~= openai_body_text(model@, msgs.deep_view(), stream, temperature@, max_tokens),
{
    let mut out = String::from_str("{\"model\":");
    push_json_string(&mut out, model);
    push_str(&mut out, ",\"messages\":");
    push_transcript_json(&mut out, msgs);
    if stream {
        push_str(&mut out, ",\"stream\":true");
    }
    push_str(&mut out, ",\"temperature\":");
    push_str(&mut out, temperature);
    push_str(&mut out, ",\"max_tokens\":");
    let digits = u64_to_string(max_tokens as u64);
    push_str(&mut out, digits.as_str());
    push_str(&mut out, "}");
    out
}

/// Builds the local-inference vendor body.
pub fn build_ollama_body(
    model: &str,
    msgs: &Vec<Message>,
    stream: bool,
    temperature: &str,
    num_predict: u32,
    tools: &Option<Vec<ToolDefinition>>,
) -> (r: String)
    ensures
        r@ =~= ollama_body_text(
            model@,
            msgs.deep_view(),
            stream,
            temperature@,
            num_predict,
            crate::models::opt_defs_view(*tools),
        ),
{
    let mut out = String::from_str("{\"model\":");
    push_json_string(&mut out, model);
    push_str(&mut out, ",\"messages\":");
    push_transcript_json(&mut out, msgs);
    push_str(&mut out, ",\"stream\":");
    if stream {
        push_str(&mut out, "true");
    } else {
        push_str(&mut out, "false");
    }
    push_str(&mut out, ",\"options\":{\"temperature\":");
    push_str(&mut out, temperature);
    push_str(&mut out, ",\"num_predict\":");
    let digits = u64_to_string(num_predict as u64);
    push_str(&mut out, digits.as_str());
    push_str(&mut out, "}");
    match tools {
        Some(defs) => {
            push_str(&mut out, ",\"tools\":");
            push_tool_defs_json(&mut out, defs);
        },
        None => {},
    }
    push_str(&mut out, "}");
    out
}

/// A request ready to leave the gateway: the exact body text and the model
/// it resolved to.
pub struct PreparedRequest {
    pub body: String,
    pub model: String,
}

/// Prepares a call to the side-channel-system vendor: system turns leave
/// the transcript for the separate field, options fill their defaults.
pub fn anthropic_request(
    messages: &Vec<Message>,
    options: &ChatOptions,
    default_model: &str,
    stream: bool,
) -> (r: PreparedRequest)
    ensures
        r.model@ == resolved_model(options@.model, default_model@),
        r.body@ =~= anthropic_body_text(
            resolved_model(options@.model, default_model@),
            non_system(messages.deep_view()),
            trimmed(system_concat(messages.deep_view()) + override_text(options@.system_prompt)),
            stream,
            resolved_temperature(options@.temperature),
            resolved_max_tokens(options@.max_tokens),
        ),
{
    let model: String = match &options.model {
        Some(m) => m.clone(),
        None => default_model.to_owned(),
    };
    let (system, rest) = extract_system_prompt(messages, options);
    let temperature: String = match &options.temperature {
        Some(t) => t.clone(),
        None => String::from_str("0.7"),
    };
    let max_tokens: u32 = match options.max_tokens {
        Some(m) => m,
        None => 4096,
    };
    let body = build_anthropic_body(
        model.as_str(),
        &rest,
        system.as_str(),
        stream,
        temperature.as_str(),
        max_tokens,
    );
    PreparedRequest { body, model }
}

/// Prepares a call to the hosted completions-protocol vendor: an options
/// system prompt becomes an inline turn at position 0, options fill their
/// defaults.
pub fn openai_request(
    messages: &Vec<Message>,
    options: &ChatOptions,
    default_model: &str,
    stream: bool,
) -> (r: PreparedRequest)
    ensures
        r.model@ == resolved_model(options@.model, default_model@),
        r.body@ =~= openai_body_text(
            resolved_model(options@.model, default_model@),
            inline_system_transcript(messages.deep_view(), options@.system_prompt),
            stream,
            resolved_temperature(options@.temperature),
            resolved_max_tokens(options@.max_tokens),
        ),
{
    let model: String = match &options.model {
        Some(m) => m.clone(),
        None => default_model.to_owned(),
    };
    let with_system = with_system_option(messages, &options.system_prompt);
    let temperature: String = match &options.temperature {
        Some(t) => t.clone(),
        None => String::from_str("0.7"),
    };
    let max_tokens: u32 = match options.max_tokens {
        Some(m) => m,
        None => 4096,
    };
    let body = build_openai_body(
        model.as_str(),
        &with_system,
        stream,
        temperature.as_str(),
        max_tokens,
    );
    PreparedRequest { body, model }
}

/// Prepares a call to the local-inference vendor: an options system prompt
/// becomes an inline turn at position 0, offered tools ride along, options
/// fill their defaults.
pub fn ollama_request(
    messages: &Vec<Message>,
    options: &ChatOptions,
    default_model: &str,
    stream: bool,
) -> (r: PreparedRequest)
    ensures
        r.model@ == resolved_model(options@.model, default_model@),
        r.body@ =~= ollama_body_text(
            resolved_model(options@.model, default_model@),
            inline_system_transcript(messages.deep_view(), options@.system_prompt),
            stream,
            resolved_temperature(options@.temperature),
            resolved_max_tokens(options@.max_tokens),
            options@.tools,
        ),
{
    let model: String = match &options.model {
        Some(m) => m.clone(),
        None => default_model.to_owned(),
    };
    let with_system = with_system_option(messages, &options.system_prompt);
    let temperature: String = match &options.temperature {
        Some(t) => t.clone(),
        None => String::from_str("0.7"),
    };
    let max_tokens: u32 = match options.max_tokens {
        Some(m) => m,
        None => 4096,
    };
    let body = build_ollama_body(
        model.as_str(),
        &with_system,
        stream,
        temperature.as_str(),
        max_tokens,
        &options.tools,
    );
    PreparedRequest { body, model }
}

} // verus!
