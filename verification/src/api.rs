//! Request- and response-level data carriers for the HTTP surface, and the
//! exact JSON the completions-compatible endpoint emits.

use vstd::prelude::*;
use crate::jsonio::{json_quoted, push_json_string};
use crate::models::{Message, MessageView, ToolCall, ToolDefinition, Usage};
use crate::text::{dec_of, push_str, u64_to_string};

verus! {

/// Page window for listing sessions or messages.
pub struct PaginationQuery {
    pub limit: usize,
    pub offset: usize,
}

/// Page size used when a listing request names none.
pub fn default_limit() -> (r: usize)
    ensures
        r == 50,
{
    50
}

/// Page offset used when a listing request names none.
pub fn default_offset() -> (r: usize)
    ensures
        r == 0,
{
    0
}

impl PaginationQuery {
    /// The window used when the request carries no paging fields at all.
    pub fn new_default() -> (q: PaginationQuery)
        ensures
            q.limit == 50,
            q.offset == 0,
    {
        PaginationQuery { limit: default_limit(), offset: default_offset() }
    }
}

/// Whole-store counters reported by the stats endpoint.
#[derive(Clone, Copy, PartialEq, Eq, Structural)]
pub struct SystemStats {
    pub total_sessions: i64,
    pub total_messages: i64,
    pub total_tokens: i64,
    pub db_size_bytes: u64,
}

/// A request to create a session.
pub struct CreateSessionRequest {
    pub name: String,
    /// Raw JSON text of attached metadata.
    pub metadata: String,
}

/// A request to append a message to a session.
pub struct CreateMessageRequest {
    pub role: String,
    pub content: String,
    pub model: Option<String>,
    pub token_count: Option<i64>,
    /// Raw JSON text of attached metadata.
    pub metadata: String,
}

/// A request to rename a session or replace its metadata.
pub struct UpdateSessionRequest {
    pub name: Option<String>,
    /// Raw JSON text of replacement metadata, when given.
    pub metadata: Option<String>,
}

/// One turn in the completions-compatible wire shape.
pub struct OpenAIMessage {
    pub role: String,
    pub content: String,
    pub tool_calls: Option<Vec<ToolCall>>,
    pub tool_call_id: Option<String>,
}

/// A completions-compatible request.
pub struct OpenAIChatRequest {
    pub model: String,
    pub messages: Vec<OpenAIMessage>,
    /// Sampling temperature as decimal text, forwarded verbatim.
    pub temperature: Option<String>,
    pub max_tokens: Option<u32>,
    pub stream: Option<bool>,
    pub tools: Option<Vec<ToolDefinition>>,
    /// Raw JSON text of a tool-choice directive.
    pub tool_choice: Option<String>,
}

/// Token accounting in the completions-compatible wire shape.
#[derive(Clone, Copy, PartialEq, Eq, Structural)]
pub struct OpenAIUsage {
    pub prompt_tokens: u32,
    pub completion_tokens: u32,
    pub total_tokens: u32,
}

/// One choice of a completions-compatible response.
pub struct OpenAIChoice {
    pub index: u32,
    pub message: OpenAIMessage,
    pub finish_reason: Option<String>,
}

/// A completions-compatible one-shot response.
pub struct OpenAIChatResponse {
    pub id: String,
    pub object: String,
    pub created: u64,
    pub model: String,
    pub choices: Vec<OpenAIChoice>,
    pub usage: Option<OpenAIUsage>,
}

/// One incremental delta of a completions-compatible stream.
pub struct OpenAIStreamDelta {
    pub role: Option<String>,
    pub content: Option<String>,
}

/// One choice of a completions-compatible stream event.
pub struct OpenAIStreamChoice {
    pub index: u32,
    pub delta: OpenAIStreamDelta,
    pub finish_reason: Option<String>,
}

/// One completions-compatible stream event.
pub struct OpenAIStreamChunk {
    pub id: String,
    pub object: String,
    pub created: u64,
    pub model: String,
    pub choices: Vec<OpenAIStreamChoice>,
}

/// A quoted string or the JSON null.
pub open spec fn quoted_or_null(o: Option<Seq<char>>) -> Seq<char> {
    match o {
        Some(s) => json_quoted(s),
        None => "null"@,
    }
}

/// The wire form of one stream delta: absent sides spell `null`.
pub open spec fn stream_delta_json(role: Option<Seq<char>>, content: Option<Seq<char>>) -> Seq<
    char,
> {
    "{\"role\":"@ + quoted_or_null(role) + ",\"content\":"@ + quoted_or_null(content) + "}"@
}

/// The wire form of one stream choice; the finish reason is left out when
/// absent.
pub open spec fn stream_choice_json(c: &OpenAIStreamChoice) -> Seq<char> {
    "{\"index\":"@ + dec_of(c.index as nat) + ",\"delta\":"@ + stream_delta_json(
        crate::models::opt_str_view(c.delta.role),
        crate::models::opt_str_view(c.delta.content),
    ) + (match c.finish_reason {
        Some(f) => ",\"finish_reason\":"@ + json_quoted(f@),
        None => Seq::<char>::empty(),
    }) + "}"@
}

/// The wire form of one stream event.
pub open spec fn stream_chunk_json(chunk: &OpenAIStreamChunk) -> Seq<char> {
    "{\"id\":"@ + json_quoted(chunk.id@) + ",\"object\":"@ + json_quoted(chunk.object@)
        + ",\"created\":"@ + dec_of(chunk.created as nat) + ",\"model\":"@ + json_quoted(
        chunk.model@,
    ) + ",\"choices\":["@ + (if chunk.choices@.len() > 0 {
        stream_choice_json(&chunk.choices@[0])
    } else {
        Seq::<char>::empty()
    }) + "]}"@
}

fn push_quoted_or_null(out: &mut String, o: &Option<String>)
    ensures
        final(out)@ =~= old(out)@ + quoted_or_null(crate::models::opt_str_view(*o)),
{
    match o {
        Some(s) => {
            push_json_string(out, s.as_str());
        },
        None => {
            push_str(out, "null");
        },
    }
}

fn push_stream_choice_json(out: &mut String, c: &OpenAIStreamChoice)
    ensures
        final(out)@ =~= old(out)@ + stream_choice_json(c),
{
    push_str(out, "{\"index\":");
    let index_text = u64_to_string(c.index as u64);
    push_str(out, index_text.as_str());
    push_str(out, ",\"delta\":");
    push_str(out, "{\"role\":");
    push_quoted_or_null(out, &c.delta.role);
    push_str(out, ",\"content\":");
    push_quoted_or_null(out, &c.delta.content);
    push_str(out, "}");
    match &c.finish_reason {
        Some(f) => {
            push_str(out, ",\"finish_reason\":");
            push_json_string(out, f.as_str());
        },
        None => {},
    }
    push_str(out, "}");
}

impl OpenAIStreamChunk {
    /// Renders the event as the JSON payload of one stream frame. The
    /// surface emits one choice per event.
    pub fn to_json(&self) -> (r: String)
        ensures
            r@ =~= stream_chunk_json(self),
    {
        let mut out = String::from_str("{\"id\":");
        push_json_string(&mut out, self.id.as_str());
        push_str(&mut out, ",\"object\":");
        push_json_string(&mut out, self.object.as_str());
        push_str(&mut out, ",\"created\":");
        let created_text = u64_to_string(self.created);
        push_str(&mut out, created_text.as_str());
        push_str(&mut out, ",\"model\":");
        push_json_string(&mut out, self.model.as_str());
        push_str(&mut out, ",\"choices\":[");
        if self.choices.len() > 0 {
            push_stream_choice_json(&mut out, &self.choices[0]);
        }
        push_str(&mut out, "]}");
        out
    }

    /// The opening event of a stream: an assistant role delta with no text.
    pub fn opening(id: &str, created: u64, model: &str) -> (r: OpenAIStreamChunk)
        ensures
            r.id@ == id@,
            r.object@ == "chat.completion.chunk"@,
            r.created == created,
            r.model@ == model@,
            r.choices@.len() == 1,
            r.choices@[0].index == 0,
            crate::models::opt_str_view(r.choices@[0].delta.role) == Some("assistant"@),
            r.choices@[0].delta.content is None,
            r.choices@[0].finish_reason is None,
    {
        let mut choices: Vec<OpenAIStreamChoice> = Vec::new();
        choices.push(
            OpenAIStreamChoice {
                index: 0,
                delta: OpenAIStreamDelta {
                    role: Some(String::from_str("assistant")),
                    content: None,
                },
                finish_reason: None,
            },
        );
        OpenAIStreamChunk {
            id: id.to_owned(),
            object: String::from_str("chat.completion.chunk"),
            created,
            model: model.to_owned(),
            choices,
        }
    }

    /// One relayed text fragment as a stream event.
    pub fn fragment(id: &str, created: u64, model: &str, text: &str) -> (r: OpenAIStreamChunk)
        ensures
            r.id@ == id@,
            r.object@ == "chat.completion.chunk"@,
            r.created == created,
            r.model@ == model@,
            r.choices@.len() == 1,
            r.choices@[0].index == 0,
            r.choices@[0].delta.role is None,
            crate::models::opt_str_view(r.choices@[0].delta.content) == Some(text@),
            r.choices@[0].finish_reason is None,
    {
        let mut choices: Vec<OpenAIStreamChoice> = Vec::new();
        choices.push(
            OpenAIStreamChoice {
                index: 0,
                delta: OpenAIStreamDelta { role: None, content: Some(text.to_owned()) },
                finish_reason: None,
            },
        );
        OpenAIStreamChunk {
            id: id.to_owned(),
            object: String::from_str("chat.completion.chunk"),
            created,
            model: model.to_owned(),
            choices,
        }
    }

    /// The closing event of a stream: an empty delta finishing with `stop`.
    pub fn closing(id: &str, created: u64, model: &str) -> (r: OpenAIStreamChunk)
        ensures
            r.id@ == id@,
            r.object@ == "chat.completion.chunk"@,
            r.created == created,
            r.model@ == model@,
            r.choices@.len() == 1,
            r.choices@[0].index == 0,
            r.choices@[0].delta.role is None,
            r.choices@[0].delta.content is None,
            crate::models::opt_str_view(r.choices@[0].finish_reason) == Some("stop"@),
    {
        let mut choices: Vec<OpenAIStreamChoice> = Vec::new();
        choices.push(
            OpenAIStreamChoice {
                index: 0,
                delta: OpenAIStreamDelta { role: None, content: None },
                finish_reason: Some(String::from_str("stop")),
            },
        );
        OpenAIStreamChunk {
            id: id.to_owned(),
            object: String::from_str("chat.completion.chunk"),
            created,
            model: model.to_owned(),
            choices,
        }
    }
}

/// The wire form of one message in a response.
pub open spec fn openai_message_json(m: &OpenAIMessage) -> Seq<char> {
    "{\"role\":"@ + json_quoted(m.role@) + ",\"content\":"@ + json_quoted(m.content@) + (
    match crate::models::opt_calls_view(m.tool_calls) {
        Some(tcs) => ",\"tool_calls\":"@ + crate::adapters::tool_calls_array_json(tcs),
        None => Seq::<char>::empty(),
    }) + (match crate::models::opt_str_view(m.tool_call_id) {
        Some(id) => ",\"tool_call_id\":"@ + json_quoted(id),
        None => Seq::<char>::empty(),
    }) + "}"@
}

/// The wire form of one response choice; the finish reason spells `null`
/// when absent.
pub open spec fn openai_choice_json(c: &OpenAIChoice) -> Seq<char> {
    "{\"index\":"@ + dec_of(c.index as nat) + ",\"message\":"@ + openai_message_json(&c.message)
        + ",\"finish_reason\":"@ + quoted_or_null(crate::models::opt_str_view(c.finish_reason))
        + "}"@
}

/// The wire form of a usage block.
pub open spec fn openai_usage_json(u: OpenAIUsage) -> Seq<char> {
    "{\"prompt_tokens\":"@ + dec_of(u.prompt_tokens as nat) + ",\"completion_tokens\":"@
        + dec_of(u.completion_tokens as nat) + ",\"total_tokens\":"@ + dec_of(
        u.total_tokens as nat,
    ) + "}"@
}

/// The wire form of a one-shot response; the surface emits one choice.
pub open spec fn openai_response_json(r: &OpenAIChatResponse) -> Seq<char> {
    "{\"id\":"@ + json_quoted(r.id@) + ",\"object\":"@ + json_quoted(r.object@)
        + ",\"created\":"@ + dec_of(r.created as nat) + ",\"model\":"@ + json_quoted(r.model@)
        + ",\"choices\":["@ + (if r.choices@.len() > 0 {
        openai_choice_json(&r.choices@[0])
    } else {
        Seq::<char>::empty()
    }) + "]"@ + (match r.usage {
        Some(u) => ",\"usage\":"@ + openai_usage_json(u),
        None => Seq::<char>::empty(),
    }) + "}"@
}

fn push_openai_message_json(out: &mut String, m: &OpenAIMessage)
    ensures
        final(out)@ =~= old(out)@ + openai_message_json(m),
{
    push_str(out, "{\"role\":");
    push_json_string(out, m.role.as_str());
    push_str(out, ",\"content\":");
    push_json_string(out, m.content.as_str());
    match &m.tool_calls {
        Some(tcs) => {
            push_str(out, ",\"tool_calls\":");
            crate::adapters::push_tool_calls_array(out, tcs);
        },
        None => {},
    }
    match &m.tool_call_id {
        Some(id) => {
            push_str(out, ",\"tool_call_id\":");
            push_json_string(out, id.as_str());
        },
        None => {},
    }
    push_str(out, "}");
}

impl OpenAIChatResponse {
    /// Renders the response as the JSON body the surface sends.
    pub fn to_json(&self) -> (r: String)
        ensures
            r@ =~= openai_response_json(self),
    {
        let mut out = String::from_str("{\"id\":");
        push_json_string(&mut out, self.id.as_str());
        push_str(&mut out, ",\"object\":");
        push_json_string(&mut out, self.object.as_str());
        push_str(&mut out, ",\"created\":");
        let created_text = u64_to_string(self.created);
        push_str(&mut out, created_text.as_str());
        push_str(&mut out, ",\"model\":");
        push_json_string(&mut out, self.model.as_str());
        push_str(&mut out, ",\"choices\":[");
        if self.choices.len() > 0 {
            push_openai_choice_json(&mut out, &self.choices[0]);
        }
        push_str(&mut out, "]");
        match self.usage {
            Some(u) => {
                push_str(&mut out, ",\"usage\":");
                push_openai_usage_json(&mut out, u);
            },
            None => {},
        }
        push_str(&mut out, "}");
        out
    }
}

fn push_openai_choice_json(out: &mut String, c: &OpenAIChoice)
    ensures
        final(out)@ =~= old(out)@ + openai_choice_json(c),
{
    push_str(out, "{\"index\":");
    let index_text = u64_to_string(c.index as u64);
    push_str(out, index_text.as_str());
    push_str(out, ",\"message\":");
    push_openai_message_json(out, &c.message);
    push_str(out, ",\"finish_reason\":");
    push_quoted_or_null(out, &c.finish_reason);
    push_str(out, "}");
}

fn push_openai_usage_json(out: &mut String, u: OpenAIUsage)
    ensures
        final(out)@ =~= old(out)@ + openai_usage_json(u),
{
    push_str(out, "{\"prompt_tokens\":");
    let p = u64_to_string(u.prompt_tokens as u64);
    push_str(out, p.as_str());
    push_str(out, ",\"completion_tokens\":");
    let c = u64_to_string(u.completion_tokens as u64);
    push_str(out, c.as_str());
    push_str(out, ",\"total_tokens\":");
    let t = u64_to_string(u.total_tokens as u64);
    push_str(out, t.as_str());
    push_str(out, "}");
}

/// The usage block a unified response maps to on the completions surface:
/// the total saturates rather than wrap.
pub open spec fn usage_to_openai(u: Usage) -> OpenAIUsage {
    OpenAIUsage {
        prompt_tokens: u.input_tokens,
        completion_tokens: u.output_tokens,
        total_tokens: (if u.input_tokens + u.output_tokens <= u32::MAX {
            (u.input_tokens + u.output_tokens) as u32
        } else {
            u32::MAX
        }),
    }
}

/// Maps a unified usage block onto the completions surface.
pub fn openai_usage_of_usage(u: Usage) -> (r: OpenAIUsage)
    ensures
        r == usage_to_openai(u),
{
    let total: u32 = if u.input_tokens <= u32::MAX - u.output_tokens {
        u.input_tokens + u.output_tokens
    } else {
        u32::MAX
    };
    OpenAIUsage {
        prompt_tokens: u.input_tokens,
        completion_tokens: u.output_tokens,
        total_tokens: total,
    }
}

/// The content a completions-surface turn resolves to: system turns take
/// the grounding prefix and the date spelled into `{current_date}`, other
/// turns only the date substitution.
pub open spec fn normalized_content(role: Seq<char>, content: Seq<char>, date: Seq<char>) -> Seq<
    char,
> {
    if role == "system"@ {
        crate::gateway::grounded_prompt(content, date)
    } else {
        crate::gateway::replaced(content, "{current_date}"@, date)
    }
}

/// Maps the completions-surface transcript into the unified model, spelling
/// the current date into every turn and grounding system turns; when no
/// system turn exists, a synthesized one carrying the grounding prefix
/// lands at position 0.
pub fn normalize_openai_messages(
    messages: &Vec<OpenAIMessage>,
    current_date: &str,
) -> (r: Vec<Message>)
    ensures
        ({
            let mapped = Seq::new(
                messages@.len(),
                |k: int| MessageView {
                    role: messages@[k].role@,
                    content: normalized_content(
                        messages@[k].role@,
                        messages@[k].content@,
                        current_date@,
                    ),
                    tool_calls: crate::models::opt_calls_view(messages@[k].tool_calls),
                    tool_call_id: crate::models::opt_str_view(messages@[k].tool_call_id),
                },
            );
            if crate::adapters::has_system_entry(mapped) {
                r.deep_view() =~= mapped
            } else {
                r.deep_view() =~= seq![
                    crate::adapters::system_message_view(
                        "Current Date: "@ + current_date@ + ".\n\n"@,
                    ),
                ] + mapped
            }
        }),
{
    proof {
        reveal_strlit("{current_date}");
    }
    let ghost mapped_spec = Seq::new(
        messages@.len(),
        |k: int| MessageView {
            role: messages@[k].role@,
            content: normalized_content(
                messages@[k].role@,
                messages@[k].content@,
                current_date@,
            ),
            tool_calls: crate::models::opt_calls_view(messages@[k].tool_calls),
            tool_call_id: crate::models::opt_str_view(messages@[k].tool_call_id),
        },
    );
    let mut mapped: Vec<Message> = Vec::new();
    let mut i: usize = 0;
    while i < messages.len()
        invariant
            0 <= i <= messages@.len(),
            mapped.deep_view() =~= mapped_spec.subrange(0, i as int),
            mapped_spec.len() == messages@.len(),
            mapped_spec == Seq::new(
                messages@.len(),
                |k: int| MessageView {
                    role: messages@[k].role@,
                    content: normalized_content(
                        messages@[k].role@,
                        messages@[k].content@,
                        current_date@,
                    ),
                    tool_calls: crate::models::opt_calls_view(messages@[k].tool_calls),
                    tool_call_id: crate::models::opt_str_view(messages@[k].tool_call_id),
                },
            ),
        decreases messages@.len() - i,
    {
        proof {
            reveal_strlit("{current_date}");
        }
        let m = &messages[i];
        let is_system = crate::text::str_eq(m.role.as_str(), "system");
        let content: String = if is_system {
            crate::gateway::ground_system_prompt(m.content.as_str(), current_date)
        } else {
            crate::gateway::replace_all(m.content.as_str(), "{current_date}", current_date)
        };
        let entry = Message {
            role: m.role.clone(),
            content,
            tool_calls: crate::models::clone_opt_tool_calls(&m.tool_calls),
            tool_call_id: crate::models::clone_opt_string(&m.tool_call_id),
        };
        let ghost before = mapped.deep_view();
        mapped.push(entry);
        proof {
            assert(mapped.deep_view() =~= before.push(mapped_spec[i as int]));
            assert(mapped_spec.subrange(0, i as int + 1) =~= mapped_spec.subrange(
                0,
                i as int,
            ).push(mapped_spec[i as int]));
        }
        i = i + 1;
    }
    proof {
        assert(mapped_spec.subrange(0, messages@.len() as int) =~= mapped_spec);
    }
    let grounding = grounding_prefix(current_date);
    crate::adapters::ensure_system_entry(mapped, grounding.as_str())
}

/// The current-date grounding line.
pub fn grounding_prefix(current_date: &str) -> (r: String)
    ensures
        r@ =~= "Current Date: "@ + current_date@ + ".\n\n"@,
{
    let mut out = String::from_str("Current Date: ");
    push_str(&mut out, current_date);
    push_str(&mut out, ".\n\n");
    out
}

} // verus!
