//! The unified chat model: the shared vocabulary every adapter, the agent
//! loop, and the transports speak, together with the mathematical views the
//! contracts are stated over.

use vstd::prelude::*;

verus! {

/// A provider's request to run one named function with raw serialized
/// arguments.
pub struct FunctionCall {
    pub name: String,
    /// Raw JSON text of the arguments, passed through uninterpreted.
    pub arguments: String,
}

/// One tool invocation requested by a provider, with its vendor-supplied id
/// when one was given.
pub struct ToolCall {
    pub id: Option<String>,
    /// The invocation kind tag a vendor attaches, `"function"` when present.
    pub kind: Option<String>,
    pub function: FunctionCall,
}

/// The schema side of one offered tool.
pub struct FunctionDefinition {
    pub name: String,
    pub description: String,
    /// Raw JSON text of the structured parameter schema.
    pub parameters: String,
}

/// One tool offered to a provider.
pub struct ToolDefinition {
    /// The definition kind tag, `"function"` for every tool here.
    pub kind: String,
    pub function: FunctionDefinition,
}

/// One chat turn. Role is one of `system`, `user`, `assistant`, `tool`;
/// `tool_calls` rides only on assistant turns and `tool_call_id` only on
/// tool turns, where it names the request the result answers.
pub struct Message {
    pub role: String,
    pub content: String,
    pub tool_calls: Option<Vec<ToolCall>>,
    pub tool_call_id: Option<String>,
}

/// Advisory per-call options; an adapter fills defaults for whatever is
/// absent.
pub struct ChatOptions {
    pub model: Option<String>,
    /// Sampling temperature as decimal text, forwarded verbatim onto the
    /// wire (the core never computes with it).
    pub temperature: Option<String>,
    pub max_tokens: Option<u32>,
    pub system_prompt: Option<String>,
    pub tools: Option<Vec<ToolDefinition>>,
    /// Raw JSON text of a tool-choice directive, forwarded verbatim.
    pub tool_choice: Option<String>,
}

/// Token accounting a vendor reported for one call.
#[derive(Clone, Copy, PartialEq, Eq, Structural)]
pub struct Usage {
    pub input_tokens: u32,
    pub output_tokens: u32,
}

/// One provider answer. A non-empty `tool_calls` list means the turn is
/// not finished: the requested tools must run and the results feed the
/// next call.
pub struct ChatResponse {
    pub content: String,
    pub model: String,
    pub usage: Option<Usage>,
    pub tool_calls: Option<Vec<ToolCall>>,
}

/// Mathematical image of a [`FunctionCall`].
pub struct FunctionCallView {
    pub name: Seq<char>,
    pub arguments: Seq<char>,
}

/// Mathematical image of a [`ToolCall`].
pub struct ToolCallView {
    pub id: Option<Seq<char>>,
    pub kind: Option<Seq<char>>,
    pub function: FunctionCallView,
}

/// Mathematical image of a [`FunctionDefinition`].
pub struct FunctionDefinitionView {
    pub name: Seq<char>,
    pub description: Seq<char>,
    pub parameters: Seq<char>,
}

/// Mathematical image of a [`ToolDefinition`].
pub struct ToolDefinitionView {
    pub kind: Seq<char>,
    pub function: FunctionDefinitionView,
}

/// Mathematical image of a [`Message`].
pub struct MessageView {
    pub role: Seq<char>,
    pub content: Seq<char>,
    pub tool_calls: Option<Seq<ToolCallView>>,
    pub tool_call_id: Option<Seq<char>>,
}

/// Mathematical image of [`ChatOptions`].
pub struct ChatOptionsView {
    pub model: Option<Seq<char>>,
    pub temperature: Option<Seq<char>>,
    pub max_tokens: Option<u32>,
    pub system_prompt: Option<Seq<char>>,
    pub tools: Option<Seq<ToolDefinitionView>>,
    pub tool_choice: Option<Seq<char>>,
}

/// Mathematical image of a [`ChatResponse`].
pub struct ChatResponseView {
    pub content: Seq<char>,
    pub model: Seq<char>,
    pub usage: Option<Usage>,
    pub tool_calls: Option<Seq<ToolCallView>>,
}

/// The view of an optional owned string.
pub open spec fn opt_str_view(o: Option<String>) -> Option<Seq<char>> {
    match o {
        Some(s) => Some(s@),
        None => None,
    }
}

impl View for FunctionCall {
    type V = FunctionCallView;

    open spec fn view(&self) -> FunctionCallView {
        FunctionCallView { name: self.name@, arguments: self.arguments@ }
    }
}

impl DeepView for FunctionCall {
    type V = FunctionCallView;

    open spec fn deep_view(&self) -> FunctionCallView {
        self.view()
    }
}

impl View for ToolCall {
    type V = ToolCallView;

    open spec fn view(&self) -> ToolCallView {
        ToolCallView {
            id: opt_str_view(self.id),
            kind: opt_str_view(self.kind),
            function: self.function@,
        }
    }
}

impl DeepView for ToolCall {
    type V = ToolCallView;

    open spec fn deep_view(&self) -> ToolCallView {
        self.view()
    }
}

/// The view of an optional tool-call list.
pub open spec fn opt_calls_view(o: Option<Vec<ToolCall>>) -> Option<Seq<ToolCallView>> {
    match o {
        Some(calls) => Some(calls.deep_view()),
        None => None,
    }
}

impl View for FunctionDefinition {
    type V = FunctionDefinitionView;

    open spec fn view(&self) -> FunctionDefinitionView {
        FunctionDefinitionView {
            name: self.name@,
            description: self.description@,
            parameters: self.parameters@,
        }
    }
}

impl DeepView for FunctionDefinition {
    type V = FunctionDefinitionView;

    open spec fn deep_view(&self) -> FunctionDefinitionView {
        self.view()
    }
}

impl View for ToolDefinition {
    type V = ToolDefinitionView;

    open spec fn view(&self) -> ToolDefinitionView {
        ToolDefinitionView { kind: self.kind@, function: self.function@ }
    }
}

impl DeepView for ToolDefinition {
    type V = ToolDefinitionView;

    open spec fn deep_view(&self) -> ToolDefinitionView {
        self.view()
    }
}

impl View for Message {
    type V = MessageView;

    open spec fn view(&self) -> MessageView {
        MessageView {
            role: self.role@,
            content: self.content@,
            tool_calls: opt_calls_view(self.tool_calls),
            tool_call_id: opt_str_view(self.tool_call_id),
        }
    }
}

impl DeepView for Message {
    type V = MessageView;

    open spec fn deep_view(&self) -> MessageView {
        self.view()
    }
}

/// The view of an optional tool-definition list.
pub open spec fn opt_defs_view(o: Option<Vec<ToolDefinition>>) -> Option<Seq<ToolDefinitionView>> {
    match o {
        Some(defs) => Some(defs.deep_view()),
        None => None,
    }
}

impl View for ChatOptions {
    type V = ChatOptionsView;

    open spec fn view(&self) -> ChatOptionsView {
        ChatOptionsView {
            model: opt_str_view(self.model),
            temperature: opt_str_view(self.temperature),
            max_tokens: self.max_tokens,
            system_prompt: opt_str_view(self.system_prompt),
            tools: opt_defs_view(self.tools),
            tool_choice: opt_str_view(self.tool_choice),
        }
    }
}

impl View for ChatResponse {
    type V = ChatResponseView;

    open spec fn view(&self) -> ChatResponseView {
        ChatResponseView {
            content: self.content@,
            model: self.model@,
            usage: self.usage,
            tool_calls: opt_calls_view(self.tool_calls),
        }
    }
}

impl DeepView for ChatResponse {
    type V = ChatResponseView;

    open spec fn deep_view(&self) -> ChatResponseView {
        self.view()
    }
}

/// True iff `r` carries at least one tool invocation, i.e. the turn is
/// unfinished.
pub open spec fn has_tool_calls(r: ChatResponseView) -> bool {
    match r.tool_calls {
        Some(calls) => calls.len() > 0,
        None => false,
    }
}

/// Executable front for [`has_tool_calls`].
pub fn response_has_tool_calls(r: &ChatResponse) -> (b: bool)
    ensures
        b == has_tool_calls(r@),
{
    match &r.tool_calls {
        Some(calls) => calls.len() > 0,
        None => false,
    }
}

/// Copies an optional owned string.
pub fn clone_opt_string(s: &Option<String>) -> (r: Option<String>)
    ensures
        r == *s,
{
    match s {
        Some(v) => Some(v.clone()),
        None => None,
    }
}

impl Clone for FunctionCall {
    fn clone(&self) -> (r: Self)
        ensures
            r@ == self@,
    {
        FunctionCall { name: self.name.clone(), arguments: self.arguments.clone() }
    }
}

impl Clone for ToolCall {
    fn clone(&self) -> (r: Self)
        ensures
            r@ == self@,
    {
        ToolCall {
            id: clone_opt_string(&self.id),
            kind: clone_opt_string(&self.kind),
            function: self.function.clone(),
        }
    }
}

/// Copies a list of tool calls.
pub fn clone_tool_calls(v: &Vec<ToolCall>) -> (r: Vec<ToolCall>)
    ensures
        r.deep_view() =~= v.deep_view(),
{
    let mut out: Vec<ToolCall> = Vec::new();
    let mut i: usize = 0;
    while i < v.len()
        invariant
            0 <= i <= v@.len(),
            out.deep_view() =~= v.deep_view().subrange(0, i as int),
        decreases v@.len() - i,
    {
        out.push(v[i].clone());
        proof {
            assert(v.deep_view().subrange(0, i as int + 1)
                =~= v.deep_view().subrange(0, i as int).push(v.deep_view()[i as int]));
        }
        i = i + 1;
    }
    proof {
        assert(v.deep_view().subrange(0, v@.len() as int) =~= v.deep_view());
    }
    out
}

/// Copies an optional list of tool calls.
pub fn clone_opt_tool_calls(v: &Option<Vec<ToolCall>>) -> (r: Option<Vec<ToolCall>>)
    ensures
        opt_calls_view(r) == opt_calls_view(*v),
{
    match v {
        Some(calls) => {
            let copied = clone_tool_calls(calls);
            proof {
                assert(copied.deep_view() == calls.deep_view());
            }
            Some(copied)
        },
        None => None,
    }
}

impl Clone for Message {
    fn clone(&self) -> (r: Self)
        ensures
            r@ == self@,
    {
        Message {
            role: self.role.clone(),
            content: self.content.clone(),
            tool_calls: clone_opt_tool_calls(&self.tool_calls),
            tool_call_id: clone_opt_string(&self.tool_call_id),
        }
    }
}

impl Clone for FunctionDefinition {
    fn clone(&self) -> (r: Self)
        ensures
            r@ == self@,
    {
        FunctionDefinition {
            name: self.name.clone(),
            description: self.description.clone(),
            parameters: self.parameters.clone(),
        }
    }
}

impl Clone for ToolDefinition {
    fn clone(&self) -> (r: Self)
        ensures
            r@ == self@,
    {
        ToolDefinition { kind: self.kind.clone(), function: self.function.clone() }
    }
}

/// Copies a list of tool definitions.
pub fn clone_tool_definitions(v: &Vec<ToolDefinition>) -> (r: Vec<ToolDefinition>)
    ensures
        r.deep_view() =~= v.deep_view(),
{
    let mut out: Vec<ToolDefinition> = Vec::new();
    let mut i: usize = 0;
    while i < v.len()
        invariant
            0 <= i <= v@.len(),
            out.deep_view() =~= v.deep_view().subrange(0, i as int),
        decreases v@.len() - i,
    {
        out.push(v[i].clone());
        proof {
            assert(v.deep_view().subrange(0, i as int + 1)
                =~= v.deep_view().subrange(0, i as int).push(v.deep_view()[i as int]));
        }
        i = i + 1;
    }
    proof {
        assert(v.deep_view().subrange(0, v@.len() as int) =~= v.deep_view());
    }
    out
}

impl Clone for ChatOptions {
    fn clone(&self) -> (r: Self)
        ensures
            r@ == self@,
    {
        let tools: Option<Vec<ToolDefinition>> = match &self.tools {
            Some(defs) => {
                let copied = clone_tool_definitions(defs);
                proof {
                    assert(copied.deep_view() == defs.deep_view());
                }
                Some(copied)
            },
            None => None,
        };
        ChatOptions {
            model: clone_opt_string(&self.model),
            temperature: clone_opt_string(&self.temperature),
            max_tokens: self.max_tokens,
            system_prompt: clone_opt_string(&self.system_prompt),
            tools,
            tool_choice: clone_opt_string(&self.tool_choice),
        }
    }
}

impl ChatOptions {
    /// Options with every field absent; every adapter then fills its own
    /// defaults.
    pub fn new_empty() -> (r: ChatOptions)
        ensures
            r@.model is None,
            r@.temperature is None,
            r@.max_tokens is None,
            r@.system_prompt is None,
            r@.tools is None,
            r@.tool_choice is None,
    {
        ChatOptions {
            model: None,
            temperature: None,
            max_tokens: None,
            system_prompt: None,
            tools: None,
            tool_choice: None,
        }
    }
}

impl Clone for ChatResponse {
    fn clone(&self) -> (r: Self)
        ensures
            r@ == self@,
    {
        ChatResponse {
            content: self.content.clone(),
            model: self.model.clone(),
            usage: self.usage,
            tool_calls: clone_opt_tool_calls(&self.tool_calls),
        }
    }
}

/// Copies a transcript message-for-message.
pub fn clone_messages(v: &Vec<Message>) -> (r: Vec<Message>)
    ensures
        r.deep_view() =~= v.deep_view(),
{
    let mut out: Vec<Message> = Vec::new();
    let mut i: usize = 0;
    while i < v.len()
        invariant
            0 <= i <= v@.len(),
            out.deep_view() =~= v.deep_view().subrange(0, i as int),
        decreases v@.len() - i,
    {
        out.push(v[i].clone());
        proof {
            assert(v.deep_view().subrange(0, i as int + 1)
                =~= v.deep_view().subrange(0, i as int).push(v.deep_view()[i as int]));
        }
        i = i + 1;
    }
    proof {
        assert(v.deep_view().subrange(0, v@.len() as int) =~= v.deep_view());
    }
    out
}

} // verus!
