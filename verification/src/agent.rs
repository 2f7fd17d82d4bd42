//! The bounded tool-calling agent loop: a state machine from provider
//! results and tool results to transcript growth, persistence intents, and
//! the run's outcome, with a fixed bound of five provider calls.
//!
//! The outside work — the provider call itself and the running of a known
//! tool — happens beyond this crate; every decision in between is made and
//! proved here.

use vstd::prelude::*;
use crate::models::{ChatResponse, ChatResponseView, Message, MessageView, ToolCall, ToolCallView};
use crate::tools::ToolRegistry;

verus! {

/// The fixed bound on provider calls per external request: tool results
/// feed the next call, so an unbounded loop would let a misbehaving
/// provider generate unbounded cost; this caps it deterministically.
pub const MAX_PROVIDER_CALLS: u32 = 5;

/// Where a run stands.
#[derive(Clone, Copy, PartialEq, Eq, Structural)]
pub enum RunPhase {
    /// The next step is a provider call.
    AwaitingProvider,
    /// Requested invocations are being run one by one.
    DispatchingTools,
    /// A final answer arrived and was recorded.
    Finished,
    /// The call bound was reached with the turn still unfinished.
    LoopExceeded,
}

/// One record the loop wants persisted, in order. Persistence failures are
/// tolerated by the caller; the intent log here is what a faultless store
/// would hold.
pub struct PersistedEntry {
    pub role: String,
    pub content: String,
    pub model: Option<String>,
    pub token_count: Option<i64>,
    pub tool_calls: Option<Vec<ToolCall>>,
    pub tool_call_id: Option<String>,
}

/// Mathematical image of a [`PersistedEntry`].
pub struct PersistedEntryView {
    pub role: Seq<char>,
    pub content: Seq<char>,
    pub model: Option<Seq<char>>,
    pub token_count: Option<i64>,
    pub tool_calls: Option<Seq<ToolCallView>>,
    pub tool_call_id: Option<Seq<char>>,
}

impl View for PersistedEntry {
    type V = PersistedEntryView;

    open spec fn view(&self) -> PersistedEntryView {
        PersistedEntryView {
            role: self.role@,
            content: self.content@,
            model: crate::models::opt_str_view(self.model),
            token_count: self.token_count,
            tool_calls: crate::models::opt_calls_view(self.tool_calls),
            tool_call_id: crate::models::opt_str_view(self.tool_call_id),
        }
    }
}

impl DeepView for PersistedEntry {
    type V = PersistedEntryView;

    open spec fn deep_view(&self) -> PersistedEntryView {
        self.view()
    }
}

/// The token count recorded for a final answer: the reported input and
/// output counts summed, when usage was reported.
pub open spec fn token_count_of(usage: Option<crate::models::Usage>) -> Option<i64> {
    match usage {
        Some(u) => Some((u.input_tokens + u.output_tokens) as i64),
        None => None,
    }
}

/// The persisted record of a final answer.
pub open spec fn final_entry_view(r: ChatResponseView, model_label: Seq<char>) -> PersistedEntryView {
    PersistedEntryView {
        role: "assistant"@,
        content: r.content,
        model: Some(model_label),
        token_count: token_count_of(r.usage),
        tool_calls: None,
        tool_call_id: None,
    }
}

/// The persisted record of an assistant turn that requested tools: it
/// carries the full requested invocation set, so the durable transcript
/// always matches what feeds the next call.
pub open spec fn dispatch_entry_view(r: ChatResponseView, model_label: Seq<char>) -> PersistedEntryView {
    PersistedEntryView {
        role: "assistant"@,
        content: r.content,
        model: Some(model_label),
        token_count: None,
        tool_calls: r.tool_calls,
        tool_call_id: None,
    }
}

/// The persisted record of one tool result.
pub open spec fn tool_entry_view(text: Seq<char>, resolved_id: Seq<char>) -> PersistedEntryView {
    PersistedEntryView {
        role: "tool"@,
        content: text,
        model: None,
        token_count: None,
        tool_calls: None,
        tool_call_id: Some(resolved_id),
    }
}

/// The transcript turn appended for an assistant answer that requested
/// tools.
pub open spec fn dispatch_message_view(r: ChatResponseView) -> MessageView {
    MessageView {
        role: "assistant"@,
        content: r.content,
        tool_calls: r.tool_calls,
        tool_call_id: None,
    }
}

/// The transcript turn appended for one tool result: it carries the
/// resolved id of the request it answers.
pub open spec fn tool_message_view(text: Seq<char>, resolved_id: Seq<char>) -> MessageView {
    MessageView {
        role: "tool"@,
        content: text,
        tool_calls: None,
        tool_call_id: Some(resolved_id),
    }
}

/// One agent-loop run: the live transcript, the persistence intent log,
/// the call counter, and the dispatch position.
pub struct AgentRun {
    pub transcript: Vec<Message>,
    pub provider_calls: u32,
    pub persisted: Vec<PersistedEntry>,
    pub phase: RunPhase,
    pub pending: Vec<ToolCall>,
    pub next_pending: usize,
}

impl AgentRun {
    /// The run's structural invariant: the counter never passes the bound,
    /// a provider call is only awaited while budget remains, and while
    /// dispatching there is always a next invocation.
    pub open spec fn wf(self) -> bool {
        &&& self.provider_calls <= MAX_PROVIDER_CALLS
        &&& (self.phase is AwaitingProvider ==> self.provider_calls < MAX_PROVIDER_CALLS)
        &&& (self.phase is DispatchingTools ==> self.next_pending < self.pending@.len()
            && self.pending.deep_view().len() == self.pending@.len()
            && self.provider_calls >= 1)
    }

    /// A fresh run over a transcript, before any provider call.
    pub fn start(transcript: Vec<Message>) -> (r: AgentRun)
        ensures
            r.wf(),
            r.phase is AwaitingProvider,
            r.provider_calls == 0,
            r.persisted@.len() == 0,
            r.transcript == transcript,
    {
        AgentRun {
            transcript,
            provider_calls: 0,
            persisted: Vec::new(),
            phase: RunPhase::AwaitingProvider,
            pending: Vec::new(),
            next_pending: 0,
        }
    }

    /// Feeds one provider answer in. An answer with no tool invocations
    /// finishes the run and records one final assistant entry; an answer
    /// with invocations appends and records the assistant turn with its
    /// full invocation set and moves to dispatching. Either way this is one
    /// more provider call, and the transcript is touched only in the
    /// dispatch case.
    pub fn on_provider_response(&mut self, response: &ChatResponse, model_label: &str)
        requires
            old(self).wf(),
            old(self).phase is AwaitingProvider,
        ensures
            final(self).wf(),
            final(self).provider_calls == old(self).provider_calls + 1,
            !crate::models::has_tool_calls(response@) ==> {
                &&& final(self).phase is Finished
                &&& final(self).persisted.deep_view() =~= old(self).persisted.deep_view().push(
                    final_entry_view(response@, model_label@),
                )
                &&& final(self).transcript.deep_view() =~= old(self).transcript.deep_view()
            },
            crate::models::has_tool_calls(response@) ==> {
                &&& final(self).phase is DispatchingTools
                &&& final(self).persisted.deep_view() =~= old(self).persisted.deep_view().push(
                    dispatch_entry_view(response@, model_label@),
                )
                &&& final(self).transcript.deep_view() =~= old(self).transcript.deep_view().push(
                    dispatch_message_view(response@),
                )
                &&& Some(final(self).pending.deep_view()) == response@.tool_calls
                &&& final(self).next_pending == 0
            },
    {
        self.provider_calls = self.provider_calls + 1;
        if !crate::models::response_has_tool_calls(response) {
            let token_count: Option<i64> = match response.usage {
                Some(u) => Some(u.input_tokens as i64 + u.output_tokens as i64),
                None => None,
            };
            let entry = PersistedEntry {
                role: String::from_str("assistant"),
                content: response.content.clone(),
                model: Some(model_label.to_owned()),
                token_count,
                tool_calls: None,
                tool_call_id: None,
            };
            let ghost old_persisted = self.persisted.deep_view();
            self.persisted.push(entry);
            proof {
                assert(self.persisted.deep_view() =~= old_persisted.push(
                    final_entry_view(response@, model_label@),
                ));
            }
            self.phase = RunPhase::Finished;
        } else {
            let calls: Vec<ToolCall> = match &response.tool_calls {
                Some(cs) => crate::models::clone_tool_calls(cs),
                None => Vec::new(),
            };
            let turn = Message {
                role: String::from_str("assistant"),
                content: response.content.clone(),
                tool_calls: Some(crate::models::clone_tool_calls(&calls)),
                tool_call_id: None,
            };
            let ghost old_transcript = self.transcript.deep_view();
            self.transcript.push(turn);
            proof {
                assert(self.transcript.deep_view() =~= old_transcript.push(
                    dispatch_message_view(response@),
                ));
            }
            let entry = PersistedEntry {
                role: String::from_str("assistant"),
                content: response.content.clone(),
                model: Some(model_label.to_owned()),
                token_count: None,
                tool_calls: Some(crate::models::clone_tool_calls(&calls)),
                tool_call_id: None,
            };
            let ghost old_persisted = self.persisted.deep_view();
            self.persisted.push(entry);
            proof {
                assert(self.persisted.deep_view() =~= old_persisted.push(
                    dispatch_entry_view(response@, model_label@),
                ));
            }
            self.pending = calls;
            self.next_pending = 0;
            self.phase = RunPhase::DispatchingTools;
        }
    }

    /// The invocation whose result is awaited.
    pub fn current_invocation(&self) -> (r: &ToolCall)
        requires
            self.wf(),
            self.phase is DispatchingTools,
        ensures
            r@ == self.pending.deep_view()[self.next_pending as int],
    {
        &self.pending[self.next_pending]
    }

    /// Feeds one tool result in: the tool turn joins the transcript and the
    /// intent log, carrying the resolved id. When the round's last result
    /// lands, the run either awaits the next provider call or, with the
    /// call budget spent, reports the bound reached — without another
    /// provider call.
    pub fn on_tool_result(&mut self, resolved_id: String, text: String)
        requires
            old(self).wf(),
            old(self).phase is DispatchingTools,
        ensures
            final(self).wf(),
            final(self).provider_calls == old(self).provider_calls,
            final(self).transcript.deep_view() =~= old(self).transcript.deep_view().push(
                tool_message_view(text@, resolved_id@),
            ),
            final(self).persisted.deep_view() =~= old(self).persisted.deep_view().push(
                tool_entry_view(text@, resolved_id@),
            ),
            old(self).next_pending + 1 < old(self).pending@.len() ==> {
                &&& final(self).phase is DispatchingTools
                &&& final(self).next_pending == old(self).next_pending + 1
                &&& final(self).pending == old(self).pending
            },
            old(self).next_pending + 1 == old(self).pending@.len() ==> {
                &&& (old(self).provider_calls == MAX_PROVIDER_CALLS ==> final(self).phase
                    is LoopExceeded)
                &&& (old(self).provider_calls < MAX_PROVIDER_CALLS ==> final(self).phase
                    is AwaitingProvider)
            },
    {
        let turn = Message {
            role: String::from_str("tool"),
            content: text.clone(),
            tool_calls: None,
            tool_call_id: Some(resolved_id.clone()),
        };
        let ghost old_transcript = self.transcript.deep_view();
        self.transcript.push(turn);
        proof {
            assert(self.transcript.deep_view() =~= old_transcript.push(
                tool_message_view(text@, resolved_id@),
            ));
        }
        let entry = PersistedEntry {
            role: String::from_str("tool"),
            content: text,
            model: None,
            token_count: None,
            tool_calls: None,
            tool_call_id: Some(resolved_id),
        };
        let ghost old_persisted = self.persisted.deep_view();
        self.persisted.push(entry);
        proof {
            assert(self.persisted.deep_view() =~= old_persisted.push(entry@));
        }
        let n = self.pending.len();
        assert(self.next_pending < n);
        if self.next_pending + 1 < n {
            self.next_pending = self.next_pending + 1;
        } else {
            self.pending = Vec::new();
            self.next_pending = 0;
            if self.provider_calls == MAX_PROVIDER_CALLS {
                self.phase = RunPhase::LoopExceeded;
            } else {
                self.phase = RunPhase::AwaitingProvider;
            }
        }
    }
}

/// Law: the loop bound is an invariant. Every reachable run state keeps its
/// provider-call counter at or under the fixed bound, whatever the provider
/// does: `start` establishes `wf`, and both step functions preserve it, so
/// no run ever exceeds the bound.
pub proof fn lemma_call_bound_invariant(run: AgentRun)
    requires
        run.wf(),
    ensures
        run.provider_calls <= MAX_PROVIDER_CALLS,
{
}

} // verus!

verus! {

/// Relies on `uuid::Uuid::new_v4` and its hyphenated `Display` form: a
/// 36-character identifier. The value is random, so nothing more is
/// claimed of it.
#[verifier::external_body]
pub fn fresh_uuid() -> (r: String)
    ensures
        r@.len() == 36,
{
    uuid::Uuid::new_v4().to_string()
}

/// Resolves an invocation's id: the provider-supplied one when present,
/// else a synthesized identifier.
pub fn resolve_invocation_id(tc: &ToolCall) -> (r: String)
    ensures
        match tc@.id {
            Some(id) => r@ == id,
            None => r@.len() == 36,
        },
{
    match &tc.id {
        Some(id) => id.clone(),
        None => fresh_uuid(),
    }
}

/// How a driven run ends.
#[derive(Clone, Copy, PartialEq, Eq, Structural)]
pub enum RunOutcome {
    /// A final answer was recorded.
    Finished,
    /// The provider-call bound was reached with the turn unfinished.
    LoopExceeded,
    /// The provider failed before a final answer; the run aborts there.
    ProviderFailed,
}

/// How many provider calls a run makes, given the sequence of answers the
/// provider would give and the remaining call budget.
pub open spec fn calls_used(rs: Seq<ChatResponseView>, budget: int) -> int
    decreases budget,
{
    if budget <= 0 || rs.len() == 0 {
        0
    } else if !crate::models::has_tool_calls(rs[0]) {
        1
    } else {
        1 + calls_used(rs.drop_first(), budget - 1)
    }
}

/// How a run ends, given the provider's answers and the remaining budget.
pub open spec fn outcome_of(rs: Seq<ChatResponseView>, budget: int) -> RunOutcome
    decreases budget,
{
    if budget <= 0 {
        RunOutcome::LoopExceeded
    } else if rs.len() == 0 {
        RunOutcome::ProviderFailed
    } else if !crate::models::has_tool_calls(rs[0]) {
        RunOutcome::Finished
    } else {
        outcome_of(rs.drop_first(), budget - 1)
    }
}

/// The number of invocations one answer requests.
pub open spec fn num_invocations(r: ChatResponseView) -> int {
    match r.tool_calls {
        Some(cs) => cs.len() as int,
        None => 0,
    }
}

/// `n` tool-role markers.
pub open spec fn tool_roles(n: int) -> Seq<Seq<char>> {
    if n <= 0 {
        Seq::empty()
    } else {
        Seq::new(n as nat, |i: int| "tool"@)
    }
}

/// The roles of the records a run persists, in order: each round one
/// assistant entry, then its tool results; a finishing answer one assistant
/// entry. The assistant-with-invocations entry always precedes its tool
/// results — persistence is causal within a run.
pub open spec fn expected_roles(rs: Seq<ChatResponseView>, budget: int) -> Seq<Seq<char>>
    decreases budget,
{
    if budget <= 0 || rs.len() == 0 {
        Seq::empty()
    } else if !crate::models::has_tool_calls(rs[0]) {
        seq!["assistant"@]
    } else {
        seq!["assistant"@] + tool_roles(num_invocations(rs[0])) + expected_roles(
            rs.drop_first(),
            budget - 1,
        )
    }
}

/// The roles of an intent log.
pub open spec fn entry_roles(es: Seq<PersistedEntryView>) -> Seq<Seq<char>> {
    es.map_values(|e: PersistedEntryView| e.role)
}

proof fn lemma_tool_roles_step(n: int)
    requires
        n > 0,
    ensures
        tool_roles(n) =~= seq!["tool"@] + tool_roles(n - 1),
{
}

/// Drives one run to its end from scripted provider answers. Each awaited
/// provider call consumes the next answer; an exhausted script stands for a
/// provider failure, which aborts the run. Each requested invocation is
/// answered through the registry: an unknown name yields its diagnostic
/// text, a known name consumes the next externally produced output (or
/// empty text when none remains).
pub fn run_with_responses(
    transcript: Vec<Message>,
    responses: &Vec<ChatResponse>,
    registry: &ToolRegistry,
    tool_outputs: &Vec<String>,
    model_label: &str,
) -> (r: (AgentRun, RunOutcome))
    ensures
        r.0.wf(),
        r.1 == outcome_of(responses.deep_view(), MAX_PROVIDER_CALLS as int),
        r.0.provider_calls as int == calls_used(responses.deep_view(), MAX_PROVIDER_CALLS as int),
        entry_roles(r.0.persisted.deep_view()) =~= expected_roles(
            responses.deep_view(),
            MAX_PROVIDER_CALLS as int,
        ),
        responses.deep_view().len() > 0 && !crate::models::has_tool_calls(
            responses.deep_view()[0],
        ) ==> r.0.persisted.deep_view() =~= seq![
            final_entry_view(responses.deep_view()[0], model_label@),
        ],
        r.0.transcript.deep_view().len() >= transcript.deep_view().len(),
        r.0.transcript.deep_view().subrange(0, transcript.deep_view().len() as int)
            =~= transcript.deep_view(),
{
    let ghost t0 = transcript.deep_view();
    let ghost rs = responses.deep_view();
    let ghost budget: int = MAX_PROVIDER_CALLS as int;
    let mut run = AgentRun::start(transcript);
    let mut ri: usize = 0;
    let mut tj: usize = 0;
    proof {
        assert(rs.subrange(0, rs.len() as int) =~= rs);
        assert(rs.skip(0) =~= rs);
        assert(entry_roles(run.persisted.deep_view()) =~= Seq::<Seq<char>>::empty());
        assert(run.transcript.deep_view().subrange(0, t0.len() as int) =~= t0);
    }
    loop
        invariant
            run.wf(),
            rs == responses.deep_view(),
            rs.len() == responses@.len(),
            ri <= responses@.len(),
            run.provider_calls as int == ri,
            ri <= MAX_PROVIDER_CALLS,
            run.phase is AwaitingProvider || run.phase is DispatchingTools,
            outcome_of(rs, budget) == outcome_of(rs.skip(ri as int), budget - ri),
            calls_used(rs, budget) == ri + calls_used(rs.skip(ri as int), budget - ri),
            budget == MAX_PROVIDER_CALLS as int,
            run.phase is AwaitingProvider ==> expected_roles(rs, budget) =~= entry_roles(
                run.persisted.deep_view(),
            ) + expected_roles(rs.skip(ri as int), budget - ri),
            run.phase is DispatchingTools ==> ri >= 1 && expected_roles(rs, budget)
                =~= entry_roles(run.persisted.deep_view()) + tool_roles(
                run.pending@.len() - run.next_pending,
            ) + expected_roles(rs.skip(ri as int), budget - ri),
            ri >= 1 ==> crate::models::has_tool_calls(rs[0]),
            ri == 0 ==> run.persisted.deep_view() =~= Seq::<PersistedEntryView>::empty(),
            t0 == transcript.deep_view(),
            run.transcript.deep_view().len() >= t0.len(),
            run.transcript.deep_view().subrange(0, t0.len() as int) =~= t0,
        decreases
            MAX_PROVIDER_CALLS as int - ri,
            (if run.phase is DispatchingTools {
                run.pending@.len() - run.next_pending
            } else {
                0int
            }),
            (if run.phase is AwaitingProvider {
                1int
            } else {
                0int
            }),
    {
        match run.phase {
            RunPhase::AwaitingProvider => {
                if ri == responses.len() {
                    proof {
                        assert(rs.skip(ri as int).len() == 0);
                        assert(budget - ri > 0);
                        assert(outcome_of(rs.skip(ri as int), budget - ri)
                            == RunOutcome::ProviderFailed);
                        assert(calls_used(rs.skip(ri as int), budget - ri) == 0);
                        assert(expected_roles(rs.skip(ri as int), budget - ri)
                            =~= Seq::<Seq<char>>::empty());
                        assert(entry_roles(run.persisted.deep_view())
                            + Seq::<Seq<char>>::empty()
                            =~= entry_roles(run.persisted.deep_view()));
                    }
                    return (run, RunOutcome::ProviderFailed);
                }
                let ghost rest = rs.skip(ri as int);
                let ghost head = rest[0];
                proof {
                    assert(head == rs[ri as int]);
                    assert(rest.drop_first() =~= rs.skip(ri as int + 1));
                    assert(budget - ri > 0);
                }
                let ghost roles_before = entry_roles(run.persisted.deep_view());
                let ghost transcript_before = run.transcript.deep_view();
                let response = &responses[ri];
                run.on_provider_response(response, model_label);
                ri = ri + 1;
                proof {
                    assert(run.transcript.deep_view().subrange(0, t0.len() as int) =~= t0);
                }
                proof {
                    assert(entry_roles(run.persisted.deep_view())
                        =~= roles_before.push("assistant"@));
                    assert(roles_before + (seq!["assistant"@] + expected_roles(rest, budget - ri
                        + 1).skip(1)) =~= roles_before.push("assistant"@) + expected_roles(
                        rest,
                        budget - ri + 1,
                    ).skip(1));
                }
                if matches!(run.phase, RunPhase::Finished) {
                    proof {
                        assert(!crate::models::has_tool_calls(head));
                        if ri == 1 {
                            assert(run.persisted.deep_view() =~= seq![
                                final_entry_view(rs[0], model_label@),
                            ]);
                        }
                        assert(outcome_of(rest, budget - (ri - 1)) == RunOutcome::Finished);
                        assert(calls_used(rest, budget - (ri - 1)) == 1);
                        assert(expected_roles(rest, budget - (ri - 1)) =~= seq!["assistant"@]);
                        assert(entry_roles(run.persisted.deep_view())
                            =~= roles_before + seq!["assistant"@]);
                        assert(expected_roles(rs, budget) =~= entry_roles(
                            run.persisted.deep_view(),
                        ));
                    }
                    return (run, RunOutcome::Finished);
                }
                proof {
                    assert(crate::models::has_tool_calls(head));
                    assert(run.phase is DispatchingTools);
                    assert(outcome_of(rest, budget - (ri - 1)) == outcome_of(
                        rest.drop_first(),
                        budget - ri,
                    ));
                    assert(calls_used(rest, budget - (ri - 1)) == 1 + calls_used(
                        rest.drop_first(),
                        budget - ri,
                    ));
                    assert(run.pending@.len() - run.next_pending == num_invocations(head));
                    assert(expected_roles(rest, budget - (ri - 1)) =~= seq!["assistant"@]
                        + tool_roles(num_invocations(head)) + expected_roles(
                        rest.drop_first(),
                        budget - ri,
                    ));
                    assert(roles_before + (seq!["assistant"@] + tool_roles(
                        num_invocations(head),
                    ) + expected_roles(rest.drop_first(), budget - ri)) =~= (roles_before
                        + seq!["assistant"@]) + tool_roles(num_invocations(head))
                        + expected_roles(rest.drop_first(), budget - ri));
                    assert(expected_roles(rs, budget) =~= entry_roles(run.persisted.deep_view())
                        + tool_roles(run.pending@.len() - run.next_pending) + expected_roles(
                        rs.skip(ri as int),
                        budget - ri,
                    ));
                }
            },
            RunPhase::DispatchingTools => {
                let name: String = {
                    let inv = run.current_invocation();
                    inv.function.name.clone()
                };
                let resolved_id: String = {
                    let inv = run.current_invocation();
                    resolve_invocation_id(inv)
                };
                let text: String = if registry.has_tool(name.as_str()) {
                    if tj < tool_outputs.len() {
                        let t = tool_outputs[tj].clone();
                        tj = tj + 1;
                        t
                    } else {
                        String::new()
                    }
                } else {
                    ToolRegistry::unknown_tool_text(name.as_str())
                };
                let ghost roles_before = entry_roles(run.persisted.deep_view());
                let ghost remaining = run.pending@.len() - run.next_pending;
                let ghost transcript_before = run.transcript.deep_view();
                run.on_tool_result(resolved_id, text);
                proof {
                    assert(run.transcript.deep_view().subrange(0, t0.len() as int) =~= t0);
                    assert(entry_roles(run.persisted.deep_view())
                        =~= roles_before.push("tool"@));
                    lemma_tool_roles_step(remaining);
                    assert(roles_before + (seq!["tool"@] + tool_roles(remaining - 1))
                        =~= roles_before.push("tool"@) + tool_roles(remaining - 1));
                    assert(roles_before + tool_roles(remaining) =~= roles_before.push("tool"@)
                        + tool_roles(remaining - 1));
                }
                if matches!(run.phase, RunPhase::LoopExceeded) {
                    proof {
                        assert(ri == MAX_PROVIDER_CALLS);
                        assert(budget - ri == 0);
                        assert(outcome_of(rs.skip(ri as int), 0) == RunOutcome::LoopExceeded);
                        assert(calls_used(rs.skip(ri as int), 0) == 0);
                        assert(expected_roles(rs.skip(ri as int), 0)
                            =~= Seq::<Seq<char>>::empty());
                        assert(tool_roles(remaining - 1) =~= Seq::<Seq<char>>::empty());
                        assert(expected_roles(rs, budget) =~= entry_roles(
                            run.persisted.deep_view(),
                        ));
                    }
                    return (run, RunOutcome::LoopExceeded);
                }
                proof {
                    if run.phase is AwaitingProvider {
                        assert(tool_roles(remaining - 1) =~= Seq::<Seq<char>>::empty());
                        assert(roles_before.push("tool"@) + Seq::<Seq<char>>::empty()
                            =~= roles_before.push("tool"@));
                    }
                }
            },
            RunPhase::Finished => {
                proof {
                    assert(false);
                }
                return (run, RunOutcome::Finished);
            },
            RunPhase::LoopExceeded => {
                proof {
                    assert(false);
                }
                return (run, RunOutcome::LoopExceeded);
            },
        }
    }
}

/// Law: a first answer with no tool invocations means exactly one provider
/// call, a finished run, and exactly one persisted entry — the final
/// assistant record.
pub proof fn lemma_first_answer_finishes(rs: Seq<ChatResponseView>)
    requires
        rs.len() > 0,
        !crate::models::has_tool_calls(rs[0]),
    ensures
        calls_used(rs, MAX_PROVIDER_CALLS as int) == 1,
        outcome_of(rs, MAX_PROVIDER_CALLS as int) is Finished,
        expected_roles(rs, MAX_PROVIDER_CALLS as int) =~= seq!["assistant"@],
{
}

proof fn lemma_all_tools_rec(rs: Seq<ChatResponseView>, budget: int)
    requires
        0 <= budget <= rs.len(),
        forall|i: int| 0 <= i < rs.len() ==> crate::models::has_tool_calls(rs[i]),
    ensures
        calls_used(rs, budget) == budget,
        outcome_of(rs, budget) is LoopExceeded,
    decreases budget,
{
    if budget > 0 {
        assert(crate::models::has_tool_calls(rs[0]));
        assert(forall|i: int|
            0 <= i < rs.drop_first().len() ==> crate::models::has_tool_calls(
                rs.drop_first()[i],
            ));
        lemma_all_tools_rec(rs.drop_first(), budget - 1);
    }
}

/// Law: when every answer requests at least one tool invocation, the loop
/// makes exactly five provider calls and then reports the bound reached —
/// never a sixth call.
pub proof fn lemma_all_tool_calls_hits_bound(rs: Seq<ChatResponseView>)
    requires
        rs.len() >= MAX_PROVIDER_CALLS,
        forall|i: int| 0 <= i < rs.len() ==> crate::models::has_tool_calls(rs[i]),
    ensures
        calls_used(rs, MAX_PROVIDER_CALLS as int) == MAX_PROVIDER_CALLS,
        outcome_of(rs, MAX_PROVIDER_CALLS as int) is LoopExceeded,
{
    lemma_all_tools_rec(rs, MAX_PROVIDER_CALLS as int);
}

} // verus!
