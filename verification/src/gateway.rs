//! Request-handling logic shared by the HTTP, duplex, and terminal
//! surfaces: turning stored history into the unified model, grounding the
//! system prompt with the current date, and rendering persistence intents.

use vstd::prelude::*;
use crate::agent::PersistedEntry;
use crate::jsonio::{json_array_items, json_array_items_of, json_field_raw, json_field_raw_of,
    json_field_str, json_field_str_of, json_quoted, push_json_string};
use crate::models::{Message, ToolCall};
use crate::text::push_str;

verus! {

/// `s` with every non-overlapping occurrence of `pat` replaced by `rep`,
/// scanning left to right.
pub open spec fn replaced(s: Seq<char>, pat: Seq<char>, rep: Seq<char>) -> Seq<char>
    decreases s.len(),
{
    if pat.len() == 0 || s.len() == 0 {
        s
    } else if s.len() >= pat.len() && s.subrange(0, pat.len() as int) == pat {
        rep + replaced(s.skip(pat.len() as int), pat, rep)
    } else {
        seq![s[0]] + replaced(s.drop_first(), pat, rep)
    }
}

/// Replaces every occurrence of `pat` in `s` by `rep`, left to right,
/// non-overlapping.
pub fn replace_all(s: &str, pat: &str, rep: &str) -> (r: String)
    requires
        pat@.len() > 0,
    ensures
        r@ =~= replaced(s@, pat@, rep@),
{
    let n: usize = s.unicode_len();
    let pn: usize = pat.unicode_len();
    let mut out = String::new();
    let mut i: usize = 0;
    proof {
        assert(s@.skip(0) =~= s@);
        assert(out@ + replaced(s@.skip(0), pat@, rep@) =~= replaced(s@, pat@, rep@));
    }
    while i < n
        invariant
            0 <= i <= n,
            n == s@.len(),
            pn == pat@.len(),
            pn > 0,
            replaced(s@, pat@, rep@) =~= out@ + replaced(s@.skip(i as int), pat@, rep@),
        decreases n - i,
    {
        let ghost rest = s@.skip(i as int);
        proof {
            assert(rest[0] == s@[i as int]);
            assert(rest.drop_first() =~= s@.skip(i as int + 1));
        }
        let matches_here: bool = if pn <= n - i {
            let piece = s.substring_char(i, i + pn);
            let eq = crate::text::str_eq(piece, pat);
            proof {
                if eq {
                    assert(rest.len() >= pat@.len());
                    assert(rest.subrange(0, pat@.len() as int) =~= s@.subrange(
                        i as int,
                        i as int + pn,
                    ));
                } else {
                    assert(rest.subrange(0, pat@.len() as int) =~= s@.subrange(
                        i as int,
                        i as int + pn,
                    ));
                }
            }
            eq
        } else {
            proof {
                assert(rest.len() < pat@.len());
            }
            false
        };
        if matches_here {
            push_str(&mut out, rep);
            proof {
                assert(rest.skip(pn as int) =~= s@.skip(i as int + pn as int));
            }
            i = i + pn;
        } else {
            let c = s.get_char(i);
            crate::text::push_char(&mut out, c);
            proof {
                assert(out@ =~= (out@.drop_last() + seq![c]));
            }
            i = i + 1;
        }
    }
    proof {
        assert(s@.skip(n as int).len() == 0);
        assert(replaced(s@.skip(n as int), pat@, rep@) == s@.skip(n as int));
        assert(out@ + s@.skip(n as int) =~= out@);
    }
    out
}

/// The grounded system prompt: `{current_date}` spelled out in the prompt,
/// behind a leading current-date line.
pub open spec fn grounded_prompt(prompt: Seq<char>, date: Seq<char>) -> Seq<char> {
    "Current Date: "@ + date + ".\n\n"@ + replaced(prompt, "{current_date}"@, date)
}

/// Grounds a system prompt with the current date, supplied by the caller as
/// already-rendered text.
pub fn ground_system_prompt(prompt: &str, current_date: &str) -> (r: String)
    ensures
        r@ =~= grounded_prompt(prompt@, current_date@),
{
    proof {
        reveal_strlit("{current_date}");
    }
    let mut out = String::from_str("Current Date: ");
    push_str(&mut out, current_date);
    push_str(&mut out, ".\n\n");
    let replaced_prompt = replace_all(prompt, "{current_date}", current_date);
    push_str(&mut out, replaced_prompt.as_str());
    out
}

/// The tool calls a stored message's metadata carries, read in the wrapped
/// shape the loop persists them in.
pub open spec fn metadata_tool_calls(metadata: Seq<char>) -> Option<
    Seq<crate::models::ToolCallView>,
> {
    match json_field_raw_of(metadata, "tool_calls"@) {
        Some(tc) => match json_array_items_of(tc) {
            Some(items) => crate::decode::structured_calls_of(items),
            None => None,
        },
        None => None,
    }
}

/// Turns one stored message back into a unified chat turn: the metadata's
/// `tool_calls` list and `tool_call_id` ride along when present.
pub fn stored_to_chat_message(m: &crate::store::Message) -> (r: Message)
    ensures
        r@.role == m@.role,
        r@.content == m@.content,
        r@.tool_calls == metadata_tool_calls(m@.metadata),
        r@.tool_call_id == json_field_str_of(m@.metadata, "tool_call_id"@),
{
    let tool_calls: Option<Vec<ToolCall>> = match json_field_raw(m.metadata.as_str(), "tool_calls")
        {
        Some(tc) => {
            match json_array_items(tc.as_str()) {
                Some(items) => crate::decode::parse_structured_calls(&items),
                None => None,
            }
        },
        None => None,
    };
    let tool_call_id = json_field_str(m.metadata.as_str(), "tool_call_id");
    Message { role: m.role.clone(), content: m.content.clone(), tool_calls, tool_call_id }
}

/// Turns a stored history window into the unified transcript, oldest first.
pub fn history_to_transcript(history: &Vec<crate::store::Message>) -> (r: Vec<Message>)
    ensures
        r@.len() == history@.len(),
        forall|k: int|
            0 <= k < history@.len() ==> {
                let mv = #[trigger] r.deep_view()[k];
                &&& mv.role == history@[k]@.role
                &&& mv.content == history@[k]@.content
                &&& mv.tool_calls == metadata_tool_calls(history@[k]@.metadata)
                &&& mv.tool_call_id == json_field_str_of(
                    history@[k]@.metadata,
                    "tool_call_id"@,
                )
            },
{
    let mut out: Vec<Message> = Vec::new();
    let mut i: usize = 0;
    while i < history.len()
        invariant
            0 <= i <= history@.len(),
            out@.len() == i,
            out.deep_view().len() == i,
            forall|k: int|
                0 <= k < i ==> {
                    let mv = #[trigger] out.deep_view()[k];
                    &&& mv.role == history@[k]@.role
                    &&& mv.content == history@[k]@.content
                    &&& mv.tool_calls == metadata_tool_calls(history@[k]@.metadata)
                    &&& mv.tool_call_id == json_field_str_of(
                        history@[k]@.metadata,
                        "tool_call_id"@,
                    )
                },
        decreases history@.len() - i,
    {
        let m = stored_to_chat_message(&history[i]);
        let ghost before = out.deep_view();
        out.push(m);
        proof {
            assert(out.deep_view() =~= before.push(m@));
            assert(forall|k: int| 0 <= k < i ==> out.deep_view()[k] == before[k]);
            assert(out.deep_view()[i as int] == m@);
        }
        i = i + 1;
    }
    out
}

/// The metadata text persisted with one intent-log record: the invocation
/// list for an assistant-with-invocations entry, the resolved id for a tool
/// entry, an empty object otherwise.
pub open spec fn entry_metadata_text(e: crate::agent::PersistedEntryView) -> Seq<char> {
    match e.tool_calls {
        Some(tcs) => "{\"tool_calls\":"@ + crate::adapters::tool_calls_array_json(tcs) + "}"@,
        None => match e.tool_call_id {
            Some(id) => "{\"tool_call_id\":"@ + json_quoted(id) + "}"@,
            None => "{}"@,
        },
    }
}

/// Renders the metadata text persisted with one intent-log record.
pub fn persisted_entry_metadata(e: &PersistedEntry) -> (r: String)
    ensures
        r@ =~= entry_metadata_text(e@),
{
    match &e.tool_calls {
        Some(tcs) => {
            let mut out = String::from_str("{\"tool_calls\":");
            crate::adapters::push_tool_calls_array(&mut out, tcs);
            push_str(&mut out, "}");
            out
        },
        None => {
            match &e.tool_call_id {
                Some(id) => {
                    let mut out = String::from_str("{\"tool_call_id\":");
                    push_json_string(&mut out, id.as_str());
                    push_str(&mut out, "}");
                    out
                },
                None => String::from_str("{}"),
            }
        },
    }
}

/// Applies one intent-log record to the store under the given session. The
/// record lands exactly as the loop shaped it.
pub fn persist_entry(
    store: &mut crate::store::DbService,
    session_id: &str,
    entry: &PersistedEntry,
) -> (r: crate::store::Message)
    requires
        old(store).wf(),
    ensures
        final(store).wf(),
        final(store).messages@.len() == old(store).messages@.len() + 1,
        r@.session_id == session_id@,
        r@.role == entry@.role,
        r@.content == entry@.content,
        r@.model == entry@.model,
        r@.token_count == entry@.token_count,
        r@.metadata == entry_metadata_text(entry@),
{
    let metadata = persisted_entry_metadata(entry);
    let model_ref: Option<&str> = match &entry.model {
        Some(m) => Some(m.as_str()),
        None => None,
    };
    store.insert_message(
        session_id,
        entry.role.as_str(),
        entry.content.as_str(),
        model_ref,
        entry.token_count,
        metadata.as_str(),
    )
}

} // verus!

verus! {

/// The metadata text persisted with one intent-log record when the surface
/// tags its writes with a source label: the label leads, then the record's
/// own fields as in [`entry_metadata_text`].
pub open spec fn entry_metadata_text_tagged(
    e: crate::agent::PersistedEntryView,
    source: Seq<char>,
) -> Seq<char> {
    "{\"source\":"@ + json_quoted(source) + (match e.tool_calls {
        Some(tcs) => ",\"tool_calls\":"@ + crate::adapters::tool_calls_array_json(tcs) + "}"@,
        None => match e.tool_call_id {
            Some(id) => ",\"tool_call_id\":"@ + json_quoted(id) + "}"@,
            None => "}"@,
        },
    })
}

/// Renders the source-tagged metadata text of one intent-log record.
pub fn persisted_entry_metadata_tagged(e: &PersistedEntry, source: &str) -> (r: String)
    ensures
        r@ =~= entry_metadata_text_tagged(e@, source@),
{
    let mut out = String::from_str("{\"source\":");
    push_json_string(&mut out, source);
    match &e.tool_calls {
        Some(tcs) => {
            push_str(&mut out, ",\"tool_calls\":");
            crate::adapters::push_tool_calls_array(&mut out, tcs);
            push_str(&mut out, "}");
        },
        None => {
            match &e.tool_call_id {
                Some(id) => {
                    push_str(&mut out, ",\"tool_call_id\":");
                    push_json_string(&mut out, id.as_str());
                    push_str(&mut out, "}");
                },
                None => {
                    push_str(&mut out, "}");
                },
            }
        },
    }
    out
}

/// Applies one intent-log record to the store with a source label in its
/// metadata, as a surface that tags its writes does.
pub fn persist_entry_tagged(
    store: &mut crate::store::DbService,
    session_id: &str,
    entry: &PersistedEntry,
    source: &str,
) -> (r: crate::store::Message)
    requires
        old(store).wf(),
    ensures
        final(store).wf(),
        final(store).messages@.len() == old(store).messages@.len() + 1,
        r@.session_id == session_id@,
        r@.role == entry@.role,
        r@.content == entry@.content,
        r@.model == entry@.model,
        r@.token_count == entry@.token_count,
        r@.metadata == entry_metadata_text_tagged(entry@, source@),
{
    let metadata = persisted_entry_metadata_tagged(entry, source);
    let model_ref: Option<&str> = match &entry.model {
        Some(m) => Some(m.as_str()),
        None => None,
    };
    store.insert_message(
        session_id,
        entry.role.as_str(),
        entry.content.as_str(),
        model_ref,
        entry.token_count,
        metadata.as_str(),
    )
}

} // verus!
