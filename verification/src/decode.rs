//! Protocol adapters, inbound half: vendor status classification and the
//! decoding of one-shot response bodies into the unified model.

use vstd::prelude::*;
use crate::adapters::Vendor;
use crate::jsonio::{json_array_items, json_array_items_of, json_field_raw, json_field_raw_of,
    json_field_str, json_field_str_of, json_field_u64, json_field_u64_of, json_parse_error,
    json_parse_error_of};
use crate::llm::LlmError;
use crate::models::{ChatResponse, Usage};
use crate::text::push_str;

verus! {

/// True iff the status is in the HTTP success range.
pub fn http_is_success(status: u16) -> (b: bool)
    ensures
        b == (200 <= status < 300),
{
    200 <= status && status < 300
}

/// The error-message prefix each vendor's failures carry.
pub open spec fn vendor_error_prefix(v: Vendor, stream: bool) -> Seq<char> {
    match v {
        Vendor::OpenAi => if stream {
            "OpenAI Stream Error "@
        } else {
            "OpenAI Error "@
        },
        Vendor::Anthropic => if stream {
            "Anthropic Stream Error "@
        } else {
            "Anthropic Error "@
        },
        Vendor::Ollama => if stream {
            "Ollama Stream Error "@
        } else {
            "Ollama Error "@
        },
    }
}

/// Maps a non-success vendor status to the failure taxonomy: a
/// 429-equivalent becomes `RateLimited`, kept distinct from the generic
/// `Api` failure, which carries the vendor prefix, the status line and the
/// body text.
pub fn classify_error_status(
    v: Vendor,
    stream: bool,
    status: u16,
    status_text: &str,
    body: &str,
) -> (r: LlmError)
    ensures
        status == 429 ==> r@ is RateLimited,
        status != 429 ==> r@ == crate::llm::LlmErrorView::Api(
            vendor_error_prefix(v, stream) + status_text@ + ": "@ + body@,
        ),
{
    if status == 429 {
        return LlmError::RateLimited;
    }
    let mut msg: String = match v {
        Vendor::OpenAi => if stream {
            String::from_str("OpenAI Stream Error ")
        } else {
            String::from_str("OpenAI Error ")
        },
        Vendor::Anthropic => if stream {
            String::from_str("Anthropic Stream Error ")
        } else {
            String::from_str("Anthropic Error ")
        },
        Vendor::Ollama => if stream {
            String::from_str("Ollama Stream Error ")
        } else {
            String::from_str("Ollama Error ")
        },
    };
    push_str(&mut msg, status_text);
    push_str(&mut msg, ": ");
    push_str(&mut msg, body);
    LlmError::Api(msg)
}

/// The first element of a JSON array given as raw text, when there is one.
pub open spec fn first_array_item(arr: Option<Seq<char>>) -> Option<Seq<char>> {
    match arr {
        Some(a) => match json_array_items_of(a) {
            Some(items) => if items.len() > 0 {
                Some(items[0])
            } else {
                None
            },
            None => None,
        },
        None => None,
    }
}

/// Executable front for [`first_array_item`] on an optional raw array.
fn take_first_item(arr: Option<String>) -> (r: Option<String>)
    ensures
        match r {
            Some(s) => first_array_item(crate::models::opt_str_view(arr)) == Some(s@),
            None => first_array_item(crate::models::opt_str_view(arr)) is None,
        },
{
    match arr {
        Some(a) => {
            match json_array_items(a.as_str()) {
                Some(items) => {
                    if items.len() > 0 {
                        let first = items[0].clone();
                        proof {
                            assert(items.deep_view()[0] == first@);
                        }
                        Some(first)
                    } else {
                        None
                    }
                },
                None => None,
            }
        },
        None => None,
    }
}

/// `x` reduced mod 2^32, as a plain integer cast does.
pub open spec fn trunc_u32(x: u64) -> u32 {
    (x % 0x1_0000_0000) as u32
}

/// One side of a reported usage block: the named counter, zero when absent,
/// reduced to 32 bits.
pub open spec fn usage_count_of(u: Seq<char>, key: Seq<char>) -> u32 {
    match json_field_u64_of(u, key) {
        Some(x) => trunc_u32(x),
        None => 0,
    }
}

/// Reads one usage counter field.
fn read_usage_count(u: &str, key: &str) -> (r: u32)
    ensures
        r == usage_count_of(u@, key@),
{
    match json_field_u64(u, key) {
        Some(x) => (x % 0x1_0000_0000) as u32,
        None => 0,
    }
}

/// The usage block of a completions-protocol response body.
pub open spec fn openai_usage_of(body: Seq<char>) -> Option<Usage> {
    match json_field_raw_of(body, "usage"@) {
        Some(u) => Some(
            Usage {
                input_tokens: usage_count_of(u, "prompt_tokens"@),
                output_tokens: usage_count_of(u, "completion_tokens"@),
            },
        ),
        None => None,
    }
}

/// The final content of a completions-protocol response body: the string at
/// `choices[0].message.content`, when that path holds one.
pub open spec fn openai_content_of(body: Seq<char>) -> Option<Seq<char>> {
    match first_array_item(json_field_raw_of(body, "choices"@)) {
        Some(choice) => match json_field_raw_of(choice, "message"@) {
            Some(m) => json_field_str_of(m, "content"@),
            None => None,
        },
        None => None,
    }
}

/// Decodes a successful completions-protocol body. The turn's content is
/// `choices[0].message.content`; a missing or non-string content is an
/// `InvalidRequest` failure; the usage block rides along when reported.
pub fn decode_openai_body(body: &str, model: &str) -> (r: Result<ChatResponse, LlmError>)
    ensures
        match json_parse_error_of(body@) {
            Some(err) => r matches Err(e) && e@ == crate::llm::LlmErrorView::Network(err),
            None => match r {
                Ok(resp) => openai_content_of(body@) == Some(resp@.content) && resp@.model
                    == model@ && resp@.usage == openai_usage_of(body@) && resp@.tool_calls
                    is None,
                Err(e) => openai_content_of(body@) is None && e@ is InvalidRequest,
            },
        },
{
    match json_parse_error(body) {
        Some(err) => {
            return Err(LlmError::Network(err));
        },
        None => {},
    }
    let choices = json_field_raw(body, "choices");
    let choice = take_first_item(choices);
    let content: String = match choice {
        Some(c) => {
            match json_field_raw(c.as_str(), "message") {
                Some(m) => {
                    match json_field_str(m.as_str(), "content") {
                        Some(text) => text,
                        None => {
                            return Err(LlmError::InvalidRequest);
                        },
                    }
                },
                None => {
                    return Err(LlmError::InvalidRequest);
                },
            }
        },
        None => {
            return Err(LlmError::InvalidRequest);
        },
    };
    let usage: Option<Usage> = match json_field_raw(body, "usage") {
        Some(u) => Some(
            Usage {
                input_tokens: read_usage_count(u.as_str(), "prompt_tokens"),
                output_tokens: read_usage_count(u.as_str(), "completion_tokens"),
            },
        ),
        None => None,
    };
    Ok(ChatResponse { content, model: model.to_owned(), usage, tool_calls: None })
}

/// The usage block of a side-channel-system vendor response body.
pub open spec fn anthropic_usage_of(body: Seq<char>) -> Option<Usage> {
    match json_field_raw_of(body, "usage"@) {
        Some(u) => Some(
            Usage {
                input_tokens: usage_count_of(u, "input_tokens"@),
                output_tokens: usage_count_of(u, "output_tokens"@),
            },
        ),
        None => None,
    }
}

/// The final content of a side-channel-system vendor response body: the
/// string at `content[0].text`, when that path holds one.
pub open spec fn anthropic_content_of(body: Seq<char>) -> Option<Seq<char>> {
    match first_array_item(json_field_raw_of(body, "content"@)) {
        Some(block) => json_field_str_of(block, "text"@),
        None => None,
    }
}

/// Decodes a successful side-channel-system vendor body. The turn's content
/// is `content[0].text`; a missing or non-string text is an
/// `InvalidRequest` failure; the usage block rides along when reported.
pub fn decode_anthropic_body(body: &str, model: &str) -> (r: Result<ChatResponse, LlmError>)
    ensures
        match json_parse_error_of(body@) {
            Some(err) => r matches Err(e) && e@ == crate::llm::LlmErrorView::Network(err),
            None => match r {
                Ok(resp) => anthropic_content_of(body@) == Some(resp@.content) && resp@.model
                    == model@ && resp@.usage == anthropic_usage_of(body@) && resp@.tool_calls
                    is None,
                Err(e) => anthropic_content_of(body@) is None && e@ is InvalidRequest,
            },
        },
{
    match json_parse_error(body) {
        Some(err) => {
            return Err(LlmError::Network(err));
        },
        None => {},
    }
    let blocks = json_field_raw(body, "content");
    let block = take_first_item(blocks);
    let content: String = match block {
        Some(b) => {
            match json_field_str(b.as_str(), "text") {
                Some(text) => text,
                None => {
                    return Err(LlmError::InvalidRequest);
                },
            }
        },
        None => {
            return Err(LlmError::InvalidRequest);
        },
    };
    let usage: Option<Usage> = match json_field_raw(body, "usage") {
        Some(u) => Some(
            Usage {
                input_tokens: read_usage_count(u.as_str(), "input_tokens"),
                output_tokens: read_usage_count(u.as_str(), "output_tokens"),
            },
        ),
        None => None,
    };
    Ok(ChatResponse { content, model: model.to_owned(), usage, tool_calls: None })
}

} // verus!

verus! {

/// Where the bracket run that opened before position `i` at depth `depth`
/// closes: one past the `]` that brings the depth back to zero, scanning
/// every bracket character regardless of context.
pub open spec fn bracket_end(s: Seq<char>, i: int, depth: int) -> Option<int>
    decreases s.len() - i,
{
    if i < 0 || i >= s.len() {
        None
    } else if s[i] == '[' {
        bracket_end(s, i + 1, depth + 1)
    } else if s[i] == ']' {
        if depth == 1 {
            Some(i + 1)
        } else {
            bracket_end(s, i + 1, depth - 1)
        }
    } else {
        bracket_end(s, i + 1, depth)
    }
}

proof fn lemma_bracket_end_bound(s: Seq<char>, i: int, depth: int)
    requires
        0 <= i,
    ensures
        match bracket_end(s, i, depth) {
            Some(e) => i < e <= s.len(),
            None => true,
        },
    decreases s.len() - i,
{
    if 0 <= i && i < s.len() {
        if s[i] == '[' {
            lemma_bracket_end_bound(s, i + 1, depth + 1);
        } else if s[i] == ']' {
            if depth != 1 {
                lemma_bracket_end_bound(s, i + 1, depth - 1);
            }
        } else {
            lemma_bracket_end_bound(s, i + 1, depth);
        }
    }
}

/// Scans `s` for the position one past the bracket that closes the first
/// bracket run, counting depth from zero.
fn find_bracket_end(s: &str) -> (r: Option<usize>)
    ensures
        match r {
            Some(e) => bracket_end(s@, 0, 0) == Some(e as int) && 0 < e <= s@.len(),
            None => bracket_end(s@, 0, 0) is None,
        },
{
    let n: usize = s.unicode_len();
    let mut i: usize = 0;
    let mut depth: i128 = 0;
    while i < n
        invariant
            0 <= i <= n,
            n == s@.len(),
            -(i as int) <= depth <= i as int,
            bracket_end(s@, 0, 0) == bracket_end(s@, i as int, depth as int),
        decreases n - i,
    {
        let c = s.get_char(i);
        if c == '[' {
            depth = depth + 1;
        } else if c == ']' {
            if depth == 1 {
                proof {
                    lemma_bracket_end_bound(s@, 0, 0);
                }
                return Some(i + 1);
            }
            depth = depth - 1;
        }
        i = i + 1;
    }
    None
}

/// One entry of a structured tool-call list, read in the wrapped
/// `{id?, type?, function: {name, arguments}}` shape: valid only when the
/// function object carries string `name` and `arguments`.
pub open spec fn structured_entry_of(entry: Seq<char>) -> Option<crate::models::ToolCallView> {
    match json_field_raw_of(entry, "function"@) {
        Some(ft) => match (json_field_str_of(ft, "name"@), json_field_str_of(ft, "arguments"@)) {
            (Some(name), Some(args)) => Some(
                crate::models::ToolCallView {
                    id: json_field_str_of(entry, "id"@),
                    kind: json_field_str_of(entry, "type"@),
                    function: crate::models::FunctionCallView { name, arguments: args },
                },
            ),
            _ => None,
        },
        None => None,
    }
}

/// A structured tool-call list: every entry must be valid, or the whole
/// list is refused.
pub open spec fn structured_calls_of(items: Seq<Seq<char>>) -> Option<
    Seq<crate::models::ToolCallView>,
>
    decreases items.len(),
{
    if items.len() == 0 {
        Some(Seq::empty())
    } else {
        match (structured_entry_of(items[0]), structured_calls_of(items.drop_first())) {
            (Some(c), Some(rest)) => Some(seq![c] + rest),
            _ => None,
        }
    }
}

proof fn lemma_structured_calls_snoc(items: Seq<Seq<char>>, x: Seq<char>)
    ensures
        structured_calls_of(items.push(x)) == (match (
            structured_calls_of(items),
            structured_entry_of(x),
        ) {
            (Some(cs), Some(c)) => Some(cs.push(c)),
            _ => None::<Seq<crate::models::ToolCallView>>,
        }),
    decreases items.len(),
{
    if items.len() == 0 {
        assert(items.push(x)[0] == x);
        assert(items.push(x).drop_first() =~= Seq::<Seq<char>>::empty());
        assert(structured_calls_of(Seq::<Seq<char>>::empty())
            == Some(Seq::<crate::models::ToolCallView>::empty()));
        match structured_entry_of(x) {
            Some(c) => {
                assert(structured_calls_of(items.push(x)) == Some(
                    seq![c] + Seq::<crate::models::ToolCallView>::empty(),
                ));
                assert(seq![c] + Seq::<crate::models::ToolCallView>::empty()
                    =~= Seq::<crate::models::ToolCallView>::empty().push(c));
                assert(structured_calls_of(items) == Some(
                    Seq::<crate::models::ToolCallView>::empty(),
                ));
            },
            None => {},
        }
    } else {
        assert(items.push(x)[0] == items[0]);
        assert(items.push(x).drop_first() =~= items.drop_first().push(x));
        lemma_structured_calls_snoc(items.drop_first(), x);
        match (structured_entry_of(items[0]), structured_calls_of(items.drop_first()),
            structured_entry_of(x)) {
            (Some(c0), Some(rest), Some(c)) => {
                assert(seq![c0] + rest.push(c) =~= (seq![c0] + rest).push(c));
            },
            _ => {},
        }
    }
}

/// Reads one structured entry.
fn parse_structured_entry(entry: &str) -> (r: Option<crate::models::ToolCall>)
    ensures
        match r {
            Some(tc) => structured_entry_of(entry@) == Some(tc@),
            None => structured_entry_of(entry@) is None,
        },
{
    match json_field_raw(entry, "function") {
        Some(ft) => {
            let name = json_field_str(ft.as_str(), "name");
            let args = json_field_str(ft.as_str(), "arguments");
            match (name, args) {
                (Some(n), Some(a)) => Some(
                    crate::models::ToolCall {
                        id: json_field_str(entry, "id"),
                        kind: json_field_str(entry, "type"),
                        function: crate::models::FunctionCall { name: n, arguments: a },
                    },
                ),
                _ => None,
            }
        },
        None => None,
    }
}

/// Reads a whole structured tool-call list, refusing it when any entry is
/// invalid.
pub(crate) fn parse_structured_calls(items: &Vec<String>) -> (r: Option<Vec<crate::models::ToolCall>>)
    ensures
        match r {
            Some(calls) => structured_calls_of(items.deep_view()) == Some(calls.deep_view()),
            None => structured_calls_of(items.deep_view()) is None,
        },
{
    let mut out: Vec<crate::models::ToolCall> = Vec::new();
    let mut i: usize = 0;
    proof {
        assert(items.deep_view().subrange(0, 0) =~= Seq::<Seq<char>>::empty());
        assert(out.deep_view() =~= Seq::<crate::models::ToolCallView>::empty());
    }
    while i < items.len()
        invariant
            0 <= i <= items@.len(),
            items.deep_view().len() == items@.len(),
            structured_calls_of(items.deep_view().subrange(0, i as int)) == Some(
                out.deep_view(),
            ),
        decreases items@.len() - i,
    {
        let ghost prefix = items.deep_view().subrange(0, i as int);
        proof {
            assert(items.deep_view().subrange(0, i as int + 1)
                =~= prefix.push(items.deep_view()[i as int]));
            lemma_structured_calls_snoc(prefix, items.deep_view()[i as int]);
        }
        match parse_structured_entry(items[i].as_str()) {
            Some(tc) => {
                let ghost old_out = out.deep_view();
                out.push(tc);
                proof {
                    assert(out.deep_view() =~= old_out.push(tc@));
                }
            },
            None => {
                proof {
                    lemma_structured_calls_prefix_none(items.deep_view(), i as int + 1);
                }
                return None;
            },
        }
        i = i + 1;
    }
    proof {
        assert(items.deep_view().subrange(0, items@.len() as int) =~= items.deep_view());
    }
    Some(out)
}

proof fn lemma_structured_calls_prefix_none(items: Seq<Seq<char>>, i: int)
    requires
        0 <= i <= items.len(),
        structured_calls_of(items.subrange(0, i)) is None,
    ensures
        structured_calls_of(items) is None,
    decreases items.len() - i,
{
    if i < items.len() {
        assert(items.subrange(0, i + 1) =~= items.subrange(0, i).push(items[i]));
        lemma_structured_calls_snoc(items.subrange(0, i), items[i]);
        lemma_structured_calls_prefix_none(items, i + 1);
    } else {
        assert(items.subrange(0, i) =~= items);
    }
}

} // verus!

verus! {

/// One entry of the structured-tool-call-absent fallback, read with high
/// flexibility: either a wrapped `{function: {name, arguments}}` shape or a
/// bare `{name, arguments}` shape; `arguments` may be a string or any JSON
/// value, which then rides along as its compact text (`null` when absent);
/// the entry counts only when a string `name` is found.
pub open spec fn fallback_entry_of(entry: Seq<char>) -> Option<crate::models::ToolCallView> {
    let func_text = match json_field_raw_of(entry, "function"@) {
        Some(ft) => ft,
        None => entry,
    };
    match json_field_str_of(func_text, "name"@) {
        Some(name) => {
            let args = match json_field_str_of(func_text, "arguments"@) {
                Some(s) => s,
                None => match json_field_raw_of(func_text, "arguments"@) {
                    Some(raw) => raw,
                    None => "null"@,
                },
            };
            Some(
                crate::models::ToolCallView {
                    id: json_field_str_of(entry, "id"@),
                    kind: Some("function"@),
                    function: crate::models::FunctionCallView { name, arguments: args },
                },
            )
        },
        None => None,
    }
}

/// The fallback invocations read from an array of entries: entries that do
/// not parse as function calls are skipped.
pub open spec fn fallback_calls_of(items: Seq<Seq<char>>) -> Seq<crate::models::ToolCallView>
    decreases items.len(),
{
    if items.len() == 0 {
        Seq::empty()
    } else {
        (match fallback_entry_of(items[0]) {
            Some(c) => seq![c],
            None => Seq::empty(),
        }) + fallback_calls_of(items.drop_first())
    }
}

proof fn lemma_fallback_calls_snoc(items: Seq<Seq<char>>, x: Seq<char>)
    ensures
        fallback_calls_of(items.push(x)) =~= fallback_calls_of(items) + (
        match fallback_entry_of(x) {
            Some(c) => seq![c],
            None => Seq::<crate::models::ToolCallView>::empty(),
        }),
    decreases items.len(),
{
    let ghost tail = match fallback_entry_of(x) {
        Some(c) => seq![c],
        None => Seq::<crate::models::ToolCallView>::empty(),
    };
    if items.len() == 0 {
        assert(items.push(x)[0] == x);
        assert(items.push(x).drop_first() =~= Seq::<Seq<char>>::empty());
        assert(fallback_calls_of(Seq::<Seq<char>>::empty())
            == Seq::<crate::models::ToolCallView>::empty());
        assert(fallback_calls_of(items.push(x)) =~= tail);
        assert(fallback_calls_of(items) + tail =~= tail);
    } else {
        let ghost head = match fallback_entry_of(items[0]) {
            Some(c) => seq![c],
            None => Seq::<crate::models::ToolCallView>::empty(),
        };
        assert(items.push(x)[0] == items[0]);
        assert(items.push(x).drop_first() =~= items.drop_first().push(x));
        lemma_fallback_calls_snoc(items.drop_first(), x);
        assert(fallback_calls_of(items.push(x)) == head + fallback_calls_of(
            items.drop_first().push(x),
        ));
        assert(head + (fallback_calls_of(items.drop_first()) + tail)
            =~= (head + fallback_calls_of(items.drop_first())) + tail);
    }
}

/// Reads one fallback entry.
fn parse_fallback_entry(entry: &str) -> (r: Option<crate::models::ToolCall>)
    ensures
        match r {
            Some(tc) => fallback_entry_of(entry@) == Some(tc@),
            None => fallback_entry_of(entry@) is None,
        },
{
    let func_text: String = match json_field_raw(entry, "function") {
        Some(ft) => ft,
        None => entry.to_owned(),
    };
    match json_field_str(func_text.as_str(), "name") {
        Some(name) => {
            let args: String = match json_field_str(func_text.as_str(), "arguments") {
                Some(s) => s,
                None => {
                    match json_field_raw(func_text.as_str(), "arguments") {
                        Some(raw) => raw,
                        None => String::from_str("null"),
                    }
                },
            };
            let id = json_field_str(entry, "id");
            Some(
                crate::models::ToolCall {
                    id,
                    kind: Some(String::from_str("function")),
                    function: crate::models::FunctionCall { name, arguments: args },
                },
            )
        },
        None => None,
    }
}

/// Reads every fallback entry that parses, in order.
fn collect_fallback_calls(items: &Vec<String>) -> (r: Vec<crate::models::ToolCall>)
    ensures
        r.deep_view() =~= fallback_calls_of(items.deep_view()),
{
    let mut out: Vec<crate::models::ToolCall> = Vec::new();
    let mut i: usize = 0;
    proof {
        assert(items.deep_view().subrange(0, 0) =~= Seq::<Seq<char>>::empty());
        assert(out.deep_view() =~= Seq::<crate::models::ToolCallView>::empty());
    }
    while i < items.len()
        invariant
            0 <= i <= items@.len(),
            items.deep_view().len() == items@.len(),
            out.deep_view() =~= fallback_calls_of(items.deep_view().subrange(0, i as int)),
        decreases items@.len() - i,
    {
        let ghost prefix = items.deep_view().subrange(0, i as int);
        proof {
            assert(items.deep_view().subrange(0, i as int + 1)
                =~= prefix.push(items.deep_view()[i as int]));
            lemma_fallback_calls_snoc(prefix, items.deep_view()[i as int]);
        }
        match parse_fallback_entry(items[i].as_str()) {
            Some(tc) => {
                let ghost old_out = out.deep_view();
                out.push(tc);
                proof {
                    assert(out.deep_view() =~= old_out.push(tc@));
                    assert(old_out + seq![tc@] =~= old_out.push(tc@));
                }
            },
            None => {
                proof {
                    assert(out.deep_view() + Seq::<crate::models::ToolCallView>::empty()
                        =~= out.deep_view());
                }
            },
        }
        i = i + 1;
    }
    proof {
        assert(items.deep_view().subrange(0, items@.len() as int) =~= items.deep_view());
    }
    out
}

/// What the fallback makes of trailing content: when the content holds a
/// `[`, its bracket-matched array literal parses, and at least one entry
/// reads as a function call, the result is the trimmed text ahead of the
/// literal and the invocation list; otherwise nothing, and the content
/// stands untouched.
pub open spec fn content_fallback_of(content: Seq<char>) -> Option<
    (Seq<char>, Seq<crate::models::ToolCallView>),
> {
    match crate::text::find_from(content, '[', 0) {
        None => None,
        Some(start) => {
            let part = content.subrange(start, content.len() as int);
            match bracket_end(part, 0, 0) {
                None => None,
                Some(end) => match json_array_items_of(part.subrange(0, end)) {
                    None => None,
                    Some(items) => {
                        let calls = fallback_calls_of(items);
                        if calls.len() > 0 {
                            Some((crate::text::trimmed(content.subrange(0, start)), calls))
                        } else {
                            None
                        }
                    },
                },
            }
        },
    }
}

/// Runs the structured-tool-call-absent fallback over trailing content.
/// This never fails: content without a readable function-call array passes
/// through unchanged.
pub fn apply_content_fallback(content: &str) -> (r: Option<
    (String, Vec<crate::models::ToolCall>),
>)
    ensures
        match r {
            Some(pair) => content_fallback_of(content@) matches Some(spec_pair)
                && spec_pair.0 == pair.0@ && spec_pair.1 == pair.1.deep_view(),
            None => content_fallback_of(content@) is None,
        },
{
    let start = match crate::text::find_char(content, '[') {
        Some(s) => {
            proof {
                crate::text::lemma_find_from_some(content@, '[', s as int, 0);
            }
            s
        },
        None => {
            proof {
                crate::text::lemma_find_from_none(content@, '[', 0);
            }
            return None;
        },
    };
    let n: usize = content.unicode_len();
    let part = content.substring_char(start, n).to_owned();
    let end = match find_bracket_end(part.as_str()) {
        Some(e) => e,
        None => {
            return None;
        },
    };
    let literal = part.as_str().substring_char(0, end).to_owned();
    let items = match json_array_items(literal.as_str()) {
        Some(items) => items,
        None => {
            return None;
        },
    };
    let calls = collect_fallback_calls(&items);
    if calls.len() > 0 {
        let prefix = content.substring_char(0, start).to_owned();
        let trimmed_prefix = crate::text::trim_str(prefix.as_str());
        Some((trimmed_prefix, calls))
    } else {
        None
    }
}

/// The raw message object of a local-inference response; a missing field
/// reads as JSON `null`, which yields no content and no structured calls.
pub open spec fn ollama_message_of(body: Seq<char>) -> Seq<char> {
    match json_field_raw_of(body, "message"@) {
        Some(m) => m,
        None => "null"@,
    }
}

/// The structured tool-call list of a local-inference response, when the
/// message carries a well-formed one.
pub open spec fn ollama_structured_calls_of(body: Seq<char>) -> Option<
    Seq<crate::models::ToolCallView>,
> {
    match json_field_raw_of(ollama_message_of(body), "tool_calls"@) {
        Some(tc) => match json_array_items_of(tc) {
            Some(items) => structured_calls_of(items),
            None => None,
        },
        None => None,
    }
}

/// The visible content of a local-inference response before any fallback.
pub open spec fn ollama_content_of(body: Seq<char>) -> Seq<char> {
    match json_field_str_of(ollama_message_of(body), "content"@) {
        Some(c) => c,
        None => Seq::empty(),
    }
}

/// The decoded local-inference response: structured calls when present and
/// non-empty; otherwise the fallback may lift an inline function-call array
/// out of the content; otherwise content and calls stand untouched.
pub open spec fn ollama_decoded(body: Seq<char>, model: Seq<char>) -> crate::models::ChatResponseView {
    let content = ollama_content_of(body);
    let structured = ollama_structured_calls_of(body);
    if (match structured {
        Some(cs) => cs.len() > 0,
        None => false,
    }) {
        crate::models::ChatResponseView { content, model, usage: None, tool_calls: structured }
    } else {
        match content_fallback_of(content) {
            Some(pair) => crate::models::ChatResponseView {
                content: pair.0,
                model,
                usage: None,
                tool_calls: Some(pair.1),
            },
            None => crate::models::ChatResponseView {
                content,
                model,
                usage: None,
                tool_calls: structured,
            },
        }
    }
}

/// Decodes a successful local-inference body. An unreadable body is a
/// `Network` failure; otherwise decoding never fails, and when no
/// structured tool calls arrive the trailing-content fallback may recover
/// an inline function-call array, truncating the visible content to the
/// text ahead of it.
pub fn decode_ollama_body(body: &str, model: &str) -> (r: Result<ChatResponse, LlmError>)
    ensures
        match json_parse_error_of(body@) {
            Some(err) => r matches Err(e) && e@ == crate::llm::LlmErrorView::Network(err),
            None => r matches Ok(resp) && resp@ == ollama_decoded(body@, model@),
        },
{
    match json_parse_error(body) {
        Some(err) => {
            return Err(LlmError::Network(err));
        },
        None => {},
    }
    let msg: String = match json_field_raw(body, "message") {
        Some(m) => m,
        None => String::from_str("null"),
    };
    let content: String = match json_field_str(msg.as_str(), "content") {
        Some(c) => c,
        None => String::new(),
    };
    let structured: Option<Vec<crate::models::ToolCall>> = match json_field_raw(
        msg.as_str(),
        "tool_calls",
    ) {
        Some(tc) => {
            match json_array_items(tc.as_str()) {
                Some(items) => parse_structured_calls(&items),
                None => None,
            }
        },
        None => None,
    };
    let has_structured = match &structured {
        Some(cs) => cs.len() > 0,
        None => false,
    };
    if has_structured {
        return Ok(
            ChatResponse {
                content,
                model: model.to_owned(),
                usage: None,
                tool_calls: structured,
            },
        );
    }
    match apply_content_fallback(content.as_str()) {
        Some(pair) => Ok(
            ChatResponse {
                content: pair.0,
                model: model.to_owned(),
                usage: None,
                tool_calls: Some(pair.1),
            },
        ),
        None => Ok(
            ChatResponse {
                content,
                model: model.to_owned(),
                usage: None,
                tool_calls: structured,
            },
        ),
    }
}

} // verus!

verus! {

/// The text delta one completions-protocol event line carries: lines that
/// are empty, the `[DONE]` sentinel, not `data: `-prefixed, or that carry
/// no string at `choices[0].delta.content` (pings, role-only deltas,
/// usage-only frames) yield nothing.
pub open spec fn openai_stream_text_of(line: Seq<char>) -> Option<Seq<char>> {
    let t = crate::text::trimmed(line);
    if t.len() == 0 || t == "data: [DONE]"@ {
        None
    } else if t.len() >= 6 && t.subrange(0, 6) == "data: "@ {
        let data = t.subrange(6, t.len() as int);
        match first_array_item(json_field_raw_of(data, "choices"@)) {
            Some(choice) => match json_field_raw_of(choice, "delta"@) {
                Some(d) => json_field_str_of(d, "content"@),
                None => None,
            },
            None => None,
        }
    } else {
        None
    }
}

/// The text delta one side-channel-system vendor event line carries: only
/// `content_block_delta` events yield their `delta.text`.
pub open spec fn anthropic_stream_text_of(line: Seq<char>) -> Option<Seq<char>> {
    let t = crate::text::trimmed(line);
    if t.len() == 0 {
        None
    } else if t.len() >= 6 && t.subrange(0, 6) == "data: "@ {
        let data = t.subrange(6, t.len() as int);
        if json_field_str_of(data, "type"@) == Some("content_block_delta"@) {
            match json_field_raw_of(data, "delta"@) {
                Some(d) => json_field_str_of(d, "text"@),
                None => None,
            }
        } else {
            None
        }
    } else {
        None
    }
}

/// The text delta one local-inference event line carries: each line is a
/// bare JSON object whose `message.content` string is forwarded.
pub open spec fn ollama_stream_text_of(line: Seq<char>) -> Option<Seq<char>> {
    if crate::text::trimmed(line).len() == 0 {
        None
    } else {
        match json_field_raw_of(line, "message"@) {
            Some(m) => json_field_str_of(m, "content"@),
            None => None,
        }
    }
}

/// The text delta one event line carries for the given vendor.
pub open spec fn stream_line_text_of(v: Vendor, line: Seq<char>) -> Option<Seq<char>> {
    match v {
        Vendor::OpenAi => openai_stream_text_of(line),
        Vendor::Anthropic => anthropic_stream_text_of(line),
        Vendor::Ollama => ollama_stream_text_of(line),
    }
}

/// Decodes one event line for the given vendor.
pub fn decode_stream_line(v: Vendor, line: &str) -> (r: Option<String>)
    ensures
        match r {
            Some(s) => stream_line_text_of(v, line@) == Some(s@),
            None => stream_line_text_of(v, line@) is None,
        },
{
    proof {
        reveal_strlit("data: ");
    }
    match v {
        Vendor::OpenAi => {
            let t = crate::text::trim_str(line);
            if t.as_str().unicode_len() == 0 {
                return None;
            }
            if crate::text::str_eq(t.as_str(), "data: [DONE]") {
                return None;
            }
            match crate::text::strip_prefix(t.as_str(), "data: ") {
                Some(data) => {
                    let choice = take_first_item(json_field_raw(data.as_str(), "choices"));
                    match choice {
                        Some(c) => {
                            match json_field_raw(c.as_str(), "delta") {
                                Some(d) => json_field_str(d.as_str(), "content"),
                                None => None,
                            }
                        },
                        None => None,
                    }
                },
                None => None,
            }
        },
        Vendor::Anthropic => {
            let t = crate::text::trim_str(line);
            if t.as_str().unicode_len() == 0 {
                return None;
            }
            match crate::text::strip_prefix(t.as_str(), "data: ") {
                Some(data) => {
                    let is_delta = match json_field_str(data.as_str(), "type") {
                        Some(kind) => crate::text::str_eq(kind.as_str(), "content_block_delta"),
                        None => false,
                    };
                    if is_delta {
                        match json_field_raw(data.as_str(), "delta") {
                            Some(d) => json_field_str(d.as_str(), "text"),
                            None => None,
                        }
                    } else {
                        None
                    }
                },
                None => None,
            }
        },
        Vendor::Ollama => {
            let t = crate::text::trim_str(line);
            if t.as_str().unicode_len() == 0 {
                return None;
            }
            match json_field_raw(line, "message") {
                Some(m) => json_field_str(m.as_str(), "content"),
                None => None,
            }
        },
    }
}

/// The text deltas a sequence of event lines carries, in order.
pub open spec fn stream_texts_of(v: Vendor, lines: Seq<Seq<char>>) -> Seq<Seq<char>>
    decreases lines.len(),
{
    if lines.len() == 0 {
        Seq::empty()
    } else {
        (match stream_line_text_of(v, lines[0]) {
            Some(t) => seq![t],
            None => Seq::empty(),
        }) + stream_texts_of(v, lines.drop_first())
    }
}

proof fn lemma_stream_texts_snoc(v: Vendor, lines: Seq<Seq<char>>, x: Seq<char>)
    ensures
        stream_texts_of(v, lines.push(x)) =~= stream_texts_of(v, lines) + (
        match stream_line_text_of(v, x) {
            Some(t) => seq![t],
            None => Seq::<Seq<char>>::empty(),
        }),
    decreases lines.len(),
{
    let ghost tail = match stream_line_text_of(v, x) {
        Some(t) => seq![t],
        None => Seq::<Seq<char>>::empty(),
    };
    if lines.len() == 0 {
        assert(lines.push(x)[0] == x);
        assert(lines.push(x).drop_first() =~= Seq::<Seq<char>>::empty());
        assert(stream_texts_of(v, Seq::<Seq<char>>::empty()) == Seq::<Seq<char>>::empty());
        assert(stream_texts_of(v, lines.push(x)) =~= tail);
        assert(stream_texts_of(v, lines) + tail =~= tail);
    } else {
        let ghost head = match stream_line_text_of(v, lines[0]) {
            Some(t) => seq![t],
            None => Seq::<Seq<char>>::empty(),
        };
        assert(lines.push(x)[0] == lines[0]);
        assert(lines.push(x).drop_first() =~= lines.drop_first().push(x));
        lemma_stream_texts_snoc(v, lines.drop_first(), x);
        assert(stream_texts_of(v, lines.push(x)) == head + stream_texts_of(
            v,
            lines.drop_first().push(x),
        ));
        assert(head + (stream_texts_of(v, lines.drop_first()) + tail)
            =~= (head + stream_texts_of(v, lines.drop_first())) + tail);
    }
}

/// Decodes one network chunk: splits it into event lines and forwards only
/// the textual deltas, in order, silently dropping everything else.
pub fn extract_stream_texts(v: Vendor, chunk: &str) -> (r: Vec<String>)
    ensures
        r.deep_view() =~= stream_texts_of(v, crate::text::lines_of(chunk@)),
{
    let lines = crate::text::split_lines(chunk);
    let mut out: Vec<String> = Vec::new();
    let mut i: usize = 0;
    proof {
        assert(lines.deep_view().subrange(0, 0) =~= Seq::<Seq<char>>::empty());
        assert(out.deep_view() =~= Seq::<Seq<char>>::empty());
    }
    while i < lines.len()
        invariant
            0 <= i <= lines@.len(),
            lines.deep_view().len() == lines@.len(),
            lines.deep_view() =~= stream_lines_ghost(v, chunk@),
            out.deep_view() =~= stream_texts_of(v, lines.deep_view().subrange(0, i as int)),
        decreases lines@.len() - i,
    {
        let ghost prefix = lines.deep_view().subrange(0, i as int);
        proof {
            assert(lines.deep_view().subrange(0, i as int + 1)
                =~= prefix.push(lines.deep_view()[i as int]));
            lemma_stream_texts_snoc(v, prefix, lines.deep_view()[i as int]);
        }
        match decode_stream_line(v, lines[i].as_str()) {
            Some(t) => {
                let ghost old_out = out.deep_view();
                out.push(t);
                proof {
                    assert(out.deep_view() =~= old_out.push(t@));
                    assert(old_out + seq![t@] =~= old_out.push(t@));
                }
            },
            None => {
                proof {
                    assert(out.deep_view() + Seq::<Seq<char>>::empty() =~= out.deep_view());
                }
            },
        }
        i = i + 1;
    }
    proof {
        assert(lines.deep_view().subrange(0, lines@.len() as int) =~= lines.deep_view());
    }
    out
}

/// The lines a chunk splits into; a ghost alias keeping the loop invariant
/// tied to the chunk text.
pub open spec fn stream_lines_ghost(v: Vendor, chunk: Seq<char>) -> Seq<Seq<char>> {
    crate::text::lines_of(chunk)
}

} // verus!
