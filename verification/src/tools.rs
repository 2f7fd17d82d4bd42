//! The tool registry: the definitions offered to providers, name dispatch,
//! and the diagnostic text an unknown name yields. Running a known tool
//! does outside work and happens beyond this crate; the registry's dispatch
//! and its never-failing unknown-name answer are specified here.

use vstd::prelude::*;
use crate::jsonio::{json_field_str, json_field_str_of};
use crate::models::{FunctionDefinition, FunctionDefinitionView, ToolDefinition,
    ToolDefinitionView};
use crate::text::push_str;

verus! {

/// The view of the web-search tool's definition.
pub open spec fn search_tool_definition_view() -> ToolDefinitionView {
    ToolDefinitionView {
        kind: "function"@,
        function: FunctionDefinitionView {
            name: "internet_search"@,
            description: "Search the internet for real-time information or specific topics."@,
            parameters: search_tool_schema_text(),
        },
    }
}

/// The web-search tool's parameter schema, as JSON text.
pub open spec fn search_tool_schema_text() -> Seq<char> {
    "{\"type\":\"object\",\"properties\":{\"query\":{\"type\":\"string\",\"description\":\"The search query to look up on the web.\"}},\"required\":[\"query\"]}"@
}

/// The web-search tool. Its network side lives beyond this crate; here live
/// its offered definition and its argument reading.
pub struct SearchTool {}

impl SearchTool {
    /// A fresh handle on the search tool.
    pub fn new() -> (r: SearchTool) {
        SearchTool {  }
    }

    /// The definition offered to providers.
    pub fn definition(&self) -> (d: ToolDefinition)
        ensures
            d@ == search_tool_definition_view(),
    {
        ToolDefinition {
            kind: String::from_str("function"),
            function: FunctionDefinition {
                name: String::from_str("internet_search"),
                description: String::from_str(
                    "Search the internet for real-time information or specific topics.",
                ),
                parameters: String::from_str(
                    "{\"type\":\"object\",\"properties\":{\"query\":{\"type\":\"string\",\"description\":\"The search query to look up on the web.\"}},\"required\":[\"query\"]}",
                ),
            },
        }
    }

    /// Reads the query out of the tool's raw argument text; the arguments
    /// must be a JSON object holding a string `query`.
    pub fn parse_arguments(arguments: &str) -> (r: Option<String>)
        ensures
            match r {
                Some(q) => json_field_str_of(arguments@, "query"@) == Some(q@),
                None => json_field_str_of(arguments@, "query"@) is None,
            },
    {
        json_field_str(arguments, "query")
    }
}

/// The diagnostic text invoking an unknown tool name yields. It is a
/// function of the name alone: the dispatch never fails, whatever the
/// arguments.
pub open spec fn unknown_tool_text_of(name: Seq<char>) -> Seq<char> {
    "Error: Tool '"@ + name + "' not found"@
}

/// True iff some registered definition carries the name.
pub open spec fn defs_have_tool(defs: Seq<ToolDefinitionView>, name: Seq<char>) -> bool {
    exists|i: int| 0 <= i < defs.len() && defs[i].function.name == name
}

/// Holds the definitions of every tool a provider may invoke.
pub struct ToolRegistry {
    pub tools: Vec<ToolDefinition>,
}

impl ToolRegistry {
    /// The default registry: the web-search tool alone.
    pub fn new() -> (r: ToolRegistry)
        ensures
            r.tools.deep_view() =~= seq![search_tool_definition_view()],
    {
        let search = SearchTool::new();
        let mut tools: Vec<ToolDefinition> = Vec::new();
        tools.push(search.definition());
        ToolRegistry { tools }
    }

    /// A registry offering no tools at all: every invocation then takes the
    /// unknown-name path.
    pub fn new_empty() -> (r: ToolRegistry)
        ensures
            r.tools.deep_view() =~= Seq::<ToolDefinitionView>::empty(),
    {
        ToolRegistry { tools: Vec::new() }
    }

    /// The definitions offered to a provider, in registration order.
    pub fn get_definitions(&self) -> (r: Vec<ToolDefinition>)
        ensures
            r.deep_view() =~= self.tools.deep_view(),
    {
        crate::models::clone_tool_definitions(&self.tools)
    }

    /// True iff a tool with this name is registered.
    pub fn has_tool(&self, name: &str) -> (b: bool)
        ensures
            b == defs_have_tool(self.tools.deep_view(), name@),
    {
        let mut i: usize = 0;
        while i < self.tools.len()
            invariant
                0 <= i <= self.tools@.len(),
                self.tools.deep_view().len() == self.tools@.len(),
                forall|k: int|
                    0 <= k < i ==> self.tools.deep_view()[k].function.name != name@,
            decreases self.tools@.len() - i,
        {
            if crate::text::str_eq(self.tools[i].function.name.as_str(), name) {
                proof {
                    assert(self.tools.deep_view()[i as int].function.name == name@);
                }
                return true;
            }
            i = i + 1;
        }
        false
    }

    /// The text an unknown tool name yields in place of a result. It never
    /// fails and reads nothing but the name.
    pub fn unknown_tool_text(name: &str) -> (r: String)
        ensures
            r@ == unknown_tool_text_of(name@),
    {
        let mut out = String::from_str("Error: Tool '");
        push_str(&mut out, name);
        push_str(&mut out, "' not found");
        out
    }
}

/// Law: invoking an unknown tool name is idempotent. Any two dispatches of
/// the same unknown name — the arguments play no part — yield the same
/// diagnostic text, and the dispatch is total: it never fails.
pub proof fn lemma_unknown_tool_idempotent(
    name: Seq<char>,
    args_first: Seq<char>,
    args_second: Seq<char>,
    first: Seq<char>,
    second: Seq<char>,
)
    requires
        args_first == args_second,
        first == unknown_tool_text_of(name),
        second == unknown_tool_text_of(name),
    ensures
        first == second,
{
}

} // verus!
