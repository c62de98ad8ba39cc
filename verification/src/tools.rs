//! The tool layer: the registry of tools the agent may call, the
//! definitions handed to the chat model, and the JSON envelope in which a
//! tool call's result goes back to the model.
use crate::json::{json_string_literal, quote_json_string};
use vstd::prelude::*;
use vstd::string::StringExecFns;

verus! {

/// A tool as the chat model sees it.
#[derive(Debug)]
pub struct ToolDefinition {
    pub name: String,
    pub description: String,
    /// JSON schema of the tool's input, as JSON text.
    pub input_schema: String,
}

/// A registered tool: its name, its description, and the JSON schemas of
/// its input and output, as JSON text.
#[derive(Debug)]
pub struct RegisteredTool {
    pub name: String,
    pub description: String,
    pub input_schema: String,
    pub output_schema: String,
}

/// Why a tool call failed.
#[derive(Clone, Copy, Debug, PartialEq, Eq, Structural)]
pub enum ToolErrorCode {
    /// The arguments do not fit the tool's input.
    InvalidArguments,
    /// The tool ran and failed.
    ToolExecutionFailed,
    /// No tool of that name is registered.
    UnknownTool,
}

/// The code's text in the result envelope.
pub open spec fn code_text(code: ToolErrorCode) -> Seq<char> {
    match code {
        ToolErrorCode::InvalidArguments => "invalid_arguments"@,
        ToolErrorCode::ToolExecutionFailed => "tool_execution_failed"@,
        ToolErrorCode::UnknownTool => "unknown_tool"@,
    }
}

impl ToolErrorCode {
    /// The code's text in the result envelope.
    pub fn as_str(&self) -> (r: &'static str)
        ensures
            r@ == code_text(*self),
    {
        match self {
            ToolErrorCode::InvalidArguments => "invalid_arguments",
            ToolErrorCode::ToolExecutionFailed => "tool_execution_failed",
            ToolErrorCode::UnknownTool => "unknown_tool",
        }
    }
}

/// How a tool call ended.
#[derive(Debug)]
pub enum ToolOutcome {
    /// The tool's output, as JSON text.
    Data(String),
    /// The call failed.
    Error { code: ToolErrorCode, message: String },
}

/// The JSON envelope of a tool's output, as the chat model receives it:
/// `{"data":<output>,"ok":true}`.
pub open spec fn spec_data_result(data: Seq<char>) -> Seq<char> {
    "{\"data\":"@ + data + ",\"ok\":true}"@
}

/// The JSON envelope of a failed tool call, as the chat model receives it:
/// `{"error":{"code":<code>,"message":<message>},"ok":false}`.
pub open spec fn spec_error_result(code: ToolErrorCode, message: Seq<char>) -> Seq<char> {
    "{\"error\":{\"code\":\""@ + code_text(code) + "\",\"message\":"@ + json_string_literal(
        message,
    ) + "},\"ok\":false}"@
}

/// The JSON envelope of a tool call's outcome.
pub open spec fn spec_tool_result(outcome: ToolOutcome) -> Seq<char> {
    match outcome {
        ToolOutcome::Data(data) => spec_data_result(data@),
        ToolOutcome::Error { code, message } => spec_error_result(code, message@),
    }
}

/// The JSON envelope of a tool call's outcome.
pub fn tool_result(outcome: ToolOutcome) -> (r: String)
    ensures
        r@ == spec_tool_result(outcome),
        outcome matches ToolOutcome::Data(d) ==> r@ == "{\"data\":"@ + d@ + ",\"ok\":true}"@,
        outcome matches ToolOutcome::Error { code, message } ==> r@ == "{\"error\":{\"code\":\""@
            + code_text(code) + "\",\"message\":"@ + json_string_literal(message@)
            + "},\"ok\":false}"@,
{
    let mut out = String::new();
    match outcome {
        ToolOutcome::Data(data) => {
            out.append("{\"data\":");
            out.append(data.as_str());
            out.append(",\"ok\":true}");
        },
        ToolOutcome::Error { code, message } => {
            out.append("{\"error\":{\"code\":\"");
            out.append(code.as_str());
            out.append("\",\"message\":");
            let quoted = quote_json_string(message.as_str());
            out.append(quoted.as_str());
            out.append("},\"ok\":false}");
        },
    }
    out
}

/// The envelope of a tool call's outcome says `"ok":true` exactly for an
/// output: it ends with `,"ok":true}` for an output, and with
/// `,"ok":false}` for a failure, whose code is one of the three codes and
/// whose message is a JSON string literal.
pub proof fn lemma_envelope_kind(outcome: ToolOutcome)
    ensures
        ({
            let text = spec_tool_result(outcome);
            let ok_end = ",\"ok\":true}"@;
            (text.len() >= ok_end.len() && text.subrange(text.len() - ok_end.len(), text.len() as int)
                == ok_end) <==> outcome is Data
        }),
        outcome matches ToolOutcome::Error { code, message } ==> {
            &&& code_text(code) == "invalid_arguments"@ || code_text(code)
                == "tool_execution_failed"@ || code_text(code) == "unknown_tool"@
            &&& json_string_literal(message@)[0] == '"'
            &&& json_string_literal(message@).last() == '"'
        },
{
    reveal_strlit(",\"ok\":true}");
    reveal_strlit("},\"ok\":false}");
    let text = spec_tool_result(outcome);
    let ok_end = ",\"ok\":true}"@;
    match outcome {
        ToolOutcome::Data(data) => {
            assert(text.subrange(text.len() - ok_end.len(), text.len() as int) =~= ok_end);
        },
        ToolOutcome::Error { code, message } => {
            let fail_end = "},\"ok\":false}"@;
            let head = "{\"error\":{\"code\":\""@ + code_text(code) + "\",\"message\":"@
                + json_string_literal(message@);
            assert(text =~= head + fail_end);
            if text.len() >= ok_end.len() {
                assert(text[text.len() - ok_end.len()] == fail_end[2]);
                assert(text.subrange(text.len() - ok_end.len(), text.len() as int)[0] == '"');
            }
        },
    }
}

/// The envelope of a tool's output holds the output verbatim: after the
/// eight characters of `{"data":` and before the eleven of `,"ok":true}`
/// stands the output text, whatever its length; so two outputs give the
/// same envelope only if they are the same text.
pub proof fn lemma_data_envelope_keeps_output(d: String, e: String)
    ensures
        spec_tool_result(ToolOutcome::Data(d)).len() == d@.len() + 19,
        spec_tool_result(ToolOutcome::Data(d)).subrange(8, d@.len() as int + 8) == d@,
        spec_tool_result(ToolOutcome::Data(d)) == spec_tool_result(ToolOutcome::Data(e)) ==> d@
            == e@,
{
    reveal_strlit("{\"data\":");
    reveal_strlit(",\"ok\":true}");
    let t = spec_tool_result(ToolOutcome::Data(d));
    assert(t.subrange(8, d@.len() as int + 8) =~= d@);
    let u = spec_tool_result(ToolOutcome::Data(e));
    if t == u {
        assert(u.subrange(8, e@.len() as int + 8) =~= e@);
    }
}

/// The message of an unknown-tool failure.
pub open spec fn unknown_tool_message(name: Seq<char>) -> Seq<char> {
    "Unknown tool: "@ + name
}

/// What a call of a tool with the given name comes to.
#[derive(Debug)]
pub enum ToolDispatch {
    /// Run the registered tool at this index.
    Run(usize),
    /// No such tool: answer the call with this result.
    Respond(String),
}

/// The definitions of the registered tools, keyed by name: one tool per
/// name, in the order the names were first registered.
#[derive(Debug)]
pub struct ToolRegistry {
    tools: Vec<RegisteredTool>,
}

/// No two tools share a name.
pub open spec fn names_distinct(tools: Seq<RegisteredTool>) -> bool {
    forall|i: int, j: int|
        0 <= i < tools.len() && 0 <= j < tools.len() && i != j ==> #[trigger] tools[i].name@
            != #[trigger] tools[j].name@
}

/// Index of the tool with this name, if one is registered.
pub open spec fn spec_find(tools: Seq<RegisteredTool>, name: Seq<char>) -> Option<int> {
    if exists|i: int| 0 <= i < tools.len() && #[trigger] tools[i].name@ == name {
        Some(choose|i: int| 0 <= i < tools.len() && #[trigger] tools[i].name@ == name)
    } else {
        None
    }
}

/// The compact JSON object describing a tool, with its keys in order:
/// `description`, `input_schema`, `name`, `output_schema`.
pub open spec fn spec_definition_json(tool: RegisteredTool) -> Seq<char> {
    "{\"description\":"@ + json_string_literal(tool.description@) + ",\"input_schema\":"@
        + tool.input_schema@ + ",\"name\":"@ + json_string_literal(tool.name@)
        + ",\"output_schema\":"@ + tool.output_schema@ + "}"@
}

/// The tools after registering `tool`: it replaces the tool registered
/// under its name, or else comes last.
pub open spec fn spec_register(tools: Seq<RegisteredTool>, tool: RegisteredTool) -> Seq<RegisteredTool> {
    match spec_find(tools, tool.name@) {
        Some(j) => tools.update(j, tool),
        None => tools.push(tool),
    }
}

/// The tool registered under `name`.
pub open spec fn spec_lookup(tools: Seq<RegisteredTool>, name: Seq<char>) -> Option<RegisteredTool> {
    match spec_find(tools, name) {
        Some(k) => Some(tools[k]),
        None => None,
    }
}

/// With distinct names, the tool found under a name is the one that has it.
pub proof fn lemma_find_unique(tools: Seq<RegisteredTool>, name: Seq<char>, k: int)
    requires
        names_distinct(tools),
        0 <= k < tools.len(),
        tools[k].name@ == name,
    ensures
        spec_find(tools, name) == Some(k),
{
    let j = choose|i: int| 0 <= i < tools.len() && #[trigger] tools[i].name@ == name;
    if j != k {
        assert(tools[j].name@ != tools[k].name@);
    }
}

/// Registering keeps every name registered once.
pub proof fn lemma_register_keeps_names_distinct(tools: Seq<RegisteredTool>, tool: RegisteredTool)
    requires
        names_distinct(tools),
    ensures
        names_distinct(spec_register(tools, tool)),
{
    let after = spec_register(tools, tool);
    match spec_find(tools, tool.name@) {
        Some(j) => {
            assert forall|a: int, b: int|
                0 <= a < after.len() && 0 <= b < after.len() && a != b implies #[trigger] after[a].name@
                != #[trigger] after[b].name@ by {
                if a != j && b != j {
                    assert(after[a] == tools[a] && after[b] == tools[b]);
                } else if a == j {
                    assert(after[b] == tools[b]);
                    assert(tools[j].name@ == tool.name@);
                } else {
                    assert(after[a] == tools[a]);
                    assert(tools[j].name@ == tool.name@);
                }
            }
        },
        None => {
            assert forall|a: int, b: int|
                0 <= a < after.len() && 0 <= b < after.len() && a != b implies #[trigger] after[a].name@
                != #[trigger] after[b].name@ by {
                if a < tools.len() && b < tools.len() {
                    assert(after[a] == tools[a] && after[b] == tools[b]);
                } else if a == tools.len() {
                    assert(after[b] == tools[b]);
                    assert(!(0 <= b < tools.len() && tools[b].name@ == tool.name@));
                } else {
                    assert(after[a] == tools[a]);
                    assert(!(0 <= a < tools.len() && tools[a].name@ == tool.name@));
                }
            }
        },
    }
}

/// A registered tool is found under its name.
pub proof fn lemma_register_then_lookup(tools: Seq<RegisteredTool>, tool: RegisteredTool)
    requires
        names_distinct(tools),
    ensures
        spec_lookup(spec_register(tools, tool), tool.name@) == Some(tool),
{
    lemma_register_keeps_names_distinct(tools, tool);
    let after = spec_register(tools, tool);
    match spec_find(tools, tool.name@) {
        Some(j) => {
            lemma_find_unique(after, tool.name@, j);
        },
        None => {
            lemma_find_unique(after, tool.name@, tools.len() as int);
        },
    }
}

/// Registering a tool leaves what every other name finds as it was.
pub proof fn lemma_register_keeps_other_tools(
    tools: Seq<RegisteredTool>,
    tool: RegisteredTool,
    name: Seq<char>,
)
    requires
        names_distinct(tools),
        name != tool.name@,
    ensures
        spec_lookup(spec_register(tools, tool), name) == spec_lookup(tools, name),
{
    lemma_register_keeps_names_distinct(tools, tool);
    let after = spec_register(tools, tool);
    match spec_find(tools, name) {
        Some(k) => {
            assert(tools[k].name@ == name);
            assert(after[k] == tools[k]);
            lemma_find_unique(after, name, k);
        },
        None => {
            if spec_find(after, name) is Some {
                let k = choose|i: int| 0 <= i < after.len() && #[trigger] after[i].name@ == name;
                assert(after[k] == tools[k]);
                assert(false);
            }
        },
    }
}

impl ToolRegistry {
    /// The registered tools.
    pub closed spec fn tools_spec(&self) -> Seq<RegisteredTool> {
        self.tools@
    }

    /// Every name is registered once.
    pub closed spec fn wf(&self) -> bool {
        names_distinct(self.tools@)
    }

    /// An empty registry.
    pub fn new() -> (r: ToolRegistry)
        ensures
            r.wf(),
            r.tools_spec() == Seq::<RegisteredTool>::empty(),
    {
        ToolRegistry { tools: Vec::new() }
    }

    /// How many tools are registered.
    pub fn len(&self) -> (n: usize)
        ensures
            n == self.tools_spec().len(),
    {
        self.tools.len()
    }

    /// Index of the tool with this name, if one is registered.
    pub fn find(&self, name: &str) -> (r: Option<usize>)
        requires
            self.wf(),
        ensures
            r matches Some(k) ==> k < self.tools_spec().len() && self.tools_spec()[k as int].name@
                == name@,
            r is None <==> spec_find(self.tools_spec(), name@) is None,
            r matches Some(k) ==> spec_find(self.tools_spec(), name@) == Some(k as int),
    {
        let target = <String as StringExecFns>::from_str(name);
        let mut i: usize = 0;
        while i < self.tools.len()
            invariant
                target@ == name@,
                self.wf(),
                i <= self.tools@.len(),
                forall|j: int| 0 <= j < i ==> #[trigger] self.tools@[j].name@ != name@,
            decreases self.tools@.len() - i,
        {
            if self.tools[i].name == target {
                proof {
                    let k = choose|k: int|
                        0 <= k < self.tools@.len() && #[trigger] self.tools@[k].name@ == name@;
                    if k != i {
                        assert(self.tools@[k].name@ != self.tools@[i as int].name@);
                    }
                }
                return Some(i);
            }
            i = i + 1;
        }
        None
    }

    /// Registers a tool under its name, replacing a tool registered under
    /// the same name. Gives the tool's index.
    pub fn register(&mut self, tool: RegisteredTool) -> (k: usize)
        requires
            old(self).wf(),
        ensures
            final(self).wf(),
            final(self).tools_spec() == spec_register(old(self).tools_spec(), tool),
            match spec_find(old(self).tools_spec(), tool.name@) {
                Some(j) => k == j && final(self).tools_spec() == old(self).tools_spec().update(
                    j,
                    tool,
                ),
                None => k == old(self).tools_spec().len() && final(self).tools_spec() == old(
                    self,
                ).tools_spec().push(tool),
            },
    {
        match self.find(tool.name.as_str()) {
            Some(j) => {
                let ghost before = self.tools@;
                self.tools.set(j, tool);
                proof {
                    assert forall|a: int, b: int|
                        0 <= a < self.tools@.len() && 0 <= b < self.tools@.len() && a != b
                            implies #[trigger] self.tools@[a].name@ != #[trigger] self.tools@[b].name@ by {
                        if a != j as int && b != j as int {
                            assert(before[a] == self.tools@[a]);
                            assert(before[b] == self.tools@[b]);
                        } else if a == j as int {
                            assert(self.tools@[b] == before[b]);
                        } else {
                            assert(self.tools@[a] == before[a]);
                        }
                    }
                }
                j
            },
            None => {
                let ghost before = self.tools@;
                let k = self.tools.len();
                self.tools.push(tool);
                proof {
                    assert forall|a: int, b: int|
                        0 <= a < self.tools@.len() && 0 <= b < self.tools@.len() && a != b
                            implies #[trigger] self.tools@[a].name@ != #[trigger] self.tools@[b].name@ by {
                        if a < k && b < k {
                            assert(before[a] == self.tools@[a]);
                            assert(before[b] == self.tools@[b]);
                        } else if a == k {
                            assert(self.tools@[b] == before[b]);
                            assert(!(0 <= b < before.len() && before[b].name@ == self.tools@[a].name@));
                        } else {
                            assert(self.tools@[a] == before[a]);
                            assert(!(0 <= a < before.len() && before[a].name@ == self.tools@[b].name@));
                        }
                    }
                }
                k
            },
        }
    }

    /// The definitions handed to the chat model: each tool's name,
    /// description and input schema, in registry order.
    pub fn llm_definitions(&self) -> (r: Vec<ToolDefinition>)
        ensures
            r@.len() == self.tools_spec().len(),
            forall|i: int|
                0 <= i < r@.len() ==> {
                    &&& (#[trigger] r@[i]).name@ == self.tools_spec()[i].name@
                    &&& r@[i].description@ == self.tools_spec()[i].description@
                    &&& r@[i].input_schema@ == self.tools_spec()[i].input_schema@
                },
    {
        let mut r: Vec<ToolDefinition> = Vec::new();
        let mut i: usize = 0;
        while i < self.tools.len()
            invariant
                i <= self.tools@.len(),
                r@.len() == i,
                forall|j: int|
                    0 <= j < i ==> {
                        &&& (#[trigger] r@[j]).name@ == self.tools@[j].name@
                        &&& r@[j].description@ == self.tools@[j].description@
                        &&& r@[j].input_schema@ == self.tools@[j].input_schema@
                    },
            decreases self.tools@.len() - i,
        {
            let tool = &self.tools[i];
            r.push(
                ToolDefinition {
                    name: tool.name.clone(),
                    description: tool.description.clone(),
                    input_schema: tool.input_schema.clone(),
                },
            );
            i = i + 1;
        }
        r
    }

    /// A JSON description of each tool, with its name, description and
    /// input and output schemas, in registry order.
    pub fn definitions_json(&self) -> (r: Vec<String>)
        ensures
            r@.len() == self.tools_spec().len(),
            forall|i: int|
                0 <= i < r@.len() ==> (#[trigger] r@[i])@ == spec_definition_json(
                    self.tools_spec()[i],
                ),
            forall|i: int|
                0 <= i < r@.len() ==> (#[trigger] r@[i])@ == "{\"description\":"@
                    + json_string_literal(self.tools_spec()[i].description@) + ",\"input_schema\":"@
                    + self.tools_spec()[i].input_schema@ + ",\"name\":"@ + json_string_literal(
                    self.tools_spec()[i].name@,
                ) + ",\"output_schema\":"@ + self.tools_spec()[i].output_schema@ + "}"@,
    {
        let mut r: Vec<String> = Vec::new();
        let mut i: usize = 0;
        while i < self.tools.len()
            invariant
                i <= self.tools@.len(),
                r@.len() == i,
                forall|j: int|
                    0 <= j < i ==> (#[trigger] r@[j])@ == spec_definition_json(self.tools@[j]),
            decreases self.tools@.len() - i,
        {
            let tool = &self.tools[i];
            let mut text = String::new();
            text.append("{\"description\":");
            let description = quote_json_string(tool.description.as_str());
            text.append(description.as_str());
            text.append(",\"input_schema\":");
            text.append(tool.input_schema.as_str());
            text.append(",\"name\":");
            let name = quote_json_string(tool.name.as_str());
            text.append(name.as_str());
            text.append(",\"output_schema\":");
            text.append(tool.output_schema.as_str());
            text.append("}");
            r.push(text);
            i = i + 1;
        }
        r
    }

    /// What a call of the named tool comes to: the registered tool to run,
    /// or, for an unknown name, the result that answers the call.
    pub fn call(&self, name: &str) -> (r: ToolDispatch)
        requires
            self.wf(),
        ensures
            match spec_find(self.tools_spec(), name@) {
                Some(k) => r == ToolDispatch::Run(k as usize),
                None => r matches ToolDispatch::Respond(text) && text@ == spec_error_result(
                    ToolErrorCode::UnknownTool,
                    unknown_tool_message(name@),
                ) && text@ == "{\"error\":{\"code\":\""@ + "unknown_tool"@ + "\",\"message\":"@
                    + json_string_literal("Unknown tool: "@ + name@) + "},\"ok\":false}"@,
            },
    {
        match self.find(name) {
            Some(k) => ToolDispatch::Run(k),
            None => {
                let mut message = String::new();
                message.append("Unknown tool: ");
                message.append(name);
                ToolDispatch::Respond(
                    tool_result(ToolOutcome::Error { code: ToolErrorCode::UnknownTool, message }),
                )
            },
        }
    }
}

} // verus!
