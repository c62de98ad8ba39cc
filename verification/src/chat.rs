//! The OpenAI-compatible chat-completions protocol: the request the agent
//! sends, and how the reply becomes the model's turn.
use crate::agent::{AgentMessage, AgentTurn, ToolCall};
use crate::http::{is_success_status, spec_is_success};
use crate::json::{is_blank, json_normalized, normalize_json, spec_is_blank};
use crate::tools::ToolDefinition;
use vstd::prelude::*;
use vstd::string::StringExecFns;

verus! {

/// Chat-completions endpoint of OpenAI.
pub const OPENAI_CHAT_COMPLETIONS_URL: &'static str = "https://api.openai.com/v1/chat/completions";

/// Chat-completions endpoint of OpenRouter.
pub const OPENROUTER_CHAT_COMPLETIONS_URL: &'static str = "https://openrouter.ai/api/v1/chat/completions";

/// Model asked for when none is configured.
pub const DEFAULT_MODEL: &'static str = "meta-llama/llama-3.1-8b-instruct:free";

/// An OpenAI-compatible chat-completions service: where to send requests,
/// with which key, for which model.
#[derive(Debug)]
pub struct OpenAiCompatibleChatProvider {
    pub api_key: String,
    pub model: String,
    pub chat_completions_url: String,
}

/// The kind of a tool on the wire: always a function.
#[derive(Clone, Copy, Debug, PartialEq, Eq, Structural)]
pub enum ToolType {
    Function,
}

/// A function the model may call, on the wire.
#[derive(Debug)]
pub struct FunctionDefinition {
    pub name: String,
    pub description: String,
    /// JSON schema of the function's parameters, as JSON text.
    pub parameters: String,
}

/// A tool definition on the wire.
#[derive(Debug)]
pub struct ToolDefinitionWire {
    pub kind: ToolType,
    pub function: FunctionDefinition,
}

/// A function call the assistant made, on the wire.
#[derive(Debug)]
pub struct AssistantFunctionCall {
    pub name: String,
    /// The call's arguments, as JSON text.
    pub arguments: String,
}

/// A tool call the assistant made, on the wire.
#[derive(Debug)]
pub struct AssistantToolCall {
    pub id: String,
    pub kind: ToolType,
    pub function: AssistantFunctionCall,
}

/// A conversation message on the wire.
#[derive(Debug)]
pub enum Message {
    System { content: String },
    User { content: String },
    Assistant { content: Option<String>, tool_calls: Vec<AssistantToolCall> },
    Tool { tool_call_id: String, content: String },
}

/// A chat-completions request.
#[derive(Debug)]
pub struct ChatRequest {
    pub model: String,
    pub messages: Vec<Message>,
    pub tools: Vec<ToolDefinitionWire>,
    pub tool_choice: &'static str,
}

/// A function call in the reply.
#[derive(Debug)]
pub struct ResponseFunctionCall {
    pub name: String,
    pub arguments: String,
}

/// A tool call in the reply.
#[derive(Debug)]
pub struct ResponseToolCall {
    pub id: String,
    pub function: ResponseFunctionCall,
}

/// The message of a reply's choice.
#[derive(Debug)]
pub struct ResponseMessage {
    pub content: Option<String>,
    pub tool_calls: Option<Vec<ResponseToolCall>>,
}

/// One choice of a reply.
#[derive(Debug)]
pub struct Choice {
    pub message: ResponseMessage,
}

/// A chat-completions reply.
#[derive(Debug)]
pub struct ChatResponse {
    pub choices: Vec<Choice>,
}

/// Why a chat-completions exchange gave no turn.
#[derive(Debug)]
pub enum ChatError {
    /// The service answered with a status that is not a success.
    Status { status: u16, body: String },
    /// The reply holds no choice.
    NoChoices,
    /// The arguments of a tool call are not JSON.
    InvalidToolArguments(serde_json::Error),
}

// ---------------------------------------------------------------------------
// The request
// ---------------------------------------------------------------------------

/// `out` is the wire form of the tool call `call`.
pub open spec fn assistant_tool_call_of(out: AssistantToolCall, call: ToolCall) -> bool {
    &&& out.id@ == call.id@
    &&& out.kind == ToolType::Function
    &&& out.function.name@ == call.name@
    &&& out.function.arguments@ == call.arguments@
}

/// `out` is the wire form of the conversation message `m`.
pub open spec fn wire_message_of(out: Message, m: AgentMessage) -> bool {
    match m {
        AgentMessage::System(content) => out matches Message::System { content: c } && c@
            == content@,
        AgentMessage::User(content) => out matches Message::User { content: c } && c@
            == content@,
        AgentMessage::Assistant { content, tool_calls } => out matches Message::Assistant {
            content: c,
            tool_calls: calls,
        } && c == content && calls@.len() == tool_calls@.len() && forall|i: int|
            0 <= i < calls@.len() ==> assistant_tool_call_of(
                #[trigger] calls@[i],
                tool_calls@[i],
            ),
        AgentMessage::Tool { tool_call_id, content } => out matches Message::Tool {
            tool_call_id: id,
            content: c,
        } && id@ == tool_call_id@ && c@ == content@,
    }
}

/// `out` is the wire form of the tool definition `d`.
pub open spec fn wire_tool_of(out: ToolDefinitionWire, d: ToolDefinition) -> bool {
    &&& out.kind == ToolType::Function
    &&& out.function.name@ == d.name@
    &&& out.function.description@ == d.description@
    &&& out.function.parameters@ == d.input_schema@
}

/// The text of an optional message content; none stays none.
pub open spec fn opt_text(o: Option<String>) -> Option<Seq<char>> {
    match o {
        Some(t) => Some(t@),
        None => None,
    }
}

/// `a` and `b` are the same conversation message: the same kind, with the
/// same texts, and for an assistant message the same calls in the same
/// order.
pub open spec fn same_message(a: AgentMessage, b: AgentMessage) -> bool {
    match (a, b) {
        (AgentMessage::System(x), AgentMessage::System(y)) => x@ == y@,
        (AgentMessage::User(x), AgentMessage::User(y)) => x@ == y@,
        (
            AgentMessage::Assistant { content: c1, tool_calls: t1 },
            AgentMessage::Assistant { content: c2, tool_calls: t2 },
        ) => {
            &&& opt_text(c1) == opt_text(c2)
            &&& t1@.len() == t2@.len()
            &&& forall|i: int|
                0 <= i < t1@.len() ==> {
                    &&& (#[trigger] t1@[i]).id@ == t2@[i].id@
                    &&& t1@[i].name@ == t2@[i].name@
                    &&& t1@[i].arguments@ == t2@[i].arguments@
                }
        },
        (
            AgentMessage::Tool { tool_call_id: i1, content: c1 },
            AgentMessage::Tool { tool_call_id: i2, content: c2 },
        ) => i1@ == i2@ && c1@ == c2@,
        _ => false,
    }
}

/// The wire form loses nothing of a conversation message, however long its
/// texts: two messages with the same wire form are the same message.
pub proof fn lemma_wire_form_is_faithful(out: Message, a: AgentMessage, b: AgentMessage)
    requires
        wire_message_of(out, a),
        wire_message_of(out, b),
    ensures
        same_message(a, b),
{
    match (a, b) {
        (
            AgentMessage::Assistant { content: c1, tool_calls: t1 },
            AgentMessage::Assistant { content: c2, tool_calls: t2 },
        ) => {
            if let Message::Assistant { content: c, tool_calls: calls } = out {
                assert forall|i: int| 0 <= i < t1@.len() implies {
                    &&& (#[trigger] t1@[i]).id@ == t2@[i].id@
                    &&& t1@[i].name@ == t2@[i].name@
                    &&& t1@[i].arguments@ == t2@[i].arguments@
                } by {
                    assert(assistant_tool_call_of(calls@[i], t1@[i]));
                    assert(assistant_tool_call_of(calls@[i], t2@[i]));
                }
            }
        },
        _ => {},
    }
}

impl AssistantToolCall {
    /// The wire form of a tool call.
    pub fn from_tool_call(call: &ToolCall) -> (out: AssistantToolCall)
        ensures
            assistant_tool_call_of(out, *call),
    {
        AssistantToolCall {
            id: call.id.clone(),
            kind: ToolType::Function,
            function: AssistantFunctionCall {
                name: call.name.clone(),
                arguments: call.arguments.clone(),
            },
        }
    }
}

impl Message {
    /// The wire form of a conversation message.
    pub fn from_agent_message(message: &AgentMessage) -> (out: Message)
        ensures
            wire_message_of(out, *message),
    {
        match message {
            AgentMessage::System(content) => Message::System { content: content.clone() },
            AgentMessage::User(content) => Message::User { content: content.clone() },
            AgentMessage::Assistant { content, tool_calls } => {
                let mut calls: Vec<AssistantToolCall> = Vec::new();
                let mut i: usize = 0;
                while i < tool_calls.len()
                    invariant
                        i <= tool_calls@.len(),
                        calls@.len() == i,
                        forall|j: int|
                            0 <= j < i ==> assistant_tool_call_of(
                                #[trigger] calls@[j],
                                tool_calls@[j],
                            ),
                    decreases tool_calls@.len() - i,
                {
                    calls.push(AssistantToolCall::from_tool_call(&tool_calls[i]));
                    i = i + 1;
                }
                let c = match content {
                    Some(text) => Some(text.clone()),
                    None => None,
                };
                Message::Assistant { content: c, tool_calls: calls }
            },
            AgentMessage::Tool { tool_call_id, content } => Message::Tool {
                tool_call_id: tool_call_id.clone(),
                content: content.clone(),
            },
        }
    }
}

impl ToolDefinitionWire {
    /// The wire form of a tool definition.
    pub fn from_definition(definition: &ToolDefinition) -> (out: ToolDefinitionWire)
        ensures
            wire_tool_of(out, *definition),
    {
        ToolDefinitionWire {
            kind: ToolType::Function,
            function: FunctionDefinition {
                name: definition.name.clone(),
                description: definition.description.clone(),
                parameters: definition.input_schema.clone(),
            },
        }
    }
}

impl OpenAiCompatibleChatProvider {
    /// A service at the given chat-completions endpoint.
    pub fn new(api_key: String, model: String, chat_completions_url: String) -> (p:
        OpenAiCompatibleChatProvider)
        ensures
            p.api_key == api_key,
            p.model == model,
            p.chat_completions_url == chat_completions_url,
    {
        OpenAiCompatibleChatProvider { api_key, model, chat_completions_url }
    }

    /// OpenAI's service.
    pub fn openai(api_key: String, model: String) -> (p: OpenAiCompatibleChatProvider)
        ensures
            p.api_key == api_key,
            p.model == model,
            p.chat_completions_url@ == OPENAI_CHAT_COMPLETIONS_URL@,
    {
        Self::new(api_key, model, <String as StringExecFns>::from_str(OPENAI_CHAT_COMPLETIONS_URL))
    }

    /// OpenRouter's service.
    pub fn openrouter(api_key: String, model: String) -> (p: OpenAiCompatibleChatProvider)
        ensures
            p.api_key == api_key,
            p.model == model,
            p.chat_completions_url@ == OPENROUTER_CHAT_COMPLETIONS_URL@,
    {
        Self::new(
            api_key,
            model,
            <String as StringExecFns>::from_str(OPENROUTER_CHAT_COMPLETIONS_URL),
        )
    }

    /// The request for the model's next turn: the configured model, the
    /// conversation and the tool definitions in wire form, in order, and the
    /// model left to choose whether to call a tool.
    pub fn chat_request(&self, messages: &[AgentMessage], tools: &[ToolDefinition]) -> (r:
        ChatRequest)
        ensures
            r.model@ == self.model@,
            r.messages@.len() == messages@.len(),
            forall|i: int|
                0 <= i < messages@.len() ==> wire_message_of(#[trigger] r.messages@[i], messages@[i]),
            r.tools@.len() == tools@.len(),
            forall|i: int| 0 <= i < tools@.len() ==> wire_tool_of(#[trigger] r.tools@[i], tools@[i]),
            r.tool_choice@ == "auto"@,
    {
        let mut wire_messages: Vec<Message> = Vec::new();
        let mut i: usize = 0;
        while i < messages.len()
            invariant
                i <= messages@.len(),
                wire_messages@.len() == i,
                forall|j: int|
                    0 <= j < i ==> wire_message_of(#[trigger] wire_messages@[j], messages@[j]),
            decreases messages@.len() - i,
        {
            wire_messages.push(Message::from_agent_message(&messages[i]));
            i = i + 1;
        }
        let mut wire_tools: Vec<ToolDefinitionWire> = Vec::new();
        let mut i: usize = 0;
        while i < tools.len()
            invariant
                i <= tools@.len(),
                wire_tools@.len() == i,
                forall|j: int| 0 <= j < i ==> wire_tool_of(#[trigger] wire_tools@[j], tools@[j]),
            decreases tools@.len() - i,
        {
            wire_tools.push(ToolDefinitionWire::from_definition(&tools[i]));
            i = i + 1;
        }
        ChatRequest {
            model: self.model.clone(),
            messages: wire_messages,
            tools: wire_tools,
            tool_choice: "auto",
        }
    }
}

/// The chat service to use: OpenRouter where its key is set, else OpenAI
/// where its key is set, else none; for the configured model, or the
/// default model where none is configured.
pub fn select_chat_provider(
    openrouter_key: Option<String>,
    openai_key: Option<String>,
    model: Option<String>,
) -> (r: Option<OpenAiCompatibleChatProvider>)
    ensures
        r is Some <==> (openrouter_key is Some || openai_key is Some),
        r matches Some(p) ==> {
            &&& p.model@ == match model {
                Some(m) => m@,
                None => DEFAULT_MODEL@,
            }
            &&& openrouter_key matches Some(k) ==> p.api_key == k
                && p.chat_completions_url@ == OPENROUTER_CHAT_COMPLETIONS_URL@
            &&& openrouter_key is None ==> (openai_key matches Some(k) && p.api_key == k
                && p.chat_completions_url@ == OPENAI_CHAT_COMPLETIONS_URL@)
        },
{
    let model = match model {
        Some(m) => m,
        None => <String as StringExecFns>::from_str(DEFAULT_MODEL),
    };
    match openrouter_key {
        Some(key) => Some(OpenAiCompatibleChatProvider::openrouter(key, model)),
        None => match openai_key {
            Some(key) => Some(OpenAiCompatibleChatProvider::openai(key, model)),
            None => None,
        },
    }
}

// ---------------------------------------------------------------------------
// The reply
// ---------------------------------------------------------------------------

/// The body of a successful reply, or the status error of any other.
pub fn check_chat_status(status: u16, body: String) -> (r: Result<String, ChatError>)
    ensures
        spec_is_success(status) ==> r == Ok::<String, ChatError>(body),
        !spec_is_success(status) ==> (r matches Err(ChatError::Status { status: s, body: b }) && s
            == status && b == body),
{
    if is_success_status(status) {
        Ok(body)
    } else {
        Err(ChatError::Status { status, body })
    }
}

/// The JSON arguments that a tool call's argument text stands for: an
/// empty object where the text is blank, else the JSON value it holds.
pub open spec fn spec_tool_arguments(text: Seq<char>) -> Option<Seq<char>> {
    if spec_is_blank(text) {
        Some("{}"@)
    } else {
        json_normalized(text)
    }
}

/// The tool calls the reply's message requests, where it requests any.
pub open spec fn requested_calls(message: ResponseMessage) -> Seq<ResponseToolCall> {
    match message.tool_calls {
        Some(calls) => calls@,
        None => Seq::empty(),
    }
}

/// `out` is the call the reply requested with `call`, its arguments read.
pub open spec fn tool_call_of(out: ToolCall, call: ResponseToolCall) -> bool {
    &&& out.id@ == call.id@
    &&& out.name@ == call.function.name@
    &&& spec_tool_arguments(call.function.arguments@) == Some(out.arguments@)
}

/// The JSON arguments of a tool call.
fn tool_arguments(text: &String) -> (r: Result<String, serde_json::Error>)
    ensures
        r is Ok <==> spec_tool_arguments(text@) is Some,
        r matches Ok(s) ==> spec_tool_arguments(text@) == Some(s@),
{
    if is_blank(text.as_str()) {
        Ok(<String as StringExecFns>::from_str("{}"))
    } else {
        normalize_json(text.as_str())
    }
}

/// Some requested call has arguments that are not JSON.
pub open spec fn some_arguments_invalid(calls: Seq<ResponseToolCall>) -> bool {
    exists|i: int|
        0 <= i < calls.len() && spec_tool_arguments((#[trigger] calls[i]).function.arguments@) is None
}

/// `turn` requests the calls `calls`, in order, their arguments read.
pub open spec fn requests_calls(turn: AgentTurn, calls: Seq<ResponseToolCall>) -> bool {
    match turn {
        AgentTurn::ToolCalls(out) => {
            &&& out@.len() == calls.len()
            &&& forall|i: int| 0 <= i < calls.len() ==> tool_call_of(#[trigger] out@[i], calls[i])
        },
        AgentTurn::Final(_) => false,
    }
}

/// The text of a reply's message, or the empty text where it has none.
pub open spec fn final_text(message: ResponseMessage) -> Seq<char> {
    match message.content {
        Some(c) => c@,
        None => Seq::<char>::empty(),
    }
}

/// `r` reports tool-call arguments that are not JSON.
pub open spec fn invalid_arguments_error(r: Result<AgentTurn, ChatError>) -> bool {
    r matches Err(ChatError::InvalidToolArguments(_))
}

/// Where `r` is a turn, it requests the calls `calls`.
pub open spec fn ok_requests_calls(r: Result<AgentTurn, ChatError>, calls: Seq<ResponseToolCall>) -> bool {
    r matches Ok(turn) ==> requests_calls(turn, calls)
}

/// `turn` is the final answer `text`.
pub open spec fn answers(turn: AgentTurn, text: Seq<char>) -> bool {
    turn matches AgentTurn::Final(t) && t@ == text
}

/// The model's turn that a reply stands for. The first choice decides: if
/// it requests tool calls, those calls, in order, each with its arguments
/// read as JSON (blank arguments as an empty object); otherwise its text,
/// or the empty text where it has none.
pub fn interpret_chat_response(response: ChatResponse) -> (r: Result<AgentTurn, ChatError>)
    ensures
        response.choices@.len() == 0 <==> r matches Err(ChatError::NoChoices),
        response.choices@.len() > 0 && requested_calls(response.choices@[0].message).len() > 0
            ==> {
            &&& some_arguments_invalid(requested_calls(response.choices@[0].message))
                <==> invalid_arguments_error(r)
            &&& ok_requests_calls(r, requested_calls(response.choices@[0].message))
            &&& !some_arguments_invalid(requested_calls(response.choices@[0].message)) ==> (
            r matches Ok(turn) && requests_calls(turn, requested_calls(response.choices@[0].message)))
        },
        response.choices@.len() > 0 && requested_calls(response.choices@[0].message).len() == 0
            ==> (r matches Ok(turn) && answers(turn, final_text(response.choices@[0].message))),
        response.choices@.len() > 0 && requested_calls(response.choices@[0].message).len() == 0
            ==> (r matches Ok(AgentTurn::Final(text)) && (match response.choices@[0].message.content {
            Some(c) => text@ == c@,
            None => text@.len() == 0,
        })),
{
    if response.choices.len() == 0 {
        return Err(ChatError::NoChoices);
    }
    let ghost first = response.choices@[0].message;
    let message = &response.choices[0].message;
    match &message.tool_calls {
        Some(calls) => {
            if calls.len() > 0 {
                let mut out: Vec<ToolCall> = Vec::new();
                let mut i: usize = 0;
                while i < calls.len()
                    invariant
                        response.choices@.len() > 0,
                        calls@ == requested_calls(response.choices@[0].message),
                        i <= calls@.len(),
                        out@.len() == i,
                        forall|j: int| 0 <= j < i ==> tool_call_of(#[trigger] out@[j], calls@[j]),
                        forall|j: int|
                            0 <= j < i ==> spec_tool_arguments(
                                (#[trigger] calls@[j]).function.arguments@,
                            ) is Some,
                    decreases calls@.len() - i,
                {
                    let call = &calls[i];
                    match tool_arguments(&call.function.arguments) {
                        Ok(arguments) => {
                            out.push(
                                ToolCall {
                                    id: call.id.clone(),
                                    name: call.function.name.clone(),
                                    arguments,
                                },
                            );
                        },
                        Err(e) => {
                            assert(spec_tool_arguments(calls@[i as int].function.arguments@) is None);
                            return Err(ChatError::InvalidToolArguments(e));
                        },
                    }
                    i = i + 1;
                }
                return Ok(AgentTurn::ToolCalls(out));
            }
        },
        None => {},
    }
    let text = match &message.content {
        Some(c) => c.clone(),
        None => String::new(),
    };
    Ok(AgentTurn::Final(text))
}

/// The final answer is the reply's text, whole: for a message whose
/// content is `c`, every character of `c` and nothing else, whatever its
/// length; the empty text where the message has no content.
pub proof fn lemma_final_text_is_content(message: ResponseMessage)
    ensures
        message.content matches Some(c) ==> {
            &&& final_text(message).len() == c@.len()
            &&& forall|i: int| 0 <= i < c@.len() ==> final_text(message)[i] == c@[i]
        },
        message.content is None ==> final_text(message).len() == 0,
{
}

/// A turn that requests the reply's calls keeps each call as the reply
/// gave it, however long its id, name or arguments: the same id and
/// function name, in the same place; arguments that are blank become the
/// empty object `{}`, and any other arguments become the compact text of
/// the JSON value they hold.
pub proof fn lemma_requested_calls_kept(turn: AgentTurn, calls: Seq<ResponseToolCall>)
    requires
        requests_calls(turn, calls),
    ensures
        turn matches AgentTurn::ToolCalls(out) && out@.len() == calls.len() && forall|i: int|
            0 <= i < calls.len() ==> {
                &&& (#[trigger] out@[i]).id@ == calls[i].id@
                &&& out@[i].name@ == calls[i].function.name@
                &&& spec_is_blank(calls[i].function.arguments@) ==> out@[i].arguments@ == "{}"@
                &&& !spec_is_blank(calls[i].function.arguments@) ==> json_normalized(
                    calls[i].function.arguments@,
                ) == Some(out@[i].arguments@)
            },
{
    if let AgentTurn::ToolCalls(out) = turn {
        assert forall|i: int| 0 <= i < calls.len() implies {
            &&& (#[trigger] out@[i]).id@ == calls[i].id@
            &&& out@[i].name@ == calls[i].function.name@
            &&& spec_is_blank(calls[i].function.arguments@) ==> out@[i].arguments@ == "{}"@
            &&& !spec_is_blank(calls[i].function.arguments@) ==> json_normalized(
                calls[i].function.arguments@,
            ) == Some(out@[i].arguments@)
        } by {
            assert(tool_call_of(out@[i], calls[i]));
        }
    }
}

} // verus!
