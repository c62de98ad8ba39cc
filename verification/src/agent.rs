//! The agent's conversation model and the tool loop that drives it: the
//! decisions of the loop, from one event to the next action, with the
//! waiting on the chat model and the running of tools left to the caller.
use crate::json::{is_blank, is_unicode_whitespace, spec_is_blank};
use vstd::prelude::*;
use vstd::string::StringExecFns;

verus! {

/// The question asked when the command line gives none.
pub const DEFAULT_PROMPT: &'static str = "What Trading 212 pies do I have? Summarize them briefly.";

/// The command-line words joined by single spaces.
pub open spec fn spec_join_words(words: Seq<Seq<char>>) -> Seq<char>
    decreases words.len(),
{
    if words.len() == 0 {
        Seq::empty()
    } else if words.len() == 1 {
        words[0]
    } else {
        spec_join_words(words.drop_last()) + " "@ + words.last()
    }
}

/// The user's prompt for a run: the command-line words joined by single
/// spaces, or the default question where that is blank.
pub open spec fn spec_user_prompt(words: Seq<Seq<char>>) -> Seq<char> {
    if spec_is_blank(spec_join_words(words)) {
        DEFAULT_PROMPT@
    } else {
        spec_join_words(words)
    }
}

/// One more command-line word: where the words so far are not blank, the
/// prompt is the prompt so far, a single space, then the new word. With
/// the one-word law below, every word of the command line stands in the
/// prompt, in order.
pub proof fn lemma_user_prompt_push(words: Seq<Seq<char>>, w: Seq<char>)
    requires
        words.len() > 0,
        !spec_is_blank(spec_join_words(words)),
    ensures
        spec_user_prompt(words.push(w)) == spec_user_prompt(words) + " "@ + w,
{
    let joined = spec_join_words(words);
    assert(words.push(w).drop_last() =~= words);
    let longer = spec_join_words(words.push(w));
    assert(longer == joined + " "@ + w);
    let i = choose|i: int| 0 <= i < joined.len() && !is_unicode_whitespace(#[trigger] joined[i]);
    assert(longer[i] == joined[i]);
}

/// Joining keeps every word, blank or empty ones too, each after a single
/// space: no words join to the empty text, one word to itself, and one
/// more word adds a space and that word to the text so far.
pub proof fn lemma_join_words_push(words: Seq<Seq<char>>, w: Seq<char>)
    ensures
        spec_join_words(Seq::<Seq<char>>::empty()) == Seq::<char>::empty(),
        spec_join_words(seq![w]) == w,
        words.len() > 0 ==> spec_join_words(words.push(w)) == spec_join_words(words) + " "@ + w,
{
    assert(words.push(w).drop_last() =~= words);
}

/// The prompt is the joined words, unchanged, wherever they are not blank,
/// and the default question wherever they are.
pub proof fn lemma_user_prompt_is_joined_words(words: Seq<Seq<char>>)
    ensures
        !spec_is_blank(spec_join_words(words)) ==> spec_user_prompt(words) == spec_join_words(words),
        spec_is_blank(spec_join_words(words)) ==> spec_user_prompt(words) == DEFAULT_PROMPT@,
{
}

/// A single word that is not blank is the prompt as it stands.
pub proof fn lemma_user_prompt_single(w: Seq<char>)
    requires
        !spec_is_blank(w),
    ensures
        spec_user_prompt(seq![w]) == w,
{
}

/// The default question is asked exactly when the words hold nothing but
/// whitespace.
pub proof fn lemma_user_prompt_default(words: Seq<Seq<char>>)
    requires
        forall|i: int, j: int|
            0 <= i < words.len() && 0 <= j < words[i].len() ==> is_unicode_whitespace(
                #[trigger] words[i][j],
            ),
    ensures
        spec_user_prompt(words) == DEFAULT_PROMPT@,
    decreases words.len(),
{
    lemma_join_blank(words);
}

/// Joining words that hold nothing but whitespace gives blank text.
proof fn lemma_join_blank(words: Seq<Seq<char>>)
    requires
        forall|i: int, j: int|
            0 <= i < words.len() && 0 <= j < words[i].len() ==> is_unicode_whitespace(
                #[trigger] words[i][j],
            ),
    ensures
        spec_is_blank(spec_join_words(words)),
    decreases words.len(),
{
    if words.len() > 1 {
        lemma_join_blank(words.drop_last());
        reveal_strlit(" ");
        let a = spec_join_words(words.drop_last());
        let w = words.last();
        assert forall|k: int| 0 <= k < (a + " "@ + w).len() implies is_unicode_whitespace(
            #[trigger] (a + " "@ + w)[k],
        ) by {
            if k >= a.len() + 1 {
                assert((a + " "@ + w)[k] == words[words.len() - 1][k - a.len() - 1]);
            }
        }
    } else if words.len() == 1 {
        assert forall|k: int| 0 <= k < words[0].len() implies is_unicode_whitespace(
            #[trigger] words[0][k],
        ) by {
            assert(is_unicode_whitespace(words[0][k]));
        }
    }
}

/// The user's prompt for a run, from the command-line words that follow
/// the program's name.
pub fn user_prompt(args: &Vec<String>) -> (r: String)
    ensures
        r@ == spec_user_prompt(args@.map_values(|a: String| a@)),
{
    let ghost words = args@.map_values(|a: String| a@);
    let mut joined = String::new();
    let mut i: usize = 0;
    while i < args.len()
        invariant
            words == args@.map_values(|a: String| a@),
            i <= args@.len(),
            joined@ == spec_join_words(words.take(i as int)),
        decreases args@.len() - i,
    {
        proof {
            assert(words.take(i + 1).drop_last() =~= words.take(i as int));
            assert(words.take(i + 1).last() == args@[i as int]@);
        }
        if i > 0 {
            joined.append(" ");
        }
        joined.append(args[i].as_str());
        i = i + 1;
    }
    assert(words.take(i as int) =~= words);
    if is_blank(joined.as_str()) {
        <String as StringExecFns>::from_str(DEFAULT_PROMPT)
    } else {
        joined
    }
}

/// Most chat-model turns that one run of the tool loop requests.
pub const MAX_TOOL_TURNS: u64 = 8u64;

/// A tool call that the chat model requested.
#[derive(Debug)]
pub struct ToolCall {
    pub id: String,
    pub name: String,
    /// The call's arguments, as JSON text.
    pub arguments: String,
}

impl ToolCall {
    /// A copy of the call.
    pub fn duplicate(&self) -> (r: ToolCall)
        ensures
            r == *self,
    {
        ToolCall { id: self.id.clone(), name: self.name.clone(), arguments: self.arguments.clone() }
    }
}

/// A copy of a list of tool calls.
pub fn duplicate_tool_calls(calls: &Vec<ToolCall>) -> (r: Vec<ToolCall>)
    ensures
        r@ == calls@,
{
    let mut r: Vec<ToolCall> = Vec::new();
    let mut i: usize = 0;
    while i < calls.len()
        invariant
            i <= calls@.len(),
            r@ == calls@.take(i as int),
        decreases calls@.len() - i,
    {
        r.push(calls[i].duplicate());
        i = i + 1;
        assert(r@ =~= calls@.take(i as int));
    }
    assert(calls@.take(i as int) =~= calls@);
    r
}

/// A message of the conversation between the agent and the chat model.
#[derive(Debug)]
pub enum AgentMessage {
    System(String),
    User(String),
    Assistant { content: Option<String>, tool_calls: Vec<ToolCall> },
    /// The result of a tool call, as JSON text.
    Tool { tool_call_id: String, content: String },
}

/// What the chat model answered on one turn.
#[derive(Debug)]
pub enum AgentTurn {
    Final(String),
    ToolCalls(Vec<ToolCall>),
}

/// Where the tool loop stands.
#[derive(Clone, Copy, Debug, PartialEq, Eq, Structural)]
pub enum LoopPhase {
    /// A chat-model turn has been requested.
    AwaitingTurn,
    /// A tool call has been handed out to run.
    AwaitingToolResult,
    /// The loop has ended.
    Finished,
}

/// What the caller of the tool loop is to do next.
#[derive(Debug)]
pub enum LoopAction {
    /// Ask the chat model for its next turn, handing it the conversation.
    RequestTurn,
    /// Run the named tool with these JSON arguments and report its result.
    CallTool { name: String, arguments: String },
    /// The run is over with this answer.
    Finish(String),
    /// The run is over without an answer: the turn limit was reached.
    GiveUp,
}

/// `tools` are the tool messages answering the first of `calls`, in order.
pub open spec fn replies_to(calls: Seq<ToolCall>, tools: Seq<AgentMessage>) -> bool {
    &&& tools.len() <= calls.len()
    &&& forall|j: int|
        0 <= j < tools.len() ==> (#[trigger] tools[j] matches AgentMessage::Tool {
            tool_call_id,
            ..
        } && tool_call_id@ == calls[j].id@)
}

/// `msgs` is a sequence of complete rounds: an assistant message with its
/// tool calls, then one tool message answering each call, in order.
pub open spec fn complete_rounds(msgs: Seq<AgentMessage>) -> bool
    decreases msgs.len(),
{
    if msgs.len() == 0 {
        true
    } else {
        match msgs[0] {
            AgentMessage::Assistant { tool_calls, .. } => {
                let k: int = tool_calls@.len() as int;
                if k + 1 <= msgs.len() {
                    replies_to(tool_calls@, msgs.subrange(1, k + 1)) && complete_rounds(
                        msgs.skip(k + 1),
                    )
                } else {
                    false
                }
            },
            _ => false,
        }
    }
}

/// Appending complete rounds to complete rounds gives complete rounds.
pub proof fn lemma_complete_rounds_append(a: Seq<AgentMessage>, b: Seq<AgentMessage>)
    requires
        complete_rounds(a),
        complete_rounds(b),
    ensures
        complete_rounds(a + b),
    decreases a.len(),
{
    if a.len() == 0 {
        assert(a + b =~= b);
    } else {
        match a[0] {
            AgentMessage::Assistant { tool_calls, .. } => {
                let k: int = tool_calls@.len() as int;
                assert((a + b)[0] == a[0]);
                assert((a + b).subrange(1, k + 1) =~= a.subrange(1, k + 1));
                assert((a + b).skip(k + 1) =~= a.skip(k + 1) + b);
                lemma_complete_rounds_append(a.skip(k + 1), b);
            },
            _ => {},
        }
    }
}

/// One assistant message followed by a tool message for each of its calls
/// is a complete round.
pub proof fn lemma_one_round(assistant: AgentMessage, tools: Seq<AgentMessage>)
    requires
        assistant matches AgentMessage::Assistant { tool_calls, .. } && replies_to(
            tool_calls@,
            tools,
        ) && tools.len() == tool_calls@.len(),
    ensures
        complete_rounds(seq![assistant] + tools),
{
    let msgs = seq![assistant] + tools;
    let k: int = tools.len() as int;
    assert(msgs.subrange(1, k + 1) =~= tools);
    assert(msgs.skip(k + 1) =~= Seq::<AgentMessage>::empty());
    assert(complete_rounds(Seq::<AgentMessage>::empty()));
}

/// The state of the tool loop, as a value: the conversation, how many
/// chat-model turns have been requested, the tool calls of the current
/// round and how many of them have been answered, and where the loop
/// stands.
#[verifier::ext_equal]
pub struct LoopState {
    pub messages: Seq<AgentMessage>,
    pub turns: nat,
    pub pending: Seq<ToolCall>,
    pub answered: nat,
    pub phase: LoopPhase,
}

/// The loop's invariant: at most the turn limit has been requested; the
/// conversation opens with the system and user prompts; after them come
/// complete rounds and, while tool calls are running, the open round's
/// assistant message and the answers given so far.
pub open spec fn loop_inv(s: LoopState) -> bool {
    &&& 1 <= s.turns <= MAX_TOOL_TURNS
    &&& s.messages.len() >= 2
    &&& s.messages[0] is System
    &&& s.messages[1] is User
    &&& if s.phase == LoopPhase::AwaitingToolResult {
        let start = s.messages.len() - s.answered - 1;
        &&& s.answered < s.pending.len()
        &&& 2 <= start
        &&& complete_rounds(s.messages.subrange(2, start))
        &&& s.messages[start] matches AgentMessage::Assistant { tool_calls, .. } && tool_calls@
            == s.pending
        &&& replies_to(s.pending, s.messages.skip(start + 1))
    } else {
        complete_rounds(s.messages.skip(2))
    }
}

/// Ends a round of tool calls: the next turn is requested, or, at the turn
/// limit, the run gives up.
pub open spec fn spec_next_round(s: LoopState) -> (LoopState, LoopAction) {
    if s.turns < MAX_TOOL_TURNS {
        (
            LoopState {
                messages: s.messages,
                turns: s.turns + 1,
                pending: s.pending,
                answered: s.answered,
                phase: LoopPhase::AwaitingTurn,
            },
            LoopAction::RequestTurn,
        )
    } else {
        (
            LoopState {
                messages: s.messages,
                turns: s.turns,
                pending: s.pending,
                answered: s.answered,
                phase: LoopPhase::Finished,
            },
            LoopAction::GiveUp,
        )
    }
}

/// The loop taking in the chat model's turn. A final answer ends the run
/// with that answer. Tool calls are recorded as an assistant message and
/// the first is handed out; a turn without calls ends the round at once.
pub open spec fn spec_on_turn(s: LoopState, turn: AgentTurn) -> (LoopState, LoopAction) {
    match turn {
        AgentTurn::Final(answer) => (
            LoopState {
                messages: s.messages,
                turns: s.turns,
                pending: s.pending,
                answered: s.answered,
                phase: LoopPhase::Finished,
            },
            LoopAction::Finish(answer),
        ),
        AgentTurn::ToolCalls(calls) => {
            let recorded = LoopState {
                messages: s.messages.push(
                    AgentMessage::Assistant { content: None, tool_calls: calls },
                ),
                turns: s.turns,
                pending: calls@,
                answered: 0,
                phase: s.phase,
            };
            if calls@.len() > 0 {
                (
                    LoopState {
                        messages: recorded.messages,
                        turns: recorded.turns,
                        pending: recorded.pending,
                        answered: 0,
                        phase: LoopPhase::AwaitingToolResult,
                    },
                    LoopAction::CallTool { name: calls@[0].name, arguments: calls@[0].arguments },
                )
            } else {
                spec_next_round(recorded)
            }
        },
    }
}

/// The loop taking in the result of the tool call handed out last: a tool
/// message answering that call is recorded, then the round's next call is
/// handed out, or the round ends.
pub open spec fn spec_on_tool_result(s: LoopState, content: String) -> (LoopState, LoopAction) {
    let recorded = LoopState {
        messages: s.messages.push(
            AgentMessage::Tool { tool_call_id: s.pending[s.answered as int].id, content },
        ),
        turns: s.turns,
        pending: s.pending,
        answered: s.answered + 1,
        phase: s.phase,
    };
    if recorded.answered < s.pending.len() {
        (
            recorded,
            LoopAction::CallTool {
                name: s.pending[recorded.answered as int].name,
                arguments: s.pending[recorded.answered as int].arguments,
            },
        )
    } else {
        spec_next_round(recorded)
    }
}

/// Ending a round keeps the invariant.
pub proof fn lemma_next_round_inv(s: LoopState)
    requires
        loop_inv(s),
        s.phase != LoopPhase::AwaitingToolResult,
    ensures
        loop_inv(spec_next_round(s).0),
{
}

/// Taking in a turn keeps the invariant.
pub proof fn lemma_on_turn_inv(s: LoopState, turn: AgentTurn)
    requires
        loop_inv(s),
        s.phase == LoopPhase::AwaitingTurn,
    ensures
        loop_inv(spec_on_turn(s, turn).0),
{
    match turn {
        AgentTurn::Final(_) => {},
        AgentTurn::ToolCalls(calls) => {
            let before = s.messages;
            let assistant = AgentMessage::Assistant { content: None, tool_calls: calls };
            let after = before.push(assistant);
            assert(after.subrange(2, before.len() as int) =~= before.skip(2));
            assert(after.skip(before.len() as int + 1) =~= Seq::<AgentMessage>::empty());
            if calls@.len() == 0 {
                lemma_one_round(assistant, Seq::<AgentMessage>::empty());
                assert(seq![assistant] + Seq::<AgentMessage>::empty() =~= seq![assistant]);
                lemma_complete_rounds_append(before.skip(2), seq![assistant]);
                assert(before.skip(2) + seq![assistant] =~= after.skip(2));
                let recorded = LoopState {
                    messages: after,
                    turns: s.turns,
                    pending: calls@,
                    answered: 0,
                    phase: s.phase,
                };
                lemma_next_round_inv(recorded);
            }
        },
    }
}

/// Taking in a tool result keeps the invariant.
pub proof fn lemma_on_tool_result_inv(s: LoopState, content: String)
    requires
        loop_inv(s),
        s.phase == LoopPhase::AwaitingToolResult,
    ensures
        loop_inv(spec_on_tool_result(s, content).0),
{
    let before = s.messages;
    let start = before.len() - s.answered - 1;
    let after = before.push(
        AgentMessage::Tool { tool_call_id: s.pending[s.answered as int].id, content },
    );
    assert(after.subrange(2, start) =~= before.subrange(2, start));
    assert(after[start] == before[start]);
    assert(after.skip(start + 1) =~= before.skip(start + 1).push(after.last()));
    if s.answered + 1 >= s.pending.len() {
        let round = after.skip(start);
        assert(round =~= seq![after[start]] + after.skip(start + 1));
        lemma_one_round(after[start], after.skip(start + 1));
        lemma_complete_rounds_append(after.subrange(2, start), round);
        assert(after.subrange(2, start) + round =~= after.skip(2));
        let recorded = LoopState {
            messages: after,
            turns: s.turns,
            pending: s.pending,
            answered: s.answered + 1,
            phase: LoopPhase::Finished,
        };
        lemma_next_round_inv(recorded);
        assert(spec_next_round(recorded).0.messages == spec_on_tool_result(s, content).0.messages);
    }
}

/// The state of one run of the tool loop.
pub struct ToolLoop {
    messages: Vec<AgentMessage>,
    turns: u64,
    pending: Vec<ToolCall>,
    answered: usize,
    phase: LoopPhase,
}

impl View for ToolLoop {
    type V = LoopState;

    closed spec fn view(&self) -> LoopState {
        LoopState {
            messages: self.messages@,
            turns: self.turns as nat,
            pending: self.pending@,
            answered: self.answered as nat,
            phase: self.phase,
        }
    }
}

impl ToolLoop {
    /// The conversation so far.
    pub open spec fn messages_spec(&self) -> Seq<AgentMessage> {
        self@.messages
    }

    /// How many chat-model turns have been requested.
    pub open spec fn turns_spec(&self) -> nat {
        self@.turns
    }

    /// The tool calls of the current round.
    pub open spec fn pending_spec(&self) -> Seq<ToolCall> {
        self@.pending
    }

    /// How many tool calls of the current round have been answered.
    pub open spec fn answered_spec(&self) -> nat {
        self@.answered
    }

    /// Where the loop stands.
    pub open spec fn phase_spec(&self) -> LoopPhase {
        self@.phase
    }

    /// The loop's invariant holds.
    pub open spec fn wf(&self) -> bool {
        loop_inv(self@)
    }

    /// Starts a run: the conversation is the system prompt and the user's
    /// prompt, and the first chat-model turn is requested.
    pub fn start(system_prompt: String, user_prompt: String) -> (r: (ToolLoop, LoopAction))
        ensures
            r.0.wf(),
            r.0.messages_spec() == seq![
                AgentMessage::System(system_prompt),
                AgentMessage::User(user_prompt),
            ],
            r.0.turns_spec() == 1,
            r.0.phase_spec() == LoopPhase::AwaitingTurn,
            r.1 is RequestTurn,
    {
        let mut messages: Vec<AgentMessage> = Vec::new();
        messages.push(AgentMessage::System(system_prompt));
        messages.push(AgentMessage::User(user_prompt));
        let l = ToolLoop {
            messages,
            turns: 1,
            pending: Vec::new(),
            answered: 0,
            phase: LoopPhase::AwaitingTurn,
        };
        assert(l.messages@.skip(2) =~= Seq::<AgentMessage>::empty());
        (l, LoopAction::RequestTurn)
    }

    /// The conversation so far.
    pub fn messages(&self) -> (r: &Vec<AgentMessage>)
        ensures
            r@ == self.messages_spec(),
    {
        &self.messages
    }

    /// Where the loop stands.
    pub fn phase(&self) -> (r: LoopPhase)
        ensures
            r == self.phase_spec(),
    {
        self.phase
    }

    /// How many chat-model turns have been requested.
    pub fn turns(&self) -> (r: u64)
        ensures
            r == self.turns_spec(),
    {
        self.turns
    }

    /// Ends a round of tool calls: requests the next turn, or gives up
    /// where the turn limit has been reached.
    fn next_round(&mut self) -> (action: LoopAction)
        requires
            old(self).turns <= MAX_TOOL_TURNS,
        ensures
            final(self)@ == spec_next_round(old(self)@).0,
            action == spec_next_round(old(self)@).1,
    {
        if self.turns < MAX_TOOL_TURNS {
            self.turns = self.turns + 1;
            self.phase = LoopPhase::AwaitingTurn;
            assert(self@ =~= spec_next_round(old(self)@).0);
            LoopAction::RequestTurn
        } else {
            self.phase = LoopPhase::Finished;
            assert(self@ =~= spec_next_round(old(self)@).0);
            LoopAction::GiveUp
        }
    }

    /// Takes in the chat model's turn (`spec_on_turn`).
    pub fn on_turn(&mut self, turn: AgentTurn) -> (action: LoopAction)
        requires
            old(self).wf(),
            old(self).phase_spec() == LoopPhase::AwaitingTurn,
        ensures
            final(self).wf(),
            final(self)@ == spec_on_turn(old(self)@, turn).0,
            action == spec_on_turn(old(self)@, turn).1,
    {
        proof {
            lemma_on_turn_inv(self@, turn);
        }
        let ghost before = self@;
        match turn {
            AgentTurn::Final(answer) => {
                self.phase = LoopPhase::Finished;
                assert(self@ =~= spec_on_turn(before, AgentTurn::Final(answer)).0);
                LoopAction::Finish(answer)
            },
            AgentTurn::ToolCalls(calls) => {
                let ghost turn_value = AgentTurn::ToolCalls(calls);
                let pending = duplicate_tool_calls(&calls);
                let n = calls.len();
                let assistant = AgentMessage::Assistant { content: None, tool_calls: calls };
                self.messages.push(assistant);
                self.pending = pending;
                self.answered = 0;
                if n > 0 {
                    let first = self.pending[0].duplicate();
                    self.phase = LoopPhase::AwaitingToolResult;
                    assert(self@ =~= spec_on_turn(before, turn_value).0);
                    LoopAction::CallTool { name: first.name, arguments: first.arguments }
                } else {
                    self.next_round()
                }
            },
        }
    }

    /// Takes in the result of the tool call handed out last
    /// (`spec_on_tool_result`).
    pub fn on_tool_result(&mut self, content: String) -> (action: LoopAction)
        requires
            old(self).wf(),
            old(self).phase_spec() == LoopPhase::AwaitingToolResult,
        ensures
            final(self).wf(),
            final(self)@ == spec_on_tool_result(old(self)@, content).0,
            action == spec_on_tool_result(old(self)@, content).1,
    {
        proof {
            lemma_on_tool_result_inv(self@, content);
        }
        let ghost before = self@;
        let n = self.pending.len();
        let id = self.pending[self.answered].id.clone();
        let ghost content_value = content;
        self.messages.push(AgentMessage::Tool { tool_call_id: id, content });
        self.answered = self.answered + 1;
        if self.answered < n {
            let next = self.pending[self.answered].duplicate();
            assert(self@ =~= spec_on_tool_result(before, content_value).0);
            LoopAction::CallTool { name: next.name, arguments: next.arguments }
        } else {
            self.next_round()
        }
    }
}

/// The loop never requests more chat-model turns than the turn limit.
pub proof fn lemma_turn_limit(l: ToolLoop)
    requires
        l.wf(),
    ensures
        1 <= l.turns_spec() <= MAX_TOOL_TURNS,
{
}

/// Whenever the loop is not waiting for a tool, every tool call the chat
/// model requested has been answered by exactly one tool message, in
/// order, right after the assistant message that requested it.
pub proof fn lemma_tool_calls_answered(l: ToolLoop)
    requires
        l.wf(),
        l.phase_spec() != LoopPhase::AwaitingToolResult,
    ensures
        complete_rounds(l.messages_spec().skip(2)),
{
}

/// The conversation always opens with the system prompt and the user's
/// prompt.
pub proof fn lemma_conversation_opening(l: ToolLoop)
    requires
        l.wf(),
    ensures
        l.messages_spec().len() >= 2,
        l.messages_spec()[0] is System,
        l.messages_spec()[1] is User,
{
}

/// The loop taking in tool results one after another: the state reached
/// and the actions given, in order.
pub open spec fn feed_results(s: LoopState, results: Seq<String>) -> (LoopState, Seq<LoopAction>)
    decreases results.len(),
{
    if results.len() == 0 {
        (s, Seq::empty())
    } else {
        let step = spec_on_tool_result(s, results[0]);
        let rest = feed_results(step.0, results.drop_first());
        (rest.0, seq![step.1] + rest.1)
    }
}

/// The tool messages answering `calls[from..]` with `results`, in order.
pub open spec fn tool_answers(calls: Seq<ToolCall>, from: int, results: Seq<String>) -> Seq<
    AgentMessage,
> {
    Seq::new(
        results.len(),
        |i: int| AgentMessage::Tool { tool_call_id: calls[from + i].id, content: results[i] },
    )
}

/// The action that hands out `call`.
pub open spec fn call_action(call: ToolCall) -> LoopAction {
    LoopAction::CallTool { name: call.name, arguments: call.arguments }
}

/// Feeding the results of the rest of a round: each tool message is
/// recorded in order, each further call is handed out once and in order,
/// and the round then ends.
pub proof fn lemma_feed_results(s: LoopState, results: Seq<String>)
    requires
        loop_inv(s),
        s.phase == LoopPhase::AwaitingToolResult,
        results.len() == s.pending.len() - s.answered,
    ensures
        ({
            let (t, actions) = feed_results(s, results);
            let n = results.len() as int;
            let ended = spec_next_round(
                LoopState {
                    messages: t.messages,
                    turns: s.turns,
                    pending: s.pending,
                    answered: s.pending.len(),
                    phase: LoopPhase::Finished,
                },
            );
            &&& loop_inv(t)
            &&& t.messages == s.messages + tool_answers(s.pending, s.answered as int, results)
            &&& actions.len() == n
            &&& forall|i: int|
                0 <= i < n - 1 ==> actions[i] == call_action(s.pending[s.answered + i + 1])
            &&& actions[n - 1] == ended.1
            &&& t.turns == ended.0.turns
            &&& t.phase == ended.0.phase
        }),
    decreases results.len(),
{
    let step = spec_on_tool_result(s, results[0]);
    lemma_on_tool_result_inv(s, results[0]);
    let rest = feed_results(step.0, results.drop_first());
    if results.len() == 1 {
        assert(results.drop_first() =~= Seq::<String>::empty());
        assert(tool_answers(s.pending, s.answered as int, results) =~= seq![
            AgentMessage::Tool {
                tool_call_id: s.pending[s.answered as int].id,
                content: results[0],
            },
        ]);
        assert(feed_results(s, results).1 =~= seq![step.1]);
    } else {
        lemma_feed_results(step.0, results.drop_first());
        assert(tool_answers(s.pending, s.answered as int, results) =~= seq![
            AgentMessage::Tool {
                tool_call_id: s.pending[s.answered as int].id,
                content: results[0],
            },
        ] + tool_answers(s.pending, s.answered as int + 1, results.drop_first()));
        assert(s.messages + tool_answers(s.pending, s.answered as int, results) =~= step.0.messages
            + tool_answers(s.pending, s.answered as int + 1, results.drop_first()));
        let actions = feed_results(s, results).1;
        assert(actions =~= seq![step.1] + rest.1);
        assert forall|i: int|
            0 <= i < results.len() - 1 implies actions[i] == call_action(
                s.pending[s.answered + i + 1],
            ) by {
            if i > 0 {
                assert(actions[i] == rest.1[i - 1]);
            }
        }
    }
}

/// A round of tool calls, from the turn that requests them to the result
/// of the last: the assistant message and one tool message per call are
/// appended to the history, in order, with nothing before them changed;
/// each call is handed out exactly once, in order; and the round then ends
/// by requesting the next turn, or, at the turn limit, by giving up.
pub proof fn lemma_tool_round(s: LoopState, calls: Vec<ToolCall>, results: Seq<String>)
    requires
        loop_inv(s),
        s.phase == LoopPhase::AwaitingTurn,
        calls@.len() > 0,
        results.len() == calls@.len(),
    ensures
        ({
            let (u, first) = spec_on_turn(s, AgentTurn::ToolCalls(calls));
            let (t, rest) = feed_results(u, results);
            let n = calls@.len() as int;
            &&& first == call_action(calls@[0])
            &&& rest.len() == n
            &&& forall|i: int| 0 <= i < n - 1 ==> rest[i] == call_action(calls@[i + 1])
            &&& s.turns < MAX_TOOL_TURNS ==> rest[n - 1] is RequestTurn && t.turns == s.turns + 1
                && t.phase == LoopPhase::AwaitingTurn
            &&& s.turns >= MAX_TOOL_TURNS ==> rest[n - 1] is GiveUp && t.turns == s.turns
                && t.phase == LoopPhase::Finished
            &&& t.messages == s.messages.push(
                AgentMessage::Assistant { content: None, tool_calls: calls },
            ) + tool_answers(calls@, 0, results)
            &&& loop_inv(t)
        }),
{
    lemma_on_turn_inv(s, AgentTurn::ToolCalls(calls));
    let u = spec_on_turn(s, AgentTurn::ToolCalls(calls)).0;
    lemma_feed_results(u, results);
}

/// The loop ends with an answer exactly when it takes in a final turn, and
/// the answer is that turn's text, unchanged; no tool result ends it with
/// an answer.
pub proof fn lemma_finish_exactly_on_final(s: LoopState, turn: AgentTurn, content: String)
    ensures
        spec_on_turn(s, turn).1 is Finish <==> turn is Final,
        turn matches AgentTurn::Final(answer) ==> spec_on_turn(s, turn).1 == LoopAction::Finish(
            answer,
        ),
        !(spec_on_tool_result(s, content).1 is Finish),
{
}

/// The turn counter counts the requested turns: a step requests a turn
/// exactly when it raises the counter by one, and otherwise leaves it;
/// with the invariant bounding it by the turn limit, a run requests at
/// most that many turns.
pub proof fn lemma_turn_counting(s: LoopState, turn: AgentTurn, content: String)
    ensures
        spec_on_turn(s, turn).1 is RequestTurn ==> spec_on_turn(s, turn).0.turns == s.turns + 1,
        !(spec_on_turn(s, turn).1 is RequestTurn) ==> spec_on_turn(s, turn).0.turns == s.turns,
        spec_on_tool_result(s, content).1 is RequestTurn ==> spec_on_tool_result(s, content).0.turns
            == s.turns + 1,
        !(spec_on_tool_result(s, content).1 is RequestTurn) ==> spec_on_tool_result(
            s,
            content,
        ).0.turns == s.turns,
        spec_on_turn(s, turn).1 is RequestTurn || spec_on_tool_result(s, content).1 is RequestTurn
            ==> s.turns < MAX_TOOL_TURNS,
{
}

} // verus!
