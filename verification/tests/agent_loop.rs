use strata::agent::{
    user_prompt, AgentMessage, AgentTurn, LoopAction, LoopPhase, ToolCall, ToolLoop,
    DEFAULT_PROMPT, MAX_TOOL_TURNS,
};

fn call(id: &str, name: &str, arguments: &str) -> ToolCall {
    ToolCall { id: id.to_string(), name: name.to_string(), arguments: arguments.to_string() }
}

#[test]
fn start_asks_for_the_first_turn() {
    let (l, action) = ToolLoop::start("system".to_string(), "question".to_string());
    assert!(matches!(action, LoopAction::RequestTurn));
    assert_eq!(l.turns(), 1);
    assert_eq!(l.phase(), LoopPhase::AwaitingTurn);
    let m = l.messages();
    assert_eq!(m.len(), 2);
    assert!(matches!(&m[0], AgentMessage::System(s) if s == "system"));
    assert!(matches!(&m[1], AgentMessage::User(s) if s == "question"));
}

#[test]
fn final_answer_ends_the_run_verbatim() {
    let (mut l, _) = ToolLoop::start("s".to_string(), "q".to_string());
    let action = l.on_turn(AgentTurn::Final("All done.".to_string()));
    assert!(matches!(action, LoopAction::Finish(ref a) if a == "All done."));
    assert_eq!(l.phase(), LoopPhase::Finished);
    assert_eq!(l.messages().len(), 2);
}

#[test]
fn tool_calls_run_in_order_and_are_answered() {
    let (mut l, _) = ToolLoop::start("s".to_string(), "q".to_string());
    let action = l.on_turn(AgentTurn::ToolCalls(vec![
        call("c1", "get_portfolio_summary", "{}"),
        call("c2", "other", "{\"a\":1}"),
    ]));
    assert!(matches!(action, LoopAction::CallTool { ref name, ref arguments }
        if name == "get_portfolio_summary" && arguments == "{}"));
    assert_eq!(l.phase(), LoopPhase::AwaitingToolResult);
    let action = l.on_tool_result("{\"data\":1,\"ok\":true}".to_string());
    assert!(matches!(action, LoopAction::CallTool { ref name, ref arguments }
        if name == "other" && arguments == "{\"a\":1}"));
    let action = l.on_tool_result("{\"ok\":false}".to_string());
    assert!(matches!(action, LoopAction::RequestTurn));
    assert_eq!(l.turns(), 2);
    let m = l.messages();
    assert_eq!(m.len(), 5);
    match &m[2] {
        AgentMessage::Assistant { content, tool_calls } => {
            assert!(content.is_none());
            assert_eq!(tool_calls.len(), 2);
            assert_eq!(tool_calls[0].id, "c1");
        }
        other => panic!("unexpected message {other:?}"),
    }
    assert!(matches!(&m[3], AgentMessage::Tool { tool_call_id, content }
        if tool_call_id == "c1" && content == "{\"data\":1,\"ok\":true}"));
    assert!(matches!(&m[4], AgentMessage::Tool { tool_call_id, content }
        if tool_call_id == "c2" && content == "{\"ok\":false}"));
    let action = l.on_turn(AgentTurn::Final("answer".to_string()));
    assert!(matches!(action, LoopAction::Finish(ref a) if a == "answer"));
}

#[test]
fn empty_tool_call_turn_moves_to_the_next_turn() {
    let (mut l, _) = ToolLoop::start("s".to_string(), "q".to_string());
    let action = l.on_turn(AgentTurn::ToolCalls(vec![]));
    assert!(matches!(action, LoopAction::RequestTurn));
    assert_eq!(l.turns(), 2);
    assert_eq!(l.messages().len(), 3);
}

#[test]
fn loop_gives_up_after_the_turn_limit() {
    let (mut l, _) = ToolLoop::start("s".to_string(), "q".to_string());
    let mut requests = 1;
    loop {
        let action = l.on_turn(AgentTurn::ToolCalls(vec![call("id", "t", "{}")]));
        assert!(matches!(action, LoopAction::CallTool { .. }));
        match l.on_tool_result("{}".to_string()) {
            LoopAction::RequestTurn => requests += 1,
            LoopAction::GiveUp => break,
            other => panic!("unexpected action {other:?}"),
        }
    }
    assert_eq!(requests, MAX_TOOL_TURNS);
    assert_eq!(requests, 8);
    assert_eq!(l.phase(), LoopPhase::Finished);
    assert_eq!(l.messages().len(), 2 + 2 * 8);
}

#[test]
fn prompt_joins_words_with_spaces() {
    let args = vec!["Summarize".to_string(), "my".to_string(), "pies".to_string()];
    assert_eq!(user_prompt(&args), "Summarize my pies");
}

#[test]
fn blank_prompt_falls_back_to_the_default_question() {
    assert_eq!(user_prompt(&vec![]), DEFAULT_PROMPT);
    assert_eq!(user_prompt(&vec!["  ".to_string(), "\t".to_string()]), DEFAULT_PROMPT);
    assert_eq!(
        DEFAULT_PROMPT,
        "What Trading 212 pies do I have? Summarize them briefly."
    );
}

#[test]
fn single_word_prompt_is_kept() {
    assert_eq!(user_prompt(&vec![" hi ".to_string()]), " hi ");
}
