use strata::agent::{AgentMessage, AgentTurn, ToolCall};
use strata::chat::{
    check_chat_status, interpret_chat_response, select_chat_provider,
    ChatError, ChatResponse, Choice, Message, OpenAiCompatibleChatProvider, ResponseFunctionCall,
    ResponseMessage, ResponseToolCall, ToolType, DEFAULT_MODEL, OPENAI_CHAT_COMPLETIONS_URL,
    OPENROUTER_CHAT_COMPLETIONS_URL,
};
use strata::http::is_success_status;
use strata::tools::ToolDefinition;

fn reply(content: Option<&str>, calls: Option<Vec<(&str, &str, &str)>>) -> ChatResponse {
    ChatResponse {
        choices: vec![Choice {
            message: ResponseMessage {
                content: content.map(|c| c.to_string()),
                tool_calls: calls.map(|cs| {
                    cs.into_iter()
                        .map(|(id, name, arguments)| ResponseToolCall {
                            id: id.to_string(),
                            function: ResponseFunctionCall {
                                name: name.to_string(),
                                arguments: arguments.to_string(),
                            },
                        })
                        .collect()
                }),
            },
        }],
    }
}

#[test]
fn reply_without_choices_is_an_error() {
    let r = interpret_chat_response(ChatResponse { choices: vec![] });
    assert!(matches!(r, Err(ChatError::NoChoices)));
}

#[test]
fn reply_text_is_the_final_answer() {
    let r = interpret_chat_response(reply(Some("Hello"), None)).unwrap();
    assert!(matches!(r, AgentTurn::Final(ref t) if t == "Hello"));
    let r = interpret_chat_response(reply(None, None)).unwrap();
    assert!(matches!(r, AgentTurn::Final(ref t) if t.is_empty()));
    let r = interpret_chat_response(reply(Some("text"), Some(vec![]))).unwrap();
    assert!(matches!(r, AgentTurn::Final(ref t) if t == "text"));
}

#[test]
fn tool_calls_are_read_in_order() {
    let r = interpret_chat_response(reply(
        Some("ignored"),
        Some(vec![
            ("call_1", "get_portfolio_summary", ""),
            ("call_2", "other", " { \"b\": 1, \"a\": [true, null] } "),
            ("call_3", "third", " \n "),
        ]),
    ))
    .unwrap();
    match r {
        AgentTurn::ToolCalls(calls) => {
            assert_eq!(calls.len(), 3);
            assert_eq!(calls[0].id, "call_1");
            assert_eq!(calls[0].name, "get_portfolio_summary");
            assert_eq!(calls[0].arguments, "{}");
            assert_eq!(calls[1].arguments, "{\"a\":[true,null],\"b\":1}");
            assert_eq!(calls[2].arguments, "{}");
        }
        other => panic!("unexpected turn {other:?}"),
    }
}

#[test]
fn invalid_tool_arguments_are_an_error() {
    let r = interpret_chat_response(reply(None, Some(vec![("c", "t", "{not json")])));
    assert!(matches!(r, Err(ChatError::InvalidToolArguments(_))));
}

#[test]
fn status_check_passes_successes_only() {
    assert!(is_success_status(200));
    assert!(is_success_status(299));
    assert!(!is_success_status(199));
    assert!(!is_success_status(300));
    assert!(!is_success_status(429));
    assert_eq!(check_chat_status(200, "body".to_string()).unwrap(), "body");
    match check_chat_status(500, "oops".to_string()) {
        Err(ChatError::Status { status, body }) => {
            assert_eq!(status, 500);
            assert_eq!(body, "oops");
        }
        other => panic!("unexpected {other:?}"),
    }
}

#[test]
fn request_carries_conversation_and_tools() {
    let provider = OpenAiCompatibleChatProvider::openai("key".to_string(), "gpt".to_string());
    let messages = vec![
        AgentMessage::System("sys".to_string()),
        AgentMessage::User("user".to_string()),
        AgentMessage::Assistant {
            content: None,
            tool_calls: vec![ToolCall {
                id: "c1".to_string(),
                name: "get_portfolio_summary".to_string(),
                arguments: "{}".to_string(),
            }],
        },
        AgentMessage::Tool { tool_call_id: "c1".to_string(), content: "{\"ok\":true}".to_string() },
    ];
    let tools = vec![ToolDefinition {
        name: "get_portfolio_summary".to_string(),
        description: "d".to_string(),
        input_schema: "{\"type\":\"object\"}".to_string(),
    }];
    let request = provider.chat_request(&messages, &tools);
    assert_eq!(request.model, "gpt");
    assert_eq!(request.tool_choice, "auto");
    assert_eq!(request.messages.len(), 4);
    assert!(matches!(&request.messages[0], Message::System { content } if content == "sys"));
    assert!(matches!(&request.messages[1], Message::User { content } if content == "user"));
    match &request.messages[2] {
        Message::Assistant { content, tool_calls } => {
            assert!(content.is_none());
            assert_eq!(tool_calls.len(), 1);
            assert_eq!(tool_calls[0].id, "c1");
            assert_eq!(tool_calls[0].kind, ToolType::Function);
            assert_eq!(tool_calls[0].function.name, "get_portfolio_summary");
            assert_eq!(tool_calls[0].function.arguments, "{}");
        }
        other => panic!("unexpected {other:?}"),
    }
    assert!(matches!(&request.messages[3], Message::Tool { tool_call_id, content }
        if tool_call_id == "c1" && content == "{\"ok\":true}"));
    assert_eq!(request.tools.len(), 1);
    assert_eq!(request.tools[0].kind, ToolType::Function);
    assert_eq!(request.tools[0].function.name, "get_portfolio_summary");
    assert_eq!(request.tools[0].function.description, "d");
    assert_eq!(request.tools[0].function.parameters, "{\"type\":\"object\"}");
}

#[test]
fn providers_point_at_their_endpoints() {
    let p = OpenAiCompatibleChatProvider::openrouter("k".to_string(), "m".to_string());
    assert_eq!(p.chat_completions_url, "https://openrouter.ai/api/v1/chat/completions");
    assert_eq!(p.chat_completions_url, OPENROUTER_CHAT_COMPLETIONS_URL);
    let p = OpenAiCompatibleChatProvider::openai("k".to_string(), "m".to_string());
    assert_eq!(p.chat_completions_url, "https://api.openai.com/v1/chat/completions");
    assert_eq!(p.chat_completions_url, OPENAI_CHAT_COMPLETIONS_URL);
    let p = OpenAiCompatibleChatProvider::new("k".to_string(), "m".to_string(), "u".to_string());
    assert_eq!(p.api_key, "k");
    assert_eq!(p.model, "m");
    assert_eq!(p.chat_completions_url, "u");
}

#[test]
fn provider_selection_prefers_openrouter() {
    let p = select_chat_provider(Some("or".to_string()), Some("oa".to_string()), None).unwrap();
    assert_eq!(p.api_key, "or");
    assert_eq!(p.chat_completions_url, OPENROUTER_CHAT_COMPLETIONS_URL);
    assert_eq!(p.model, DEFAULT_MODEL);
    assert_eq!(p.model, "meta-llama/llama-3.1-8b-instruct:free");
    let p = select_chat_provider(None, Some("oa".to_string()), Some("gpt-4.1-mini".to_string()))
        .unwrap();
    assert_eq!(p.api_key, "oa");
    assert_eq!(p.chat_completions_url, OPENAI_CHAT_COMPLETIONS_URL);
    assert_eq!(p.model, "gpt-4.1-mini");
    assert!(select_chat_provider(None, None, Some("m".to_string())).is_none());
}
