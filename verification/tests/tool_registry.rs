use strata::json::is_blank;
use strata::tools::{
    tool_result, RegisteredTool, ToolDispatch, ToolErrorCode, ToolOutcome, ToolRegistry,
};

fn tool(name: &str, description: &str) -> RegisteredTool {
    RegisteredTool {
        name: name.to_string(),
        description: description.to_string(),
        input_schema: "{\"type\":\"object\"}".to_string(),
        output_schema: "{\"type\":\"string\"}".to_string(),
    }
}

#[test]
fn registered_tools_are_found_by_name() {
    let mut r = ToolRegistry::new();
    assert_eq!(r.register(tool("a", "first")), 0);
    assert_eq!(r.register(tool("b", "second")), 1);
    assert_eq!(r.len(), 2);
    assert_eq!(r.find("a"), Some(0));
    assert_eq!(r.find("b"), Some(1));
    assert_eq!(r.find("c"), None);
    assert!(matches!(r.call("b"), ToolDispatch::Run(1)));
}

#[test]
fn registering_a_name_again_replaces_the_tool() {
    let mut r = ToolRegistry::new();
    r.register(tool("a", "old"));
    r.register(tool("b", "other"));
    assert_eq!(r.register(tool("a", "new")), 0);
    assert_eq!(r.len(), 2);
    let defs = r.llm_definitions();
    assert_eq!(defs.len(), 2);
    assert_eq!(defs[0].name, "a");
    assert_eq!(defs[0].description, "new");
    assert_eq!(defs[1].description, "other");
}

#[test]
fn definitions_carry_name_description_and_schema() {
    let mut r = ToolRegistry::new();
    r.register(tool("get_portfolio_summary", "Returns \"facts\""));
    let defs = r.llm_definitions();
    assert_eq!(defs[0].input_schema, "{\"type\":\"object\"}");
    let json = r.definitions_json();
    assert_eq!(
        json[0],
        "{\"description\":\"Returns \\\"facts\\\"\",\"input_schema\":{\"type\":\"object\"},\"name\":\"get_portfolio_summary\",\"output_schema\":{\"type\":\"string\"}}"
    );
    let parsed: serde_json::Value = serde_json::from_str(&json[0]).unwrap();
    assert_eq!(parsed["name"], "get_portfolio_summary");
}

#[test]
fn unknown_tool_is_answered_with_an_error_envelope() {
    let r = ToolRegistry::new();
    match r.call("missing") {
        ToolDispatch::Respond(text) => assert_eq!(
            text,
            "{\"error\":{\"code\":\"unknown_tool\",\"message\":\"Unknown tool: missing\"},\"ok\":false}"
        ),
        other => panic!("unexpected {other:?}"),
    }
}

#[test]
fn envelopes_match_the_json_values_they_stand_for() {
    let ok = tool_result(ToolOutcome::Data("{\"pies\":[]}".to_string()));
    assert_eq!(ok, "{\"data\":{\"pies\":[]},\"ok\":true}");
    let failed = tool_result(ToolOutcome::Error {
        code: ToolErrorCode::ToolExecutionFailed,
        message: "line\nbreak".to_string(),
    });
    assert_eq!(
        failed,
        "{\"error\":{\"code\":\"tool_execution_failed\",\"message\":\"line\\nbreak\"},\"ok\":false}"
    );
    let mut error = serde_json::Map::new();
    error.insert("code".to_string(), serde_json::Value::from("invalid_arguments"));
    error.insert("message".to_string(), serde_json::Value::from("bad"));
    let mut envelope = serde_json::Map::new();
    envelope.insert("ok".to_string(), serde_json::Value::from(false));
    envelope.insert("error".to_string(), serde_json::Value::Object(error));
    let value = serde_json::Value::Object(envelope);
    let invalid = tool_result(ToolOutcome::Error {
        code: ToolErrorCode::InvalidArguments,
        message: "bad".to_string(),
    });
    assert_eq!(invalid, value.to_string());
}

#[test]
fn error_codes_have_their_wire_names() {
    assert_eq!(ToolErrorCode::InvalidArguments.as_str(), "invalid_arguments");
    assert_eq!(ToolErrorCode::ToolExecutionFailed.as_str(), "tool_execution_failed");
    assert_eq!(ToolErrorCode::UnknownTool.as_str(), "unknown_tool");
}

#[test]
fn error_messages_are_quoted_as_json_strings() {
    let text = tool_result(ToolOutcome::Error {
        code: ToolErrorCode::InvalidArguments,
        message: "a\"b\\c".to_string(),
    });
    assert_eq!(
        text,
        "{\"error\":{\"code\":\"invalid_arguments\",\"message\":\"a\\\"b\\\\c\"},\"ok\":false}"
    );
}

#[test]
fn blank_text_is_only_whitespace() {
    assert!(is_blank(""));
    assert!(is_blank(" \t\r\n\u{a0}\u{3000}"));
    assert!(!is_blank(" x "));
}
