use oatbar::ipc::{Response, ResponseData};
use oatbar::mcp::{
    ack_answer, check_access, list_filter, mcp_vars_pattern, server_instructions, value_answer, vars_answer, visible_vars,
    ConfigContainer, McpConfig,
};

fn container() -> ConfigContainer {
    ConfigContainer::new(McpConfig {
        hidden_variables: vec!["^secret".to_string(), "token$".to_string()],
        recent_timeout_seconds: 5,
        mcp_name: None,
    })
    .unwrap()
}

fn vars(v: &[(&str, &str)]) -> Vec<(String, String)> {
    v.iter().map(|(k, v)| (k.to_string(), v.to_string())).collect()
}

#[test]
fn hidden_variables_cannot_be_reached() {
    let c = container();
    assert!(check_access(&c, "clock.datetime").is_ok());
    assert_eq!(
        check_access(&c, "secret.key"),
        Err("Access to this variable is restricted by MCP security settings.".to_string())
    );
    assert!(check_access(&c, "github.token").is_err());
}

#[test]
fn listings_leave_out_hidden_and_unmatched_variables() {
    let c = container();
    let all = vars(&[("a.x", "1"), ("secret.k", "2"), ("b.x", "3"), ("api.token", "4"), ("a.y", "5")]);
    assert_eq!(
        visible_vars(&c, all.clone(), &None),
        vars(&[("a.x", "1"), ("b.x", "3"), ("a.y", "5")])
    );
    let filter = list_filter(&Some("^a\\.".to_string())).unwrap();
    assert_eq!(visible_vars(&c, all, &filter), vars(&[("a.x", "1"), ("a.y", "5")]));
    assert!(list_filter(&None).unwrap().is_none());
    let bad = list_filter(&Some("(".to_string())).unwrap_err();
    assert!(bad.starts_with("Invalid regex: "));
    assert!(bad.len() > "Invalid regex: ".len());
}

#[test]
fn tool_answers_follow_the_response() {
    let error = Response { data: None, error: Some("boom".into()) };
    assert_eq!(ack_answer(error), Err("boom".to_string()));
    assert_eq!(ack_answer(Response { data: None, error: None }), Ok("ok".to_string()));
    let value = Response { data: Some(ResponseData::Value("42".into())), error: None };
    assert_eq!(value_answer(value), Ok("42".to_string()));
    let wrong = Response { data: Some(ResponseData::Vars(vec![])), error: None };
    assert_eq!(value_answer(wrong), Err("Unexpected response type".to_string()));
    let listing = Response { data: Some(ResponseData::Vars(vars(&[("a", "1")]))), error: None };
    assert_eq!(vars_answer(listing), Ok(vars(&[("a", "1")])));
    assert_eq!(
        vars_answer(Response { data: None, error: None }),
        Err("Unexpected response type".to_string())
    );
}

#[test]
fn instructions_name_the_server_variables() {
    let unnamed = McpConfig { hidden_variables: vec![], recent_timeout_seconds: 5, mcp_name: None };
    let named = McpConfig { hidden_variables: vec![], recent_timeout_seconds: 5, mcp_name: Some("assistant".into()) };
    assert_eq!(mcp_vars_pattern(&unnamed), "'mcp:*'");
    assert_eq!(mcp_vars_pattern(&named), "'mcp:assistant.*'");
    assert_eq!(
        server_instructions("Report in {mcp_vars}; read {mcp_vars} back.", &named),
        "Report in 'mcp:assistant.*'; read 'mcp:assistant.*' back."
    );
    assert_eq!(server_instructions("no placeholder", &unnamed), "no placeholder");
}
