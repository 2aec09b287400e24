use chrome_debug_mcp::json::{parse_json, Json};
use chrome_debug_mcp::webmcp::{WebmcpAvailability, WebmcpInvocation, WebmcpState, WebmcpTool};
use chrome_debug_mcp::webmcp_tools::{
    set_availability, str_lt, GetWebmcpInvocationTool, InvokeWebmcpToolTool, ListWebmcpInvocationsTool,
    ListWebmcpToolsTool, PollOutcome,
};

fn j(text: &str) -> Json {
    parse_json(text).unwrap()
}

fn tool(name: &str, frame: &str) -> WebmcpTool {
    WebmcpTool {
        name: name.to_string(),
        description: format!("{name} tool"),
        input_schema: j(r#"{"type":"object"}"#),
        annotations: None,
        frame_id: frame.to_string(),
        backend_node_id: None,
    }
}

fn invocation(id: &str, status: Option<&str>) -> WebmcpInvocation {
    WebmcpInvocation {
        tool_name: "search".to_string(),
        frame_id: "F1".to_string(),
        invocation_id: id.to_string(),
        input: "{}".to_string(),
        status: status.map(|s| s.to_string()),
        output: None,
        error_text: None,
    }
}

fn invoke(st: &mut WebmcpState, inv: WebmcpInvocation) {
    let params = j(&format!(r#"{{"invocationId":"{}"}}"#, inv.invocation_id));
    st.process_webmcp_event(Some("WebMCP.toolInvoked"), Some(&params), vec![], Some(inv));
}

fn names(st: &WebmcpState) -> Vec<String> {
    ListWebmcpToolsTool::all_tools(st).into_iter().map(|t| t.name).collect()
}

#[test]
fn tools_are_added_per_frame_and_removed_by_name() {
    let mut st = WebmcpState::new();
    let added = j(r#"{"tools":[{},{},{}]}"#);
    st.process_webmcp_event(
        Some("WebMCP.toolsAdded"),
        Some(&added),
        vec![Some(tool("a", "F1")), None, Some(tool("b", "F2"))],
        None,
    );
    assert_eq!(names(&st), vec!["a", "b"]);
    // same name in the same frame replaces the tool
    let again = j(r#"{"tools":[{}]}"#);
    st.process_webmcp_event(Some("WebMCP.toolsAdded"), Some(&again), vec![Some(tool("a", "F1"))], None);
    assert_eq!(names(&st), vec!["a", "b"]);
    let removed = j(r#"{"tools":[{"name":"a","frameId":"F1"},{"name":"zz","frameId":"F9"}]}"#);
    st.process_webmcp_event(Some("WebMCP.toolsRemoved"), Some(&removed), vec![], None);
    assert_eq!(names(&st), vec!["b"]);
    // without a tools array nothing changes
    st.process_webmcp_event(Some("WebMCP.toolsAdded"), Some(&j("{}")), vec![Some(tool("c", "F1"))], None);
    assert_eq!(names(&st), vec!["b"]);
}

#[test]
fn empty_tool_listing_explains_availability() {
    let mut st = WebmcpState::new();
    assert!(matches!(st.availability, WebmcpAvailability::NotRequested));
    assert!(ListWebmcpToolsTool::empty_note(&st).contains("was not launched with the 'WEB_MCP' preset"));
    set_availability(&mut st, true, false);
    assert!(matches!(st.availability, WebmcpAvailability::Unsupported));
    assert!(ListWebmcpToolsTool::empty_note(&st).contains("does not support or expose the WebMCP CDP domain"));
    set_availability(&mut st, true, true);
    assert!(matches!(st.availability, WebmcpAvailability::Enabled));
    assert!(ListWebmcpToolsTool::empty_note(&st).starts_with("\n\n[Note] The 'WEB_MCP' preset is active"));
    set_availability(&mut st, false, true);
    assert!(matches!(st.availability, WebmcpAvailability::NotRequested));
}

#[test]
fn invocations_are_recorded_and_updated_by_responses() {
    let mut st = WebmcpState::new();
    invoke(&mut st, invocation("inv-1", None));
    let get = GetWebmcpInvocationTool { invocation_id: "inv-1".to_string() };
    assert_eq!(
        get.report(&st).unwrap(),
        "{\n  \"frameId\": \"F1\",\n  \"input\": \"{}\",\n  \"invocationId\": \"inv-1\",\n  \"status\": \"Pending\",\n  \"toolName\": \"search\"\n}"
    );
    let responded = j(r#"{"invocationId":"inv-1","status":"Completed","output":{"hits":2}}"#);
    st.process_webmcp_event(Some("WebMCP.toolResponded"), Some(&responded), vec![], None);
    let text = get.report(&st).unwrap();
    assert!(text.contains("\"status\": \"Completed\""), "{text}");
    assert!(text.contains("\"output\": {\n    \"hits\": 2\n  }"), "{text}");
    // a response for an unknown invocation is ignored
    let stray = j(r#"{"invocationId":"inv-9","status":"Completed"}"#);
    st.process_webmcp_event(Some("WebMCP.toolResponded"), Some(&stray), vec![], None);
    let unknown = GetWebmcpInvocationTool { invocation_id: "inv-9".to_string() };
    assert!(unknown.report(&st).unwrap_err().starts_with("No WebMCP invocation found with id 'inv-9'."));
}

#[test]
fn polling_waits_then_reports_the_outcome() {
    let tool = InvokeWebmcpToolTool { frame_id: "F1".to_string(), tool_name: "search".to_string(), input: "{}".to_string() };
    let c = tool.invoke_command(j(r#"{"q":"x"}"#));
    assert_eq!(c.method, "WebMCP.invokeTool");
    assert_eq!(
        InvokeWebmcpToolTool::invocation_id_of(Some(&j(r#"{"invocationId":"i1"}"#))),
        Ok("i1".to_string())
    );
    assert_eq!(InvokeWebmcpToolTool::invocation_id_of(Some(&j("{}"))), Err("Did not receive invocationId".to_string()));
    let mut st = WebmcpState::new();
    assert!(matches!(tool.poll(&st, "i1", 0), PollOutcome::Wait));
    invoke(&mut st, invocation("i1", None));
    assert!(matches!(tool.poll(&st, "i1", 1), PollOutcome::Wait));
    st.process_webmcp_event(Some("WebMCP.toolResponded"), Some(&j(r#"{"invocationId":"i1","status":"Completed"}"#)), vec![], None);
    match tool.poll(&st, "i1", 2) {
        PollOutcome::Completed(t) => assert_eq!(t, "{}"),
        _ => panic!("expected completion"),
    }
    invoke(&mut st, invocation("i2", None));
    st.process_webmcp_event(Some("WebMCP.toolResponded"), Some(&j(r#"{"invocationId":"i2","status":"Error","errorText":"boom"}"#)), vec![], None);
    match tool.poll(&st, "i2", 2) {
        PollOutcome::Failed(m) => assert_eq!(m, "Tool execution failed: boom"),
        _ => panic!("expected failure"),
    }
    invoke(&mut st, invocation("i3", Some("Canceled")));
    match tool.poll(&st, "i3", 2) {
        PollOutcome::Failed(m) => assert_eq!(m, "Tool execution was canceled"),
        _ => panic!("expected cancel"),
    }
    match tool.poll(&st, "i1", 301) {
        PollOutcome::Failed(m) => assert!(m.starts_with("Invocation 'search' is still pending after 30s"), "{m}"),
        _ => panic!("expected pending report"),
    }
}

#[test]
fn invocation_listing_is_sorted_and_filtered() {
    let mut st = WebmcpState::new();
    invoke(&mut st, invocation("b", None));
    invoke(&mut st, invocation("a", Some("Completed")));
    invoke(&mut st, invocation("c", Some("Error")));
    let all = ListWebmcpInvocationsTool { status: None };
    let ids: Vec<String> = all
        .listing(&st)
        .iter()
        .map(|e| match e {
            Json::Object(ms) => match &ms[0].1 {
                Json::Str(s) => s.clone(),
                _ => String::new(),
            },
            _ => String::new(),
        })
        .collect();
    assert_eq!(ids, vec!["a", "b", "c"]);
    let pending = ListWebmcpInvocationsTool { status: Some("Pending".to_string()) };
    assert_eq!(pending.listing(&st).len(), 1);
    let text = pending.report(&st).unwrap();
    assert!(text.contains("\"invocationId\": \"b\""), "{text}");
    let bad = ListWebmcpInvocationsTool { status: Some("Done".to_string()) };
    assert_eq!(
        bad.report(&st).unwrap_err(),
        "Invalid status filter 'Done'. Must be one of: Pending, Completed, Error, Canceled"
    );
    let empty = WebmcpState::new();
    assert_eq!(all.report(&empty).unwrap(), "[]");
}

#[test]
fn texts_sort_by_code_point() {
    assert!(str_lt("a", "b"));
    assert!(str_lt("ab", "abc"));
    assert!(!str_lt("abc", "ab"));
    assert!(!str_lt("x", "x"));
    assert!(str_lt("Z", "a"));
}
