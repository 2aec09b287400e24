use chrome_debug_mcp::console::{GetConsoleLogsTool, LogState};
use chrome_debug_mcp::custom::{CdpCommandError, CustomEvent, CustomState, GetCustomEventsTool, SendCdpCommandTool};
use chrome_debug_mcp::debugger::{parse_i32, DebuggerState};
use chrome_debug_mcp::json::{parse_json, render, Json};
use chrome_debug_mcp::netlog::GetNetworkLogsTool;
use chrome_debug_mcp::network::{NetworkRequest, NetworkState, WebSocketFrame};

fn j(text: &str) -> Json {
    parse_json(text).unwrap()
}

fn req(url: &str, rt: &str) -> NetworkRequest {
    NetworkRequest {
        url: url.to_string(),
        method: "GET".to_string(),
        resource_type: Some(rt.to_string()),
        request_headers: None,
        request_post_data: None,
        response_status: Some(200),
        response_status_text: Some("OK".to_string()),
        response_headers: None,
        response_body: None,
    }
}

fn mock_network() -> NetworkState {
    let mut st = NetworkState::new();
    st.requests.insert("req-1".to_string(), req("https://example.com/api/v1", "XHR"));
    st.requests.insert("req-2".to_string(), req("https://google.com/search", "Document"));
    st.ws_frames.insert(
        "ws-1".to_string(),
        vec![
            WebSocketFrame { url: "wss://socket.com/feed".to_string(), payload_data: "hello server".to_string(), is_sent: true },
            WebSocketFrame { url: "wss://socket.com/feed".to_string(), payload_data: "welcome client".to_string(), is_sent: false },
        ],
    );
    st
}

fn tool() -> GetNetworkLogsTool {
    GetNetworkLogsTool {
        clear: None,
        type_filter: None,
        url_filter: None,
        ws_direction_filter: None,
        ws_content_filter: None,
        include_details: None,
    }
}

fn run(st: &mut NetworkState, t: &GetNetworkLogsTool) -> Json {
    let f = t.filter();
    let (reqs, frames) = st.take_logs(f.clear);
    let reqs = f.kept_requests(&reqs);
    let frames = f.kept_frames(&frames);
    f.report(&reqs, &frames)
}

fn members(j: &Json) -> usize {
    match j {
        Json::Object(m) => m.len(),
        _ => panic!("not an object"),
    }
}

#[test]
fn test_request_will_be_sent() {
    let mut st = NetworkState::new();
    let p = j(r#"{"requestId":"req-1","request":{"url":"https://example.com/api","method":"POST","headers":{"Content-Type":"application/json"},"postData":"{\"foo\": \"bar\"}"}}"#);
    st.process_network_event(Some("Network.requestWillBeSent"), Some(&p));
    let r = st.requests.get("req-1").unwrap();
    assert_eq!(r.url, "https://example.com/api");
    assert_eq!(r.method, "POST");
    assert_eq!(r.request_post_data.as_deref(), Some("{\"foo\": \"bar\"}"));
}

#[test]
fn test_response_received() {
    let mut st = NetworkState::new();
    let mut r = req("https://example.com", "x");
    r.resource_type = None;
    r.response_status = None;
    r.response_status_text = None;
    st.requests.insert("req-1".to_string(), r);
    let p = j(r#"{"requestId":"req-1","type":"XHR","response":{"status":200,"statusText":"OK","headers":{"X-Test":"val"}}}"#);
    st.process_network_event(Some("Network.responseReceived"), Some(&p));
    let r = st.requests.get("req-1").unwrap();
    assert_eq!(r.response_status, Some(200));
    assert_eq!(r.response_status_text.as_deref(), Some("OK"));
    assert_eq!(r.resource_type.as_deref(), Some("XHR"));
}

#[test]
fn test_websocket_lifecycle() {
    let mut st = NetworkState::new();
    st.process_network_event(Some("Network.webSocketCreated"), Some(&j(r#"{"requestId":"ws-1","url":"wss://socket.com"}"#)));
    st.process_network_event(Some("Network.webSocketFrameSent"), Some(&j(r#"{"requestId":"ws-1","response":{"payloadData":"ping"}}"#)));
    st.process_network_event(Some("Network.webSocketFrameReceived"), Some(&j(r#"{"requestId":"ws-1","response":{"payloadData":"pong"}}"#)));
    assert_eq!(st.ws_connections.get("ws-1").unwrap(), "wss://socket.com");
    let frames = st.ws_frames.get("ws-1").unwrap();
    assert_eq!(frames.len(), 2);
    assert!(frames[0].is_sent);
    assert_eq!(frames[0].payload_data, "ping");
    assert!(!frames[1].is_sent);
    assert_eq!(frames[1].payload_data, "pong");
}

#[test]
fn an_event_for_one_request_leaves_the_others_alone() {
    let mut st = mock_network();
    st.process_network_event(Some("Network.responseReceived"), Some(&j(r#"{"requestId":"req-1","response":{"status":404,"statusText":"Not Found"}}"#)));
    assert_eq!(st.requests.get("req-1").unwrap().response_status, Some(404));
    let other = st.requests.get("req-2").unwrap();
    assert_eq!(other.response_status, Some(200));
    assert_eq!(other.url, "https://google.com/search");
}

#[test]
fn test_get_network_logs_filter_type_rest() {
    let mut st = mock_network();
    let mut t = tool();
    t.type_filter = Some("rest".to_string());
    let out = run(&mut st, &t);
    assert!(out.get("requests").is_some());
    assert!(out.get("websocket_frames").is_none());
    assert_eq!(members(out.get("requests").unwrap()), 2);
}

#[test]
fn test_get_network_logs_filter_type_websocket() {
    let mut st = mock_network();
    let mut t = tool();
    t.type_filter = Some("websocket".to_string());
    let out = run(&mut st, &t);
    assert!(out.get("requests").is_none());
    assert_eq!(members(out.get("websocket_frames").unwrap()), 1);
}

#[test]
fn test_get_network_logs_filter_url() {
    let mut st = mock_network();
    let mut t = tool();
    t.url_filter = Some("example.com".to_string());
    let out = run(&mut st, &t);
    let reqs = out.get("requests").unwrap();
    assert_eq!(members(reqs), 1);
    assert!(reqs.get("req-1").is_some());
    assert_eq!(members(out.get("websocket_frames").unwrap()), 0);
}

#[test]
fn test_get_network_logs_ws_direction_sent() {
    let mut st = mock_network();
    let mut t = tool();
    t.type_filter = Some("websocket".to_string());
    t.ws_direction_filter = Some("sent".to_string());
    let out = run(&mut st, &t);
    let frames = out.get("websocket_frames").unwrap().get("ws-1").unwrap().as_array().unwrap();
    assert_eq!(frames.len(), 1);
    assert_eq!(frames[0].get("is_sent").unwrap().as_bool(), Some(true));
}

#[test]
fn test_get_network_logs_ws_content_filter() {
    let mut st = mock_network();
    let mut t = tool();
    t.ws_content_filter = Some("welcome".to_string());
    let out = run(&mut st, &t);
    let frames = out.get("websocket_frames").unwrap().get("ws-1").unwrap().as_array().unwrap();
    assert_eq!(frames.len(), 1);
    assert!(frames[0].get("payload_data").unwrap().as_str().unwrap().contains("welcome"));
}

#[test]
fn test_get_network_logs_include_details_false() {
    let mut st = mock_network();
    let mut t = tool();
    t.include_details = Some(false);
    let out = run(&mut st, &t);
    let r = out.get("requests").unwrap().get("req-1").unwrap();
    assert!(r.get("url").is_some());
    assert!(r.get("request_headers").is_none());
    assert!(r.get("statusText").is_some());
    let frames = out.get("websocket_frames").unwrap().get("ws-1").unwrap().as_array().unwrap();
    assert!(frames[0].get("payload_len").is_some());
    assert!(frames[0].get("payload_data").is_none());
    assert_eq!(frames[0].get("payload_len").unwrap().as_i64(), Some(12));
}

#[test]
fn test_get_network_logs_clear() {
    let mut st = mock_network();
    let mut t = tool();
    t.clear = Some(true);
    let first = run(&mut st, &t);
    assert!(members(first.get("requests").unwrap()) > 0);
    let second = run(&mut st, &t);
    assert_eq!(members(second.get("requests").unwrap()), 0);
    assert_eq!(members(second.get("websocket_frames").unwrap()), 0);
}

#[test]
fn bodies_are_fetched_only_for_answered_requests() {
    let mut r = req("https://a", "XHR");
    assert!(r.needs_body());
    r.take_body(Some(&j(r#"{"body":"hello","base64Encoded":false}"#)));
    assert_eq!(r.response_body.as_deref(), Some("hello"));
    assert!(!r.needs_body());
    let mut q = req("https://b", "XHR");
    q.response_status = None;
    assert!(!q.needs_body());
    let cmd = chrome_debug_mcp::network::body_command("req-9");
    assert_eq!(cmd.method, "Network.getResponseBody");
    assert_eq!(render(cmd.params.as_ref().unwrap()), r#"{"requestId":"req-9"}"#);
}

#[test]
fn test_script_parsed_inserts_script_info() {
    let mut st = DebuggerState::new();
    st.process_debugger_event(Some("Debugger.scriptParsed"), &Some(j(r#"{"scriptId":"42","hash":"abc123","startLine":"10","startColumn":"5"}"#)));
    assert_eq!(st.scripts.len(), 1);
    let s = st.scripts.get("42").unwrap();
    assert_eq!(s.hash, "abc123");
    assert_eq!(s.start_line, 10);
    assert_eq!(s.start_column, 5);
}

#[test]
fn test_script_parsed_defaults_line_column() {
    let mut st = DebuggerState::new();
    st.process_debugger_event(Some("Debugger.scriptParsed"), &Some(j(r#"{"scriptId":"1","hash":"def456"}"#)));
    let s = st.scripts.get("1").unwrap();
    assert_eq!(s.start_line, 0);
    assert_eq!(s.start_column, 0);
}

#[test]
fn test_script_parsed_missing_hash_ignored() {
    let mut st = DebuggerState::new();
    st.process_debugger_event(Some("Debugger.scriptParsed"), &Some(j(r#"{"scriptId":"99"}"#)));
    assert_eq!(st.scripts.len(), 0);
}

#[test]
fn test_script_parsed_missing_script_id_ignored() {
    let mut st = DebuggerState::new();
    st.process_debugger_event(Some("Debugger.scriptParsed"), &Some(j(r#"{"hash":"abc"}"#)));
    assert_eq!(st.scripts.len(), 0);
}

#[test]
fn test_paused_stores_call_frame_id() {
    let mut st = DebuggerState::new();
    st.process_debugger_event(Some("Debugger.paused"), &Some(j(r#"{"callFrames":[{"callFrameId":"frame-0","functionName":"main"},{"callFrameId":"frame-1","functionName":"helper"}]}"#)));
    assert_eq!(st.paused_call_frame_id.as_deref(), Some("frame-0"));
}

#[test]
fn test_paused_empty_call_frames_ignored() {
    let mut st = DebuggerState::new();
    st.process_debugger_event(Some("Debugger.paused"), &Some(j(r#"{"callFrames":[]}"#)));
    assert!(st.paused_call_frame_id.is_none());
}

#[test]
fn test_paused_missing_call_frames_ignored() {
    let mut st = DebuggerState::new();
    st.process_debugger_event(Some("Debugger.paused"), &Some(j("{}")));
    assert!(st.paused_call_frame_id.is_none());
}

#[test]
fn test_unknown_method_ignored() {
    let mut st = DebuggerState::new();
    st.process_debugger_event(Some("Debugger.resumed"), &Some(j("{}")));
    assert_eq!(st.scripts.len(), 0);
    assert!(st.paused_call_frame_id.is_none());
}

#[test]
fn test_event_without_method_ignored() {
    let mut st = DebuggerState::new();
    st.process_debugger_event(None, &Some(j(r#"{"scriptId":"1","hash":"abc"}"#)));
    assert_eq!(st.scripts.len(), 0);
}

#[test]
fn test_multiple_script_parsed_events() {
    let mut st = DebuggerState::new();
    for i in 0..5 {
        let p = j(&format!(r#"{{"scriptId":"script-{i}","hash":"hash-{i}","startLine":"{i}","startColumn":"0"}}"#));
        st.process_debugger_event(Some("Debugger.scriptParsed"), &Some(p));
    }
    assert_eq!(st.scripts.len(), 5);
    for i in 0..5 {
        let s = st.scripts.get(&format!("script-{i}")).unwrap();
        assert_eq!(s.hash, format!("hash-{i}"));
        assert_eq!(s.start_line, i);
    }
}

#[test]
fn test_paused_overwrites_previous_frame_id() {
    let mut st = DebuggerState::new();
    st.process_debugger_event(Some("Debugger.paused"), &Some(j(r#"{"callFrames":[{"callFrameId":"old-frame"}]}"#)));
    assert_eq!(st.paused_call_frame_id.as_deref(), Some("old-frame"));
    st.process_debugger_event(Some("Debugger.paused"), &Some(j(r#"{"callFrames":[{"callFrameId":"new-frame"}]}"#)));
    assert_eq!(st.paused_call_frame_id.as_deref(), Some("new-frame"));
}

#[test]
fn script_positions_parse_like_i32() {
    assert_eq!(parse_i32("+7"), Some(7));
    assert_eq!(parse_i32("-2147483648"), Some(-2147483648));
    assert_eq!(parse_i32("2147483648"), None);
    assert_eq!(parse_i32(""), None);
    assert_eq!(parse_i32("1a"), None);
}

#[test]
fn console_entries_and_api_calls_are_cached_in_order() {
    let mut st = LogState::new();
    st.process_log_event(Some("Log.entryAdded"), Some(&j(r#"{"entry":{"source":"network","level":"error","text":"boom","timestamp":12.5,"url":"https://x","lineNumber":3}}"#)));
    st.process_log_event(Some("Runtime.consoleAPICalled"), Some(&j(r#"{"type":"log","args":[{"value":"a"},{"value":1},{"description":"Obj"}],"timestamp":13}"#)));
    st.process_log_event(Some("Runtime.exceptionThrown"), Some(&j(r#"{"timestamp":14,"exceptionDetails":{"text":"Uncaught","exception":{"description":"TypeError: x"},"url":"https://y","lineNumber":9}}"#)));
    st.process_log_event(Some("Page.loadEventFired"), Some(&j("{}")));
    assert_eq!(st.messages.len(), 3);
    assert_eq!(st.messages[0].level, "error");
    assert_eq!(st.messages[0].line_number, Some(3));
    assert_eq!(st.messages[1].source, "console-api");
    assert_eq!(st.messages[1].text, "a 1 Obj");
    assert_eq!(st.messages[2].source, "exception");
    assert_eq!(st.messages[2].text, "TypeError: x");
}

#[test]
fn console_logs_filter_by_level_ignoring_case_and_clear() {
    let mut st = LogState::new();
    for (level, text) in [("error", "e1"), ("warning", "w1"), ("ERROR", "e2")] {
        let p = j(&format!(r#"{{"entry":{{"source":"js","level":"{level}","text":"{text}"}}}}"#));
        st.process_log_event(Some("Log.entryAdded"), Some(&p));
    }
    let t = GetConsoleLogsTool { instance_id: None, tab_id: None, clear: None, level_filter: Some("Error".to_string()) };
    let got = t.take(&mut st);
    assert_eq!(got.iter().map(|m| m.text.as_str()).collect::<Vec<_>>(), vec!["e1", "e2"]);
    assert_eq!(st.messages.len(), 3);
    let t = GetConsoleLogsTool { instance_id: None, tab_id: None, clear: Some(true), level_filter: None };
    assert_eq!(t.take(&mut st).len(), 3);
    assert_eq!(st.messages.len(), 0);
}

fn custom_event(method: &str, n: u32) -> (String, Json) {
    (method.to_string(), j(&format!(r#"{{"n":{n}}}"#)))
}

#[test]
fn custom_cache_keeps_the_newest_thousand_events() {
    let mut st = CustomState::new();
    for n in 0..1005u32 {
        let (m, p) = custom_event("DOM.childNodeInserted", n);
        st.process_custom_event(Some(m.as_str()), Some(&p), format!("t{n}"));
    }
    assert_eq!(st.events.len(), 1000);
    assert_eq!(st.events[0].timestamp, "t5");
    assert_eq!(st.events[999].timestamp, "t1004");
}

#[test]
fn custom_events_are_selected_by_method_and_limit() {
    let evs = vec![
        CustomEvent { method: "A.x".into(), params: j("{}"), timestamp: "1".into() },
        CustomEvent { method: "B.y".into(), params: j("{}"), timestamp: "2".into() },
        CustomEvent { method: "A.x".into(), params: j("{}"), timestamp: "3".into() },
    ];
    let t = GetCustomEventsTool { filter_method: Some("A.x".into()), limit: 1 };
    let got = t.select(&evs);
    assert_eq!(got.len(), 1);
    assert_eq!(got[0].timestamp, "1");
    let all = GetCustomEventsTool { filter_method: None, limit: 0 }.select(&evs);
    assert_eq!(all.len(), 3);
    assert_eq!(chrome_debug_mcp::custom::default_limit(), 100);
    let text = GetCustomEventsTool::report(&got);
    assert!(text.starts_with("Found 1 custom events. Captured events: ["), "{text}");
    assert!(text.contains("\"method\": \"A.x\""), "{text}");
}

#[test]
fn domains_are_registered_once() {
    let mut st = CustomState::new();
    assert!(st.register_domain("DOM"));
    assert!(!st.register_domain("DOM"));
    assert!(st.register_domain("CSS"));
    assert_eq!(chrome_debug_mcp::custom::domain_before_dot("DOM.getDocument"), "DOM");
    assert_eq!(chrome_debug_mcp::custom::domain_before_dot("Plain"), "Plain");
}

#[test]
fn raw_commands_parse_their_params_and_respect_local_mode() {
    let none = SendCdpCommandTool { method: "DOM.getDocument".into(), params: None };
    let (p, d) = none.prepare(false).ok().unwrap();
    assert_eq!(render(&p), "{}");
    assert_eq!(d, "DOM");
    let blank = SendCdpCommandTool { method: "Runtime.enable".into(), params: Some(" \u{a0}\t".into()) };
    assert_eq!(render(&blank.prepare(false).ok().unwrap().0), "{}");
    let bad = SendCdpCommandTool { method: "A.b".into(), params: Some("{bad".into()) };
    match bad.prepare(false) {
        Err(e @ CdpCommandError::InvalidParams(_)) => assert!(e.message().starts_with("Invalid JSON in params: ")),
        _ => panic!("expected invalid params"),
    }
    let nav = SendCdpCommandTool { method: "Page.navigate".into(), params: Some(r#"{"url":"https://example.com"}"#.into()) };
    match nav.prepare(true) {
        Err(e @ CdpCommandError::BlockedNavigation(_)) => {
            assert!(e.message().starts_with("Navigation to 'https://example.com' via raw CDP command is blocked."))
        }
        _ => panic!("expected a blocked navigation"),
    }
    assert!(nav.prepare(false).is_ok());
    let local = SendCdpCommandTool { method: "Page.navigate".into(), params: Some(r#"{"url":"http://localhost:8080"}"#.into()) };
    let (p, d) = local.prepare(true).ok().unwrap();
    assert_eq!(render(&p), r#"{"url":"http://localhost:8080"}"#);
    assert_eq!(d, "Page");
}
