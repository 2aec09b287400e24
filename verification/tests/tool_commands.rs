use chrome_debug_mcp::debugger::DebuggerState;
use chrome_debug_mcp::debugger_tools::{
    line_of, EvaluateOnCallFrameTool, PauseOnLoadTool, RemoveBreakpointTool, ResumeTool, SearchScriptsTool,
    SetBreakpointTool, StepOverTool,
};
use chrome_debug_mcp::json::{parse_json, render, Json, JsonNumber};
use chrome_debug_mcp::launch::{ChromeFeature, LaunchParams};
use chrome_debug_mcp::manager::{
    connect_commands, tab_enable_commands, wants_webmcp, FakeBrowser, ManagerState, MockChromeManager,
    RestartChromeTool, StopChromeTool,
};
use chrome_debug_mcp::navigate::NavigateTool;
use chrome_debug_mcp::page_tools::{
    escape_selector, CaptureScreenshotTool, ClickElementTool, ClickTarget, ConnectChromeTool, EvaluateJsTool,
    FillInputTool, GetPerformanceMetricsTool, InspectDomTool, ReloadTool, ScrollTool,
};
use chrome_debug_mcp::proxy_auth::{proxy_auth_ready_message, CdpCommand, EnableProxyAuthTool, FetchEvent};
use chrome_debug_mcp::tabs::TabRegistry;
use chrome_debug_mcp::tools::ToolName;
use chrome_debug_mcp::tracing::{completed_stream, ProfilePagePerformanceTool};

fn j(text: &str) -> Json {
    parse_json(text).unwrap()
}

fn cmd(c: &CdpCommand) -> (String, String) {
    let p = match &c.params {
        Some(p) => render(p),
        None => "none".to_string(),
    };
    (c.method.clone(), p)
}

fn expect(c: &CdpCommand, method: &str, params: Option<&str>) {
    let want = match params {
        Some(p) => render(&j(p)),
        None => "none".to_string(),
    };
    assert_eq!(cmd(c), (method.to_string(), want));
}

fn navigate(url: &str, copy: Option<bool>) -> NavigateTool {
    NavigateTool {
        instance_id: None,
        tab_id: None,
        url: url.to_string(),
        copy_cookies: copy,
        source_profile: None,
        confirm_restart: None,
    }
}

#[test]
fn navigate_refuses_remote_urls_in_local_mode() {
    let e = navigate("https://example.com", None).check(true, false, false).unwrap_err();
    assert!(e.starts_with("Navigation to 'https://example.com' is blocked."), "{e}");
    assert!(navigate("http://localhost:3000", None).check(true, false, false).unwrap().is_none());
    assert!(navigate("https://example.com", None).check(false, false, false).unwrap().is_none());
}

#[test]
fn navigate_cookie_import_must_be_allowed_and_useful() {
    let disabled = navigate("https://a.com", Some(true)).check(false, false, false).unwrap_err();
    assert!(disabled.contains("disabled"), "{disabled}");
    let redundant = navigate("https://a.com", Some(true)).check(false, true, true).unwrap_err();
    assert!(redundant.contains("user-profile"), "{redundant}");
    let mut with_profile = navigate("https://a.com", Some(true));
    with_profile.source_profile = Some("Profile 3".to_string());
    let req = with_profile.check(false, true, false).unwrap().unwrap();
    assert_eq!(req.source_profile.as_deref(), Some("Profile 3"));
    expect(&with_profile.navigate_command(), "Page.navigate", Some(r#"{"url":"https://a.com"}"#));
}

#[test]
fn relaunch_warning_lists_the_tabs_unless_confirmed() {
    let mut reg: TabRegistry<u8> = TabRegistry::new(5);
    reg.register_tab(1, "T1".to_string(), Some("mail".to_string()), "https://m".to_string()).unwrap();
    reg.register_tab(2, "T2".to_string(), None, "https://n".to_string()).unwrap();
    let tool = navigate("https://a.com", Some(true));
    let w = tool.relaunch_warning(&reg).unwrap();
    assert!(w.starts_with("Cookie import requires relaunching instance 'default' with a seeded profile"), "{w}");
    assert!(w.contains("its 2 open tab(s), discarding their state"), "{w}");
    assert!(w.contains("  - tab-1 \"mail\" (active): https://m\n  - tab-2: https://n"), "{w}");
    assert!(w.ends_with("plus `confirm_restart: true`."), "{w}");
    let empty: TabRegistry<u8> = TabRegistry::new(5);
    assert!(tool.relaunch_warning(&empty).unwrap().contains("CLOSE the instance and any open tabs"));
    let mut confirmed = navigate("https://a.com", Some(true));
    confirmed.confirm_restart = Some(true);
    assert!(confirmed.relaunch_warning(&reg).is_none());
}

#[test]
fn selectors_are_escaped_for_scripts() {
    assert_eq!(escape_selector(r#"a[href="x"]"#), r#"a[href=\"x\"]"#);
    assert_eq!(escape_selector("#id"), "#id");
}

#[test]
fn click_reads_the_element_centre() {
    let tool = ClickElementTool { selector: "#go".to_string() };
    let c = tool.locate_command();
    assert_eq!(c.method, "Runtime.evaluate");
    let p = render(c.params.as_ref().unwrap());
    assert!(p.contains(r##"document.querySelector(\"#go\")"##), "{p}");
    assert!(p.contains(r#""returnByValue":true"#), "{p}");
    match tool.target(Some(&j(r#"{"result":{"type":"object","value":{"x":10,"y":20.5}}}"#))) {
        ClickTarget::At(x, y) => {
            assert!(matches!(x, JsonNumber::PosInt(10)));
            assert!(matches!(y, JsonNumber::Float(ref t) if t == "20.5"));
        }
        _ => panic!("expected coordinates"),
    }
    match tool.target(Some(&j(r#"{"result":{"type":"object","subtype":"null","value":null}}"#))) {
        ClickTarget::NotFound(m) => assert_eq!(m, "Element not found for selector: #go"),
        _ => panic!("expected not found"),
    }
    match tool.target(Some(&j(r#"{"result":{"type":"object","value":{"x":"a"}}}"#))) {
        ClickTarget::NoCoordinates(m) => assert_eq!(m, "Could not determine coordinates for the element."),
        _ => panic!("expected no coordinates"),
    }
}

#[test]
fn fill_input_focuses_then_types() {
    let tool = FillInputTool { selector: "input".to_string(), text: "hello".to_string() };
    assert!(tool.focused(Some(&j(r#"{"result":{"type":"boolean","value":true}}"#))));
    assert!(!tool.focused(Some(&j(r#"{"result":{"type":"boolean","value":false}}"#))));
    assert!(!tool.focused(None));
    expect(&tool.insert_command(), "Input.insertText", Some(r#"{"text":"hello"}"#));
    assert_eq!(tool.filled_message(), "Successfully filled input 'input' with text.");
    assert_eq!(tool.not_found_message(), "Element not found for selector: input");
}

#[test]
fn screenshots_carry_format_quality_and_clip() {
    let tool = CaptureScreenshotTool { format: None, quality: None, full_page: None };
    assert!(!tool.wants_full_page());
    expect(&tool.capture_command(None), "Page.captureScreenshot", Some(r#"{"format":"png","fromSurface":true}"#));
    let full = CaptureScreenshotTool { format: Some("jpeg".to_string()), quality: Some(80), full_page: Some(true) };
    assert!(full.wants_full_page());
    expect(
        &full.capture_command(Some((JsonNumber::PosInt(800), JsonNumber::PosInt(2000)))),
        "Page.captureScreenshot",
        Some(r#"{"format":"jpeg","fromSurface":true,"quality":80,"clip":{"x":0,"y":0,"width":800,"height":2000,"scale":1},"captureBeyondViewport":true}"#),
    );
    assert_eq!(full.image(Some(&j(r#"{"data":"QUJD"}"#))), Ok(("QUJD".to_string(), "image/jpeg".to_string())));
    assert_eq!(tool.image(Some(&j("{}"))), Err("No data returned from Page.captureScreenshot".to_string()));
}

#[test]
fn screenshot_quality_applies_to_jpeg_and_webp_only() {
    let png = CaptureScreenshotTool { format: Some("png".to_string()), quality: Some(50), full_page: None };
    expect(&png.capture_command(None), "Page.captureScreenshot", Some(r#"{"format":"png","fromSurface":true}"#));
    let jpeg = CaptureScreenshotTool { format: Some("jpeg".to_string()), quality: None, full_page: None };
    expect(&jpeg.capture_command(None), "Page.captureScreenshot", Some(r#"{"format":"jpeg","fromSurface":true,"quality":100}"#));
    let webp = CaptureScreenshotTool { format: Some("webp".to_string()), quality: Some(30), full_page: None };
    expect(&webp.capture_command(None), "Page.captureScreenshot", Some(r#"{"format":"webp","fromSurface":true,"quality":30}"#));
    assert_eq!(webp.image(Some(&j(r#"{"data":"D"}"#))), Ok(("D".to_string(), "image/webp".to_string())));
}

#[test]
fn simple_page_commands() {
    expect(&ReloadTool { instance_id: None }.reload_command(), "Page.reload", Some("{}"));
    expect(
        &EvaluateJsTool { expression: "1+1".to_string() }.evaluate(),
        "Runtime.evaluate",
        Some(r#"{"expression":"1+1","returnByValue":true,"awaitPromise":true}"#),
    );
    expect(
        &GetPerformanceMetricsTool { instance_id: None, tab_id: None }.metrics_command(),
        "Performance.getMetrics",
        Some("{}"),
    );
    assert_eq!(
        ConnectChromeTool { url: "http://127.0.0.1:9222".to_string() }.connected_message(),
        "Successfully connected to Chrome at http://127.0.0.1:9222"
    );
}

#[test]
fn inspect_dom_reports_context_around_the_first_match() {
    let html = "<html><body><div id=\"main\">Hello</div></body></html>";
    let whole = InspectDomTool { query: None, before: None, after: None };
    assert_eq!(whole.report(html), html);
    let q = InspectDomTool { query: Some("Hello".to_string()), before: Some(5), after: Some(6) };
    assert_eq!(
        q.report(html),
        "Found 'Hello' at position 27. Context (before=5, after=6):\n\n[...]\nain\">Hello</div>\n[...]"
    );
    let missing = InspectDomTool { query: Some("Bye".to_string()), before: None, after: None };
    assert_eq!(missing.report(html), "Query 'Bye' not found in the DOM.");
    assert_eq!(
        InspectDomTool::html_of(Some(&j(r#"{"result":{"type":"string","value":"<p>x</p>"}}"#))),
        "<p>x</p>"
    );
    assert_eq!(InspectDomTool::html_of(None), "");
    // the window is counted in characters, so multi-byte characters are kept whole
    let cut = InspectDomTool { query: Some("x".to_string()), before: Some(1), after: Some(1) };
    assert_eq!(cut.report("aéxüb"), "Found 'x' at position 3. Context (before=1, after=1):\n\n[...]\néxü\n[...]");
    let wide = InspectDomTool { query: Some("ü".to_string()), before: Some(10), after: Some(10) };
    assert_eq!(wide.report("éü"), "Found 'ü' at position 2. Context (before=10, after=10):\n\n[...]\néü\n[...]");
}

#[test]
fn breakpoints_go_by_id_then_url_then_hash() {
    let by_id = SetBreakpointTool { script_hash: Some("h".to_string()), script_id: Some("42".to_string()), url: None, line_number: 3, column_number: Some(7) };
    expect(
        &by_id.command().unwrap(),
        "Debugger.setBreakpoint",
        Some(r#"{"location":{"scriptId":"42","lineNumber":3,"columnNumber":7}}"#),
    );
    let by_url = SetBreakpointTool { script_hash: None, script_id: None, url: Some("app.js".to_string()), line_number: 1, column_number: None };
    expect(&by_url.command().unwrap(), "Debugger.setBreakpointByUrl", Some(r#"{"url":"app.js","lineNumber":1}"#));
    let by_hash = SetBreakpointTool { script_hash: Some("abc".to_string()), script_id: None, url: None, line_number: 0, column_number: None };
    expect(&by_hash.command().unwrap(), "Debugger.setBreakpointByUrl", Some(r#"{"scriptHash":"abc","lineNumber":0}"#));
    let none = SetBreakpointTool { script_hash: None, script_id: None, url: None, line_number: 0, column_number: None };
    assert_eq!(none.command().err().unwrap(), "Either script_id, url or script_hash must be provided");
}

#[test]
fn stepping_commands() {
    let cmds = PauseOnLoadTool { instance_id: None, tab_id: None }.commands();
    assert_eq!(cmds.len(), 3);
    expect(&cmds[0], "Debugger.enable", None);
    expect(&cmds[1], "Page.addScriptToEvaluateOnNewDocument", Some(r#"{"source":"debugger;"}"#));
    expect(&cmds[2], "Page.reload", None);
    expect(&RemoveBreakpointTool { breakpoint_id: "bp1".to_string() }.command(), "Debugger.removeBreakpoint", Some(r#"{"breakpointId":"bp1"}"#));
    expect(&ResumeTool { instance_id: None }.command(), "Debugger.resume", None);
    expect(&StepOverTool { instance_id: None, tab_id: None }.command(), "Debugger.stepOver", None);
}

#[test]
fn evaluation_on_a_frame_needs_a_pause() {
    let tool = EvaluateOnCallFrameTool { expression: "x".to_string() };
    let mut st = DebuggerState::new();
    assert!(tool.command(&st).is_err());
    st.process_debugger_event(Some("Debugger.paused"), &Some(j(r#"{"callFrames":[{"callFrameId":"cf-1"}]}"#)));
    expect(
        &tool.command(&st).unwrap(),
        "Debugger.evaluateOnCallFrame",
        Some(r#"{"callFrameId":"cf-1","returnByValue":true,"expression":"x"}"#),
    );
}

#[test]
fn script_search_reports_line_column_and_preview() {
    let src = "function a() {}\n  let token = 1;  \nother";
    let tool = SearchScriptsTool { query: "token".to_string() };
    let m = tool.match_script("7", "hh", src).unwrap();
    assert_eq!(
        render(&m),
        render(&j(r#"{"scriptId":"7","scriptHash":"hh","lineNumber":1,"columnNumber":6,"linePreview":"let token = 1;"}"#))
    );
    assert!(tool.match_script("7", "hh", "nothing here").is_none());
    let dbg = SearchScriptsTool { query: "debug".to_string() };
    assert_eq!(render(&dbg.match_script("7", "hh", "héllo").unwrap()), render(&j(r#"{"id":"7","source_len":6}"#)));
    let head = SearchScriptsTool { query: "@source".to_string() };
    assert_eq!(render(&head.match_script("7", "hh", "abc").unwrap()), render(&j(r#"{"id":"7","source":"abc"}"#)));
    assert_eq!(SearchScriptsTool::cached_message(4), "Total cached scripts: 4");
    assert_eq!(line_of("a\r\nb\nc", 0), "a");
    assert_eq!(line_of("a\r\nb\nc", 2), "c");
    assert_eq!(line_of("a", 5), "");
    let report = SearchScriptsTool::matches_report(vec![j(r#"{"a":1}"#)]);
    assert_eq!(report, "[\n  {\n    \"a\": 1\n  }\n]");
}

fn proxy_tool() -> EnableProxyAuthTool {
    EnableProxyAuthTool {
        username: "u".to_string(),
        password: "p".to_string(),
        resource_type: None,
        prewarm_url: None,
    }
}

#[test]
fn proxy_auth_answers_challenges_and_lets_requests_through() {
    let tool = proxy_tool();
    expect(
        &tool.enable_command(),
        "Fetch.enable",
        Some(r#"{"patterns":[{"urlPattern":"*","resourceType":"Document","requestStage":"Request"}],"handleAuthRequests":true}"#),
    );
    expect(&tool.prewarm_command(), "Page.navigate", Some(r#"{"url":"http://api.ipify.org?format=json"}"#));
    let paused = FetchEvent::Event { method: Some("Fetch.requestPaused".to_string()), params: Some(j(r#"{"requestId":"r1"}"#)) };
    let step = tool.on_fetch_event(&paused);
    assert!(!step.stop);
    expect(step.command.as_ref().unwrap(), "Fetch.continueRequest", Some(r#"{"requestId":"r1"}"#));
    let auth = FetchEvent::Event { method: Some("Fetch.authRequired".to_string()), params: Some(j(r#"{"requestId":"r2"}"#)) };
    expect(
        tool.on_fetch_event(&auth).command.as_ref().unwrap(),
        "Fetch.continueWithAuth",
        Some(r#"{"requestId":"r2","authChallengeResponse":{"response":"ProvideCredentials","username":"u","password":"p"}}"#),
    );
    let other = FetchEvent::Event { method: Some("Network.x".to_string()), params: Some(j(r#"{"requestId":"r3"}"#)) };
    let s = tool.on_fetch_event(&other);
    assert!(s.command.is_none() && !s.stop);
    let timeout = tool.on_fetch_event(&FetchEvent::TimedOut);
    assert!(timeout.stop);
    expect(timeout.command.as_ref().unwrap(), "Fetch.disable", None);
    let end = tool.on_fetch_event(&FetchEvent::StreamEnded);
    assert!(end.stop && end.command.is_none());
    assert!(tool.on_fetch_event(&FetchEvent::StreamError).stop);
    assert_eq!(
        proxy_auth_ready_message(),
        "Proxy authentication is configured and active (30s timeout). Pre-warming initiated."
    );
}

#[test]
fn profiling_duration_is_clamped_and_commands_follow_the_protocol() {
    let t = |d: Option<u64>| ProfilePagePerformanceTool { duration_ms: d, action: None, disable_cache: None };
    assert_eq!(t(None).duration(), 3000);
    assert_eq!(t(Some(10)).duration(), 500);
    assert_eq!(t(Some(99999)).duration(), 15000);
    assert_eq!(t(Some(1234)).duration(), 1234);
    let reload = ProfilePagePerformanceTool { duration_ms: None, action: Some("reload".to_string()), disable_cache: Some(true) };
    assert!(reload.disables_cache());
    expect(&reload.action_command().unwrap(), "Page.reload", Some(r#"{"ignoreCache":true}"#));
    assert!(t(None).action_command().is_none());
    expect(&ProfilePagePerformanceTool::cache_command(true), "Network.setCacheDisabled", Some(r#"{"cacheDisabled":true}"#));
    expect(
        &ProfilePagePerformanceTool::start_command(),
        "Tracing.start",
        Some(r#"{"transferMode":"ReturnAsStream","categories":"devtools.timeline,v8.execute,blink.user_timing,blink,cc,gpu,toplevel"}"#),
    );
    expect(&ProfilePagePerformanceTool::end_command(), "Tracing.end", Some("{}"));
    expect(&ProfilePagePerformanceTool::read_command("s1"), "IO.read", Some(r#"{"handle":"s1"}"#));
    expect(&ProfilePagePerformanceTool::close_command("s1"), "IO.close", Some(r#"{"handle":"s1"}"#));
}

#[test]
fn trace_stream_is_read_until_eof() {
    let mut acc = String::new();
    assert!(ProfilePagePerformanceTool::on_read(&mut acc, Some(&j(r#"{"data":"[1,","eof":false}"#))));
    assert!(!ProfilePagePerformanceTool::on_read(&mut acc, Some(&j(r#"{"data":"2]","eof":true}"#))));
    assert_eq!(acc, "[1,2]");
    assert!(!ProfilePagePerformanceTool::on_read(&mut acc, None));
    assert_eq!(
        completed_stream(Some("Tracing.tracingComplete"), Some(&j(r#"{"stream":"h9"}"#))),
        Some("h9".to_string())
    );
    assert_eq!(completed_stream(Some("Tracing.dataCollected"), Some(&j(r#"{"stream":"h9"}"#))), None);
}

fn params(port: u16) -> LaunchParams {
    LaunchParams::new("127.0.0.1".to_string(), port, true, true, false)
}

#[test]
fn manager_launches_once_and_relaunches_a_dead_browser() {
    let mut m = ManagerState::new(params(9222));
    assert!(!m.running());
    assert_eq!(m.get_port(), 9222);
    // no browser: launch
    assert!(m.begin_ensure(false));
    let mut browser = FakeBrowser::new(40123);
    m.launched(browser.resolved_port);
    assert_eq!(m.get_port(), 40123);
    // live browser: keep it
    assert!(!m.begin_ensure(browser.alive));
    // dead browser: launch again
    browser.kill();
    assert!(m.begin_ensure(browser.alive));
    assert!(!m.running());
    m.launched(40200);
    // stopped: back to the configured port
    browser.stop();
    assert!(browser.stopped);
    assert_eq!(browser.stop_calls, 1);
    m.stopped();
    assert!(!m.running());
    assert_eq!(m.get_port(), 9222);
}

#[test]
fn manager_carries_proxy_and_features_into_the_next_launch() {
    let mut m = ManagerState::new(params(0));
    m.set_proxy(Some("http://proxy:8080".to_string()));
    m.set_features(vec![ChromeFeature::WebMcp]);
    assert_eq!(m.features(), &vec![ChromeFeature::WebMcp]);
    let plan = m.launch_plan();
    assert!(plan.extra_args.iter().any(|a| a == "--enable-features=WebMCPTesting"));
    assert!(wants_webmcp(m.features()));
    assert!(!wants_webmcp(&[ChromeFeature::WebglSoftware]));
}

#[test]
fn mock_manager_points_at_its_port() {
    let m = MockChromeManager::new(9333);
    assert_eq!(m.get_port(), 9333);
    assert_eq!(m.address(), "127.0.0.1:9333");
}

#[test]
fn fresh_connections_and_tabs_enable_their_domains_in_order() {
    let names: Vec<String> = connect_commands().iter().map(|c| c.method.clone()).collect();
    assert_eq!(names, vec!["Runtime.enable", "Page.enable", "Network.enable", "Log.enable", "Performance.enable"]);
    assert!(connect_commands().iter().all(|c| c.params.is_none()));
    let tab: Vec<String> = tab_enable_commands().iter().map(|c| c.method.clone()).collect();
    assert_eq!(tab, vec!["Runtime.enable", "Page.enable", "Network.enable", "Log.enable", "Debugger.enable", "WebMCP.enable"]);
}

#[test]
fn restart_and_stop_messages() {
    let r = RestartChromeTool { proxy_server: None, features: None };
    assert!(r.take_features().is_empty());
    assert_eq!(RestartChromeTool::restarted_message(&[]), "Chrome instance restarted successfully. Features: none.");
    assert_eq!(
        RestartChromeTool::restarted_message(&[ChromeFeature::WebMcp, ChromeFeature::WebglSoftware]),
        "Chrome instance restarted successfully. Features: WEB_MCP, WEBGL_SOFTWARE."
    );
    assert_eq!(StopChromeTool::stopped_message(), "Chrome instance stopped successfully.");
}

#[test]
fn tool_names_round_trip() {
    let names = [
        "capture_screenshot",
        "click_element",
        "fill_input",
        "evaluate_js",
        "navigate",
        "inspect_dom",
        "pause_on_load",
        "step_over",
        "resume",
        "search_scripts",
        "set_breakpoint",
        "evaluate_on_call_frame",
        "remove_breakpoint",
        "reload",
        "scroll",
        "restart_chrome",
        "stop_chrome",
        "open_instance",
        "list_instances",
        "close_instance",
        "open_tab",
        "list_tabs",
        "close_tab",
        "switch_tab",
        "get_network_logs",
        "get_console_logs",
        "get_performance_metrics",
        "profile_page_performance",
        "enable_proxy_auth",
        "send_cdp_command",
        "get_custom_events",
        "webmcp_list_tools",
        "webmcp_invoke_tool",
        "webmcp_get_invocation",
        "webmcp_list_invocations",
    ];
    assert_eq!(names.len(), 35);
    let mut seen = std::collections::HashSet::new();
    for name in names {
        let t = ToolName::from_name(name).unwrap();
        assert_eq!(t.name(), name);
        assert!(seen.insert(t.name()));
    }
    assert!(ToolName::from_name("no_such_tool").is_none());
    assert!(ToolName::from_name("Navigate").is_none());
}

#[test]
fn a_click_presses_then_releases_the_left_button_at_the_point() {
    let cmds = ClickElementTool::click_commands(&JsonNumber::PosInt(120), &JsonNumber::Float("45.5".to_string()));
    assert_eq!(cmds.len(), 2);
    expect(
        &cmds[0],
        "Input.dispatchMouseEvent",
        Some(r#"{"type":"mousePressed","button":"left","x":120,"y":45.5,"clickCount":1}"#),
    );
    expect(
        &cmds[1],
        "Input.dispatchMouseEvent",
        Some(r#"{"type":"mouseReleased","button":"left","x":120,"y":45.5,"clickCount":1}"#),
    );
    let shot = CaptureScreenshotTool { format: None, quality: None, full_page: Some(true) };
    expect(&shot.layout_metrics_command(), "Page.getLayoutMetrics", Some("{}"));
}

#[test]
fn scrolling_goes_to_the_element_then_by_pages_then_by_pixels() {
    let to_el = ScrollTool { x: Some(5), y: Some(6), pages: Some("1.5".to_string()), selector: Some("#a\"b".to_string()) };
    let want = "(function() {\n                    const el = document.querySelector(\"#a\\\"b\");\n                    if (el) {\n                        el.scrollIntoView({ behavior: 'instant', block: 'center' });\n                        return true;\n                    }\n                    return false;\n                })()";
    let c = to_el.scroll_command();
    assert_eq!(c.method, "Runtime.evaluate");
    assert_eq!(
        render(c.params.as_ref().unwrap()),
        render(&Json::Object(vec![("expression".to_string(), Json::Str(want.to_string())), ("returnByValue".to_string(), Json::Bool(true))]))
    );
    assert_eq!(to_el.outcome(Some(&j(r#"{"result":{"type":"boolean","value":true}}"#))), Ok("Successfully scrolled.".to_string()));
    assert_eq!(
        to_el.outcome(Some(&j(r#"{"result":{"type":"boolean","value":false}}"#))),
        Err("Element not found for scrolling: #a\"b".to_string())
    );
    let pages = ScrollTool { x: None, y: None, pages: Some("1.5".to_string()), selector: None };
    expect(
        &pages.scroll_command(),
        "Runtime.evaluate",
        Some(r#"{"expression":"window.scrollBy({ left: 0, top: window.innerHeight * 1.5, behavior: 'instant' })","returnByValue":true}"#),
    );
    let px = ScrollTool { x: Some(-20), y: None, pages: None, selector: None };
    expect(
        &px.scroll_command(),
        "Runtime.evaluate",
        Some(r#"{"expression":"window.scrollBy({ left: -20, top: 0, behavior: 'instant' })","returnByValue":true}"#),
    );
    assert_eq!(px.outcome(None), Ok("Successfully scrolled.".to_string()));
}

#[test]
fn profiling_disables_the_cache_and_restores_it() {
    let cold = ProfilePagePerformanceTool { duration_ms: None, action: Some("reload".to_string()), disable_cache: Some(true) };
    let pro = cold.prologue();
    assert_eq!(pro.len(), 1);
    expect(&pro[0], "Network.setCacheDisabled", Some(r#"{"cacheDisabled":true}"#));
    let epi = cold.epilogue();
    assert_eq!(epi.len(), 1);
    expect(&epi[0], "Network.setCacheDisabled", Some(r#"{"cacheDisabled":false}"#));
    let warm = ProfilePagePerformanceTool { duration_ms: None, action: None, disable_cache: None };
    assert!(warm.prologue().is_empty());
    assert!(warm.epilogue().is_empty());
}
