//! The tools the server offers, by the name a client calls them with.
use vstd::prelude::*;
use crate::text::str_eq;

verus! {

/// A tool of the server.
#[derive(Clone, Copy, Debug, PartialEq, Eq, Structural)]
pub enum ToolName {
    CaptureScreenshot,
    ClickElement,
    FillInput,
    EvaluateJs,
    Navigate,
    InspectDom,
    PauseOnLoad,
    StepOver,
    Resume,
    SearchScripts,
    SetBreakpoint,
    EvaluateOnCallFrame,
    RemoveBreakpoint,
    Reload,
    Scroll,
    RestartChrome,
    StopChrome,
    OpenInstance,
    ListInstances,
    CloseInstance,
    OpenTab,
    ListTabs,
    CloseTab,
    SwitchTab,
    GetNetworkLogs,
    GetConsoleLogs,
    GetPerformanceMetrics,
    ProfilePagePerformance,
    EnableProxyAuth,
    SendCdpCommand,
    GetCustomEvents,
    WebmcpListTools,
    WebmcpInvokeTool,
    WebmcpGetInvocation,
    WebmcpListInvocations,
}

/// The tool a name calls, if any.
pub open spec fn tool_of(name: Seq<char>) -> Option<ToolName> {
    if name == "capture_screenshot"@ {
        Some(ToolName::CaptureScreenshot)
    } else if name == "click_element"@ {
        Some(ToolName::ClickElement)
    } else if name == "fill_input"@ {
        Some(ToolName::FillInput)
    } else if name == "evaluate_js"@ {
        Some(ToolName::EvaluateJs)
    } else if name == "navigate"@ {
        Some(ToolName::Navigate)
    } else if name == "inspect_dom"@ {
        Some(ToolName::InspectDom)
    } else if name == "pause_on_load"@ {
        Some(ToolName::PauseOnLoad)
    } else if name == "step_over"@ {
        Some(ToolName::StepOver)
    } else if name == "resume"@ {
        Some(ToolName::Resume)
    } else if name == "search_scripts"@ {
        Some(ToolName::SearchScripts)
    } else if name == "set_breakpoint"@ {
        Some(ToolName::SetBreakpoint)
    } else if name == "evaluate_on_call_frame"@ {
        Some(ToolName::EvaluateOnCallFrame)
    } else if name == "remove_breakpoint"@ {
        Some(ToolName::RemoveBreakpoint)
    } else if name == "reload"@ {
        Some(ToolName::Reload)
    } else if name == "scroll"@ {
        Some(ToolName::Scroll)
    } else if name == "restart_chrome"@ {
        Some(ToolName::RestartChrome)
    } else if name == "stop_chrome"@ {
        Some(ToolName::StopChrome)
    } else if name == "open_instance"@ {
        Some(ToolName::OpenInstance)
    } else if name == "list_instances"@ {
        Some(ToolName::ListInstances)
    } else if name == "close_instance"@ {
        Some(ToolName::CloseInstance)
    } else if name == "open_tab"@ {
        Some(ToolName::OpenTab)
    } else if name == "list_tabs"@ {
        Some(ToolName::ListTabs)
    } else if name == "close_tab"@ {
        Some(ToolName::CloseTab)
    } else if name == "switch_tab"@ {
        Some(ToolName::SwitchTab)
    } else if name == "get_network_logs"@ {
        Some(ToolName::GetNetworkLogs)
    } else if name == "get_console_logs"@ {
        Some(ToolName::GetConsoleLogs)
    } else if name == "get_performance_metrics"@ {
        Some(ToolName::GetPerformanceMetrics)
    } else if name == "profile_page_performance"@ {
        Some(ToolName::ProfilePagePerformance)
    } else if name == "enable_proxy_auth"@ {
        Some(ToolName::EnableProxyAuth)
    } else if name == "send_cdp_command"@ {
        Some(ToolName::SendCdpCommand)
    } else if name == "get_custom_events"@ {
        Some(ToolName::GetCustomEvents)
    } else if name == "webmcp_list_tools"@ {
        Some(ToolName::WebmcpListTools)
    } else if name == "webmcp_invoke_tool"@ {
        Some(ToolName::WebmcpInvokeTool)
    } else if name == "webmcp_get_invocation"@ {
        Some(ToolName::WebmcpGetInvocation)
    } else if name == "webmcp_list_invocations"@ {
        Some(ToolName::WebmcpListInvocations)
    } else {
        None
    }
}

/// The name a client calls a tool by.
pub open spec fn name_text(t: ToolName) -> Seq<char> {
    match t {
        ToolName::CaptureScreenshot => "capture_screenshot"@,
        ToolName::ClickElement => "click_element"@,
        ToolName::FillInput => "fill_input"@,
        ToolName::EvaluateJs => "evaluate_js"@,
        ToolName::Navigate => "navigate"@,
        ToolName::InspectDom => "inspect_dom"@,
        ToolName::PauseOnLoad => "pause_on_load"@,
        ToolName::StepOver => "step_over"@,
        ToolName::Resume => "resume"@,
        ToolName::SearchScripts => "search_scripts"@,
        ToolName::SetBreakpoint => "set_breakpoint"@,
        ToolName::EvaluateOnCallFrame => "evaluate_on_call_frame"@,
        ToolName::RemoveBreakpoint => "remove_breakpoint"@,
        ToolName::Reload => "reload"@,
        ToolName::Scroll => "scroll"@,
        ToolName::RestartChrome => "restart_chrome"@,
        ToolName::StopChrome => "stop_chrome"@,
        ToolName::OpenInstance => "open_instance"@,
        ToolName::ListInstances => "list_instances"@,
        ToolName::CloseInstance => "close_instance"@,
        ToolName::OpenTab => "open_tab"@,
        ToolName::ListTabs => "list_tabs"@,
        ToolName::CloseTab => "close_tab"@,
        ToolName::SwitchTab => "switch_tab"@,
        ToolName::GetNetworkLogs => "get_network_logs"@,
        ToolName::GetConsoleLogs => "get_console_logs"@,
        ToolName::GetPerformanceMetrics => "get_performance_metrics"@,
        ToolName::ProfilePagePerformance => "profile_page_performance"@,
        ToolName::EnableProxyAuth => "enable_proxy_auth"@,
        ToolName::SendCdpCommand => "send_cdp_command"@,
        ToolName::GetCustomEvents => "get_custom_events"@,
        ToolName::WebmcpListTools => "webmcp_list_tools"@,
        ToolName::WebmcpInvokeTool => "webmcp_invoke_tool"@,
        ToolName::WebmcpGetInvocation => "webmcp_get_invocation"@,
        ToolName::WebmcpListInvocations => "webmcp_list_invocations"@,
    }
}

impl ToolName {
    /// The tool a request names; `None` for an unknown tool.
    pub fn from_name(name: &str) -> (r: Option<ToolName>)
        ensures
            r == tool_of(name@),
    {
        if str_eq(name, "capture_screenshot") {
            Some(ToolName::CaptureScreenshot)
        } else if str_eq(name, "click_element") {
            Some(ToolName::ClickElement)
        } else if str_eq(name, "fill_input") {
            Some(ToolName::FillInput)
        } else if str_eq(name, "evaluate_js") {
            Some(ToolName::EvaluateJs)
        } else if str_eq(name, "navigate") {
            Some(ToolName::Navigate)
        } else if str_eq(name, "inspect_dom") {
            Some(ToolName::InspectDom)
        } else if str_eq(name, "pause_on_load") {
            Some(ToolName::PauseOnLoad)
        } else if str_eq(name, "step_over") {
            Some(ToolName::StepOver)
        } else if str_eq(name, "resume") {
            Some(ToolName::Resume)
        } else if str_eq(name, "search_scripts") {
            Some(ToolName::SearchScripts)
        } else if str_eq(name, "set_breakpoint") {
            Some(ToolName::SetBreakpoint)
        } else if str_eq(name, "evaluate_on_call_frame") {
            Some(ToolName::EvaluateOnCallFrame)
        } else if str_eq(name, "remove_breakpoint") {
            Some(ToolName::RemoveBreakpoint)
        } else if str_eq(name, "reload") {
            Some(ToolName::Reload)
        } else if str_eq(name, "scroll") {
            Some(ToolName::Scroll)
        } else if str_eq(name, "restart_chrome") {
            Some(ToolName::RestartChrome)
        } else if str_eq(name, "stop_chrome") {
            Some(ToolName::StopChrome)
        } else if str_eq(name, "open_instance") {
            Some(ToolName::OpenInstance)
        } else if str_eq(name, "list_instances") {
            Some(ToolName::ListInstances)
        } else if str_eq(name, "close_instance") {
            Some(ToolName::CloseInstance)
        } else if str_eq(name, "open_tab") {
            Some(ToolName::OpenTab)
        } else if str_eq(name, "list_tabs") {
            Some(ToolName::ListTabs)
        } else if str_eq(name, "close_tab") {
            Some(ToolName::CloseTab)
        } else if str_eq(name, "switch_tab") {
            Some(ToolName::SwitchTab)
        } else if str_eq(name, "get_network_logs") {
            Some(ToolName::GetNetworkLogs)
        } else if str_eq(name, "get_console_logs") {
            Some(ToolName::GetConsoleLogs)
        } else if str_eq(name, "get_performance_metrics") {
            Some(ToolName::GetPerformanceMetrics)
        } else if str_eq(name, "profile_page_performance") {
            Some(ToolName::ProfilePagePerformance)
        } else if str_eq(name, "enable_proxy_auth") {
            Some(ToolName::EnableProxyAuth)
        } else if str_eq(name, "send_cdp_command") {
            Some(ToolName::SendCdpCommand)
        } else if str_eq(name, "get_custom_events") {
            Some(ToolName::GetCustomEvents)
        } else if str_eq(name, "webmcp_list_tools") {
            Some(ToolName::WebmcpListTools)
        } else if str_eq(name, "webmcp_invoke_tool") {
            Some(ToolName::WebmcpInvokeTool)
        } else if str_eq(name, "webmcp_get_invocation") {
            Some(ToolName::WebmcpGetInvocation)
        } else if str_eq(name, "webmcp_list_invocations") {
            Some(ToolName::WebmcpListInvocations)
        } else {
            None
        }
    }

    /// The name a client calls the tool by.
    pub fn name(self) -> (r: &'static str)
        ensures
            r@ == name_text(self),
    {
        match self {
            ToolName::CaptureScreenshot => "capture_screenshot",
            ToolName::ClickElement => "click_element",
            ToolName::FillInput => "fill_input",
            ToolName::EvaluateJs => "evaluate_js",
            ToolName::Navigate => "navigate",
            ToolName::InspectDom => "inspect_dom",
            ToolName::PauseOnLoad => "pause_on_load",
            ToolName::StepOver => "step_over",
            ToolName::Resume => "resume",
            ToolName::SearchScripts => "search_scripts",
            ToolName::SetBreakpoint => "set_breakpoint",
            ToolName::EvaluateOnCallFrame => "evaluate_on_call_frame",
            ToolName::RemoveBreakpoint => "remove_breakpoint",
            ToolName::Reload => "reload",
            ToolName::Scroll => "scroll",
            ToolName::RestartChrome => "restart_chrome",
            ToolName::StopChrome => "stop_chrome",
            ToolName::OpenInstance => "open_instance",
            ToolName::ListInstances => "list_instances",
            ToolName::CloseInstance => "close_instance",
            ToolName::OpenTab => "open_tab",
            ToolName::ListTabs => "list_tabs",
            ToolName::CloseTab => "close_tab",
            ToolName::SwitchTab => "switch_tab",
            ToolName::GetNetworkLogs => "get_network_logs",
            ToolName::GetConsoleLogs => "get_console_logs",
            ToolName::GetPerformanceMetrics => "get_performance_metrics",
            ToolName::ProfilePagePerformance => "profile_page_performance",
            ToolName::EnableProxyAuth => "enable_proxy_auth",
            ToolName::SendCdpCommand => "send_cdp_command",
            ToolName::GetCustomEvents => "get_custom_events",
            ToolName::WebmcpListTools => "webmcp_list_tools",
            ToolName::WebmcpInvokeTool => "webmcp_invoke_tool",
            ToolName::WebmcpGetInvocation => "webmcp_get_invocation",
            ToolName::WebmcpListInvocations => "webmcp_list_invocations",
        }
    }
}


/// Every tool is found again by its name.
pub proof fn law_tool_names_round_trip(t: ToolName)
    ensures
        tool_of(name_text(t)) == Some(t),
{
    reveal_strlit("capture_screenshot");
    reveal_strlit("click_element");
    reveal_strlit("fill_input");
    reveal_strlit("evaluate_js");
    reveal_strlit("navigate");
    reveal_strlit("inspect_dom");
    reveal_strlit("pause_on_load");
    reveal_strlit("step_over");
    reveal_strlit("resume");
    reveal_strlit("search_scripts");
    reveal_strlit("set_breakpoint");
    reveal_strlit("evaluate_on_call_frame");
    reveal_strlit("remove_breakpoint");
    reveal_strlit("reload");
    reveal_strlit("scroll");
    reveal_strlit("restart_chrome");
    reveal_strlit("stop_chrome");
    reveal_strlit("open_instance");
    reveal_strlit("list_instances");
    reveal_strlit("close_instance");
    reveal_strlit("open_tab");
    reveal_strlit("list_tabs");
    reveal_strlit("close_tab");
    reveal_strlit("switch_tab");
    reveal_strlit("get_network_logs");
    reveal_strlit("get_console_logs");
    reveal_strlit("get_performance_metrics");
    reveal_strlit("profile_page_performance");
    reveal_strlit("enable_proxy_auth");
    reveal_strlit("send_cdp_command");
    reveal_strlit("get_custom_events");
    reveal_strlit("webmcp_list_tools");
    reveal_strlit("webmcp_invoke_tool");
    reveal_strlit("webmcp_get_invocation");
    reveal_strlit("webmcp_list_invocations");
    assert("capture_screenshot"@.len() == 18);
    assert("click_element"@.len() == 13);
    assert("fill_input"@.len() == 10);
    assert("evaluate_js"@.len() == 11);
    assert("navigate"@.len() == 8);
    assert("inspect_dom"@.len() == 11);
    assert("pause_on_load"@.len() == 13);
    assert("step_over"@.len() == 9);
    assert("resume"@.len() == 6);
    assert("search_scripts"@.len() == 14);
    assert("set_breakpoint"@.len() == 14);
    assert("evaluate_on_call_frame"@.len() == 22);
    assert("remove_breakpoint"@.len() == 17);
    assert("reload"@.len() == 6);
    assert("scroll"@.len() == 6);
    assert("restart_chrome"@.len() == 14);
    assert("stop_chrome"@.len() == 11);
    assert("open_instance"@.len() == 13);
    assert("list_instances"@.len() == 14);
    assert("close_instance"@.len() == 14);
    assert("open_tab"@.len() == 8);
    assert("list_tabs"@.len() == 9);
    assert("close_tab"@.len() == 9);
    assert("switch_tab"@.len() == 10);
    assert("get_network_logs"@.len() == 16);
    assert("get_console_logs"@.len() == 16);
    assert("get_performance_metrics"@.len() == 23);
    assert("profile_page_performance"@.len() == 24);
    assert("enable_proxy_auth"@.len() == 17);
    assert("send_cdp_command"@.len() == 16);
    assert("get_custom_events"@.len() == 17);
    assert("webmcp_list_tools"@.len() == 17);
    assert("webmcp_invoke_tool"@.len() == 18);
    assert("webmcp_get_invocation"@.len() == 21);
    assert("webmcp_list_invocations"@.len() == 23);
    assert("capture_screenshot"@[0] != "webmcp_invoke_tool"@[0]);
    assert("click_element"@[0] != "pause_on_load"@[0]);
    assert("click_element"@[0] != "open_instance"@[0]);
    assert("fill_input"@[0] != "switch_tab"@[0]);
    assert("evaluate_js"@[0] != "inspect_dom"@[0]);
    assert("evaluate_js"@[0] != "stop_chrome"@[0]);
    assert("navigate"@[0] != "open_tab"@[0]);
    assert("inspect_dom"@[0] != "stop_chrome"@[0]);
    assert("pause_on_load"@[0] != "open_instance"@[0]);
    assert("step_over"@[0] != "list_tabs"@[0]);
    assert("step_over"@[0] != "close_tab"@[0]);
    assert("resume"@[2] != "reload"@[2]);
    assert("resume"@[0] != "scroll"@[0]);
    assert("search_scripts"@[2] != "set_breakpoint"@[2]);
    assert("search_scripts"@[0] != "restart_chrome"@[0]);
    assert("search_scripts"@[0] != "list_instances"@[0]);
    assert("search_scripts"@[0] != "close_instance"@[0]);
    assert("set_breakpoint"@[0] != "restart_chrome"@[0]);
    assert("set_breakpoint"@[0] != "list_instances"@[0]);
    assert("set_breakpoint"@[0] != "close_instance"@[0]);
    assert("remove_breakpoint"@[0] != "enable_proxy_auth"@[0]);
    assert("remove_breakpoint"@[0] != "get_custom_events"@[0]);
    assert("remove_breakpoint"@[0] != "webmcp_list_tools"@[0]);
    assert("reload"@[0] != "scroll"@[0]);
    assert("restart_chrome"@[0] != "list_instances"@[0]);
    assert("restart_chrome"@[0] != "close_instance"@[0]);
    assert("list_instances"@[0] != "close_instance"@[0]);
    assert("list_tabs"@[0] != "close_tab"@[0]);
    assert("get_network_logs"@[4] != "get_console_logs"@[4]);
    assert("get_network_logs"@[0] != "send_cdp_command"@[0]);
    assert("get_console_logs"@[0] != "send_cdp_command"@[0]);
    assert("get_performance_metrics"@[0] != "webmcp_list_invocations"@[0]);
    assert("enable_proxy_auth"@[0] != "get_custom_events"@[0]);
    assert("enable_proxy_auth"@[0] != "webmcp_list_tools"@[0]);
    assert("get_custom_events"@[0] != "webmcp_list_tools"@[0]);
}

} // verus!
