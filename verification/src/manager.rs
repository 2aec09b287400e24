//! The lifecycle of a managed browser: when to launch, which port it is
//! reached on, how a fresh connection is prepared, and the restart and stop
//! tools.
use vstd::prelude::*;
use crate::launch::{described_features, describe_features, ChromeFeature, LaunchParams, LaunchPlan};
use crate::json::JsonV;
use crate::page_tools::bare_command;
use crate::proxy_auth::{command_view, CdpCommand};
use crate::text::concat3;

verus! {

/// What the manager knows of its browser: the launch parameters, whether a
/// browser it launched is held, and the port it was last reached on.
pub struct ManagerState {
    params: LaunchParams,
    running: bool,
    resolved_port: u16,
}

impl ManagerState {
    /// A browser is held.
    pub closed spec fn is_running(&self) -> bool {
        self.running
    }

    /// The port reported to callers.
    pub closed spec fn port_view(&self) -> u16 {
        self.resolved_port
    }

    /// The launch parameters.
    pub closed spec fn params_view(&self) -> LaunchParams {
        self.params
    }

    /// A manager that holds no browser yet and reports the configured port.
    pub fn new(params: LaunchParams) -> (r: Self)
        ensures
            !r.is_running(),
            r.port_view() == params.port_view(),
            r.params_view() == params,
    {
        let resolved_port = params.configured_port();
        ManagerState { params, running: false, resolved_port }
    }

    /// The first step of `ensure_instance`: a held browser that is alive is
    /// kept; otherwise it is dropped and a launch is due.  Returns whether to
    /// launch.
    pub fn begin_ensure(&mut self, alive: bool) -> (launch: bool)
        ensures
            launch == !(old(self).is_running() && alive),
            launch ==> !final(self).is_running(),
            !launch ==> final(self).is_running(),
            final(self).port_view() == old(self).port_view(),
            final(self).params_view() == old(self).params_view(),
    {
        if self.running && alive {
            return false;
        }
        self.running = false;
        true
    }

    /// The launch parameters.
    pub fn params(&self) -> (r: &LaunchParams)
        ensures
            *r == self.params_view(),
    {
        &self.params
    }

    /// The plan of the launch.
    pub fn launch_plan(&self) -> (p: LaunchPlan)
        ensures
            p.mode == crate::launch::plan_mode_of(self.params_view()),
            p.profile == crate::launch::plan_profile_of(self.params_view()),
            p.extra_args@.map_values(|s: String| s@) == self.params_view().planned_args(),
    {
        self.params.plan()
    }

    /// A launched browser is held, reached on `port`.
    pub fn launched(&mut self, port: u16)
        ensures
            final(self).is_running(),
            final(self).port_view() == port,
            final(self).params_view() == old(self).params_view(),
    {
        self.running = true;
        self.resolved_port = port;
    }

    /// The browser was stopped: none is held and the configured port is
    /// reported again.
    pub fn stopped(&mut self)
        ensures
            !final(self).is_running(),
            final(self).port_view() == old(self).params_view().port_view(),
            final(self).params_view() == old(self).params_view(),
    {
        self.running = false;
        self.resolved_port = self.params.configured_port();
    }

    /// The port the browser is reached on.
    pub fn get_port(&self) -> (p: u16)
        ensures
            p == self.port_view(),
    {
        self.resolved_port
    }

    /// Whether a browser is held.
    pub fn running(&self) -> (b: bool)
        ensures
            b == self.is_running(),
    {
        self.running
    }

    /// The presets of the next launch.
    pub fn features(&self) -> (r: &Vec<ChromeFeature>)
        ensures
            r@ == self.params_view().features_view(),
    {
        self.params.features()
    }

    /// Replaces the presets of the next launch.
    pub fn set_features(&mut self, features: Vec<ChromeFeature>)
        ensures
            final(self).params_view().features_view() == features@,
            final(self).params_view().proxy_view() == old(self).params_view().proxy_view(),
            final(self).port_view() == old(self).port_view(),
            final(self).is_running() == old(self).is_running(),
    {
        self.params.set_features(features);
    }

    /// Replaces the proxy of the next launch.
    pub fn set_proxy(&mut self, proxy: Option<String>)
        ensures
            final(self).params_view().proxy_view() == match proxy { Some(p) => Some(p@), None => None::<Seq<char>> },
            final(self).params_view().features_view() == old(self).params_view().features_view(),
            final(self).port_view() == old(self).port_view(),
            final(self).is_running() == old(self).is_running(),
    {
        self.params.set_proxy(proxy);
    }
}

/// A stand-in browser for exercising the manager: the port it reports and
/// whether it is alive and was stopped.
pub struct FakeBrowser {
    pub resolved_port: u16,
    pub alive: bool,
    pub stopped: bool,
    pub stop_calls: u32,
}

impl FakeBrowser {
    /// A live browser on the given port that was never stopped.
    pub fn new(resolved_port: u16) -> (r: Self)
        ensures
            r.resolved_port == resolved_port,
            r.alive,
            !r.stopped,
            r.stop_calls == 0,
    {
        FakeBrowser { resolved_port, alive: true, stopped: false, stop_calls: 0 }
    }

    /// The browser dies.
    pub fn kill(&mut self)
        ensures
            !final(self).alive,
            final(self).resolved_port == old(self).resolved_port,
            final(self).stopped == old(self).stopped,
            final(self).stop_calls == old(self).stop_calls,
    {
        self.alive = false;
    }

    /// The browser is stopped; the calls are counted.
    pub fn stop(&mut self)
        ensures
            final(self).stopped,
            final(self).stop_calls == (if old(self).stop_calls == u32::MAX { 0 } else { (old(self).stop_calls + 1) as u32 }),
            final(self).alive == old(self).alive,
            final(self).resolved_port == old(self).resolved_port,
    {
        self.stop_calls = self.stop_calls.wrapping_add(1);
        self.stopped = true;
    }
}

/// A manager that only knows the port of an already running browser.
pub struct MockChromeManager {
    port: u16,
}

impl MockChromeManager {
    /// A manager for the browser on `port`.
    pub fn new(port: u16) -> (r: Self)
        ensures
            r.port_of() == port,
    {
        MockChromeManager { port }
    }

    /// The port.
    pub closed spec fn port_of(&self) -> u16 {
        self.port
    }

    /// The port.
    pub fn get_port(&self) -> (p: u16)
        ensures
            p == self.port_of(),
    {
        self.port
    }

    /// The address of the browser's DevTools endpoint.
    pub fn address(&self) -> (r: String)
        ensures
            r@ == "127.0.0.1:"@ + crate::text::decimal(self.port_of() as nat),
    {
        let n = crate::text::u64_to_decimal(self.port as u64);
        let r = concat3("127.0.0.1:", n.as_str(), "");
        proof { reveal_strlit(""); assert(r@ =~= "127.0.0.1:"@ + crate::text::decimal(self.port_of() as nat)); }
        r
    }
}

/// The domains a fresh connection enables first, in order.
pub fn connect_commands() -> (r: Vec<CdpCommand>)
    ensures
        r@.len() == 5,
        command_view(Some(r@[0])) == Some(("Runtime.enable"@, None::<JsonV>)),
        command_view(Some(r@[1])) == Some(("Page.enable"@, None::<JsonV>)),
        command_view(Some(r@[2])) == Some(("Network.enable"@, None::<JsonV>)),
        command_view(Some(r@[3])) == Some(("Log.enable"@, None::<JsonV>)),
        command_view(Some(r@[4])) == Some(("Performance.enable"@, None::<JsonV>)),
{
    let mut r: Vec<CdpCommand> = Vec::new();
    r.push(bare_command("Runtime.enable"));
    r.push(bare_command("Page.enable"));
    r.push(bare_command("Network.enable"));
    r.push(bare_command("Log.enable"));
    r.push(bare_command("Performance.enable"));
    r
}

/// The domains a newly attached tab enables, in order.
pub fn tab_enable_commands() -> (r: Vec<CdpCommand>)
    ensures
        r@.len() == 6,
        command_view(Some(r@[0])) == Some(("Runtime.enable"@, None::<JsonV>)),
        command_view(Some(r@[1])) == Some(("Page.enable"@, None::<JsonV>)),
        command_view(Some(r@[2])) == Some(("Network.enable"@, None::<JsonV>)),
        command_view(Some(r@[3])) == Some(("Log.enable"@, None::<JsonV>)),
        command_view(Some(r@[4])) == Some(("Debugger.enable"@, None::<JsonV>)),
        command_view(Some(r@[5])) == Some(("WebMCP.enable"@, None::<JsonV>)),
{
    let mut r: Vec<CdpCommand> = Vec::new();
    r.push(bare_command("Runtime.enable"));
    r.push(bare_command("Page.enable"));
    r.push(bare_command("Network.enable"));
    r.push(bare_command("Log.enable"));
    r.push(bare_command("Debugger.enable"));
    r.push(bare_command("WebMCP.enable"));
    r
}

/// Whether the presets ask for WebMCP.
pub fn wants_webmcp(features: &[ChromeFeature]) -> (b: bool)
    ensures
        b == features@.contains(ChromeFeature::WebMcp),
{
    let mut i: usize = 0;
    while i < features.len()
        invariant
            i <= features@.len(),
            forall|j: int| 0 <= j < i ==> features@[j] != ChromeFeature::WebMcp,
        decreases features@.len() - i,
    {
        if features[i] == ChromeFeature::WebMcp {
            assert(features@[i as int] == ChromeFeature::WebMcp);
            return true;
        }
        i = i + 1;
    }
    false
}

/// The arguments of `restart_chrome`.
pub struct RestartChromeTool {
    pub proxy_server: Option<String>,
    pub features: Option<Vec<ChromeFeature>>,
}

impl RestartChromeTool {
    /// The presets the restarted browser gets: none unless listed.
    pub open spec fn features_of(&self) -> Seq<ChromeFeature> {
        match self.features {
            Some(f) => f@,
            None => Seq::empty(),
        }
    }

    /// The presets, taken out of the arguments.
    pub fn take_features(&self) -> (r: Vec<ChromeFeature>)
        ensures
            r@ == self.features_of(),
    {
        match &self.features {
            Some(f) => f.clone(),
            None => Vec::new(),
        }
    }

    /// The answer once restarted, naming the presets in force.
    pub fn restarted_message(features: &[ChromeFeature]) -> (r: String)
        ensures
            r@ == "Chrome instance restarted successfully. Features: "@ + described_features(features@) + "."@,
    {
        let summary = describe_features(features);
        concat3("Chrome instance restarted successfully. Features: ", summary.as_str(), ".")
    }
}

/// The arguments of `stop_chrome`: none.
pub struct StopChromeTool {}

impl StopChromeTool {
    /// The answer once stopped.
    pub fn stopped_message() -> (r: String)
        ensures
            r@ == "Chrome instance stopped successfully."@,
    {
        "Chrome instance stopped successfully.".to_owned()
    }
}

} // verus!
