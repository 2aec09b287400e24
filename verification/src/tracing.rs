//! Page profiling: the commands that record a trace, how the trace stream
//! is read back, and the event that announces it.
use vstd::prelude::*;
use crate::json::{get_in, json_bool, json_get, object_of, opt_get, opt_str, opt_view, str_in, str_json, Json, JsonV};
use crate::proxy_auth::{command_view, CdpCommand};
use crate::tabs::is_method;
use crate::text::str_eq;

verus! {

/// The arguments of `profile_page_performance`.
pub struct ProfilePagePerformanceTool {
    /// How long to record, in milliseconds; 3000 when absent.
    pub duration_ms: Option<u64>,
    /// `reload` to reload the page once recording starts.
    pub action: Option<String>,
    /// Disable the network cache while recording.
    pub disable_cache: Option<bool>,
}

/// The trace categories recorded.
pub open spec fn trace_categories() -> Seq<char> {
    "devtools.timeline,v8.execute,blink.user_timing,blink,cc,gpu,toplevel"@
}

/// A command with one boolean parameter.
fn flag_command(method: &str, key: &str, value: bool) -> (r: CdpCommand)
    ensures
        command_view(Some(r)) == Some((method@, Some(JsonV::Object(seq![(key@, JsonV::Bool(value))])))),
{
    let mut m: Vec<(String, Json)> = Vec::new();
    m.push((key.to_owned(), Json::Bool(value)));
    let ghost e = seq![(key@, JsonV::Bool(value))];
    CdpCommand { method: method.to_owned(), params: Some(object_of(m, Ghost(e))) }
}

/// A command on a stream handle.
fn handle_command(method: &str, handle: &str) -> (r: CdpCommand)
    ensures
        command_view(Some(r)) == Some((method@, Some(JsonV::Object(seq![("handle"@, JsonV::Str(handle@))])))),
{
    let mut m: Vec<(String, Json)> = Vec::new();
    m.push(("handle".to_owned(), str_json(handle)));
    let ghost e = seq![("handle"@, JsonV::Str(handle@))];
    CdpCommand { method: method.to_owned(), params: Some(object_of(m, Ghost(e))) }
}

impl ProfilePagePerformanceTool {
    /// The recording time: the requested one kept between 500 and 15000.
    pub open spec fn duration_of(&self) -> u64 {
        let d = match self.duration_ms { Some(d) => d, None => 3000 };
        if d < 500 { 500 } else if d > 15000 { 15000 } else { d }
    }

    /// Whether the cache is disabled while recording.
    pub open spec fn cache_off(&self) -> bool {
        self.disable_cache == Some(true)
    }

    /// The recording time.
    pub fn duration(&self) -> (d: u64)
        ensures
            d == self.duration_of(),
    {
        let d = match self.duration_ms { Some(d) => d, None => 3000 };
        if d < 500 { 500 } else if d > 15000 { 15000 } else { d }
    }

    /// Whether the cache is disabled while recording.
    pub fn disables_cache(&self) -> (b: bool)
        ensures
            b == self.cache_off(),
    {
        match self.disable_cache { Some(b) => b, None => false }
    }

    /// The command that disables the network cache, or enables it again.
    pub fn cache_command(disabled: bool) -> (r: CdpCommand)
        ensures
            command_view(Some(r)) == Some(("Network.setCacheDisabled"@, Some(JsonV::Object(seq![("cacheDisabled"@, JsonV::Bool(disabled))])))),
    {
        flag_command("Network.setCacheDisabled", "cacheDisabled", disabled)
    }

    /// What is sent before recording starts: the network cache disabled,
    /// when that was asked for.
    pub fn prologue(&self) -> (r: Vec<CdpCommand>)
        ensures
            r@.len() == (if self.cache_off() { 1int } else { 0int }),
            self.cache_off() ==> command_view(Some(r@[0])) == Some(("Network.setCacheDisabled"@, Some(JsonV::Object(seq![("cacheDisabled"@, JsonV::Bool(true))])))),
    {
        let mut r: Vec<CdpCommand> = Vec::new();
        if self.disables_cache() {
            r.push(Self::cache_command(true));
        }
        r
    }

    /// What is sent when profiling ends, whether it succeeded or failed once
    /// the prologue was sent: the network cache enabled again, when it was
    /// disabled.
    pub fn epilogue(&self) -> (r: Vec<CdpCommand>)
        ensures
            r@.len() == (if self.cache_off() { 1int } else { 0int }),
            self.cache_off() ==> command_view(Some(r@[0])) == Some(("Network.setCacheDisabled"@, Some(JsonV::Object(seq![("cacheDisabled"@, JsonV::Bool(false))])))),
    {
        let mut r: Vec<CdpCommand> = Vec::new();
        if self.disables_cache() {
            r.push(Self::cache_command(false));
        }
        r
    }

    /// The command that starts recording into a stream.
    pub fn start_command() -> (r: CdpCommand)
        ensures
            command_view(Some(r)) == Some(("Tracing.start"@, Some(JsonV::Object(seq![
                ("transferMode"@, JsonV::Str("ReturnAsStream"@)),
                ("categories"@, JsonV::Str(trace_categories())),
            ])))),
    {
        let mut m: Vec<(String, Json)> = Vec::new();
        m.push(("transferMode".to_owned(), str_json("ReturnAsStream")));
        m.push(("categories".to_owned(), str_json("devtools.timeline,v8.execute,blink.user_timing,blink,cc,gpu,toplevel")));
        let ghost e = seq![
            ("transferMode"@, JsonV::Str("ReturnAsStream"@)),
            ("categories"@, JsonV::Str(trace_categories())),
        ];
        CdpCommand { method: "Tracing.start".to_owned(), params: Some(object_of(m, Ghost(e))) }
    }

    /// The action right after recording starts: a reload, bypassing the
    /// cache when it is disabled, when `reload` was asked for.
    pub fn action_command(&self) -> (r: Option<CdpCommand>)
        ensures
            (self.action matches Some(a) && a@ == "reload"@) ==> command_view(r) == Some(("Page.reload"@, Some(JsonV::Object(seq![("ignoreCache"@, JsonV::Bool(self.cache_off()))])))),
            !(self.action matches Some(a) && a@ == "reload"@) ==> r is None,
    {
        match &self.action {
            Some(a) => if str_eq(a.as_str(), "reload") {
                Some(flag_command("Page.reload", "ignoreCache", self.disables_cache()))
            } else {
                None
            },
            None => None,
        }
    }

    /// The command that stops recording.
    pub fn end_command() -> (r: CdpCommand)
        ensures
            command_view(Some(r)) == Some(("Tracing.end"@, Some(JsonV::Object(Seq::empty())))),
    {
        crate::page_tools::empty_params_command("Tracing.end")
    }

    /// The command that reads the next chunk of the stream.
    pub fn read_command(handle: &str) -> (r: CdpCommand)
        ensures
            command_view(Some(r)) == Some(("IO.read"@, Some(JsonV::Object(seq![("handle"@, JsonV::Str(handle@))])))),
    {
        handle_command("IO.read", handle)
    }

    /// The command that closes the stream.
    pub fn close_command(handle: &str) -> (r: CdpCommand)
        ensures
            command_view(Some(r)) == Some(("IO.close"@, Some(JsonV::Object(seq![("handle"@, JsonV::Str(handle@))])))),
    {
        handle_command("IO.close", handle)
    }

    /// Takes one read of the stream: its data is appended; reading goes on
    /// until a read fails, has no result, or reports the end of the stream.
    /// Returns whether to read again.
    pub fn on_read(acc: &mut String, result: Option<&Json>) -> (more: bool)
        ensures
            final(acc)@ == old(acc)@ + match opt_str(opt_get(opt_view(result), "data"@)) { Some(d) => d, None => Seq::empty() },
            more == (result is Some && !(opt_get(opt_view(result), "eof"@) matches Some(e) && json_bool(e) == Some(true))),
    {
        let r = match result {
            Some(r) => r,
            None => {
                assert(old(acc)@ + Seq::<char>::empty() =~= old(acc)@);
                return false;
            },
        };
        match str_in(r.get("data")) {
            Some(d) => acc.append(d),
            None => {
                assert(acc@ + Seq::<char>::empty() =~= acc@);
            },
        }
        match r.get("eof") {
            Some(e) => match e.as_bool() {
                Some(true) => false,
                _ => true,
            },
            None => true,
        }
    }
}

/// The stream named by a `Tracing.tracingComplete` event.
pub fn completed_stream(method: Option<&str>, params: Option<&Json>) -> (r: Option<String>)
    ensures
        match r {
            Some(s) => is_method(method, "Tracing.tracingComplete"@) && params is Some
                && opt_str(json_get(params->0@, "stream"@)) == Some(s@),
            None => !(is_method(method, "Tracing.tracingComplete"@) && params is Some
                && opt_str(json_get(params->0@, "stream"@)) is Some),
        },
{
    match (method, params) {
        (Some(m), Some(p)) => if str_eq(m, "Tracing.tracingComplete") {
            match str_in(p.get("stream")) {
                Some(s) => Some(s.to_owned()),
                None => None,
            }
        } else {
            None
        },
        _ => None,
    }
}

} // verus!
