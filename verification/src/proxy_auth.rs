//! Proxy authentication through the DevTools `Fetch` domain: what is
//! enabled, how each paused request and each credential challenge is
//! answered, and when the handler unhooks itself.
use vstd::prelude::*;
use crate::json::{array_of, get_in, json_get, object_of, opt_str, str_in, str_json, Json, JsonV};
use crate::tabs::is_method;
use crate::text::str_eq;

verus! {

/// A DevTools command: its method, and its parameters (none at all when
/// absent).
pub struct CdpCommand {
    pub method: String,
    pub params: Option<Json>,
}

/// The arguments of `enable_proxy_auth`.
pub struct EnableProxyAuthTool {
    pub username: String,
    pub password: String,
    /// The resource type whose requests are intercepted; `Document` when absent.
    pub resource_type: Option<String>,
    /// The page loaded to trigger the first challenge; a public IP echo
    /// service when absent.
    pub prewarm_url: Option<String>,
}

/// What the `Fetch` event stream delivered next.
pub enum FetchEvent {
    /// An event, with its method and parameters.
    Event { method: Option<String>, params: Option<Json> },
    /// The stream reported an error.
    StreamError,
    /// The stream ended.
    StreamEnded,
    /// Nothing arrived for the inactivity timeout.
    TimedOut,
}

/// The handler's answer to one stream item: a command to send, and whether
/// it stops listening afterwards.
pub struct ProxyAuthStep {
    pub command: Option<CdpCommand>,
    pub stop: bool,
}

/// The model of an optional command: method and parameters.
pub open spec fn command_view(c: Option<CdpCommand>) -> Option<(Seq<char>, Option<JsonV>)> {
    match c {
        Some(cmd) => Some((cmd.method@, match cmd.params { Some(p) => Some(p@), None => None })),
        None => None,
    }
}

/// The confirmation the tool answers with.
pub open spec fn proxy_auth_ready_text() -> Seq<char> {
    "Proxy authentication is configured and active (30s timeout). Pre-warming initiated."@
}

/// The confirmation the tool answers with.
pub fn proxy_auth_ready_message() -> (r: String)
    ensures
        r@ == proxy_auth_ready_text(),
{
    "Proxy authentication is configured and active (30s timeout). Pre-warming initiated.".to_owned()
}

impl EnableProxyAuthTool {
    /// The pre-warm URL.
    pub open spec fn prewarm_url_of(&self) -> Seq<char> {
        match self.prewarm_url {
            Some(u) => u@,
            None => "http://api.ipify.org?format=json"@,
        }
    }

    /// The intercepted resource type.
    pub open spec fn resource_type_of(&self) -> Seq<char> {
        match self.resource_type {
            Some(t) => t@,
            None => "Document"@,
        }
    }

    /// The parameters of `Fetch.enable`: one pattern for every URL of the
    /// resource type at the request stage, with authentication requests
    /// handled.
    pub open spec fn enable_params_of(&self) -> JsonV {
        JsonV::Object(seq![
            ("patterns"@, JsonV::Array(seq![JsonV::Object(seq![
                ("urlPattern"@, JsonV::Str("*"@)),
                ("resourceType"@, JsonV::Str(self.resource_type_of())),
                ("requestStage"@, JsonV::Str("Request"@)),
            ])])),
            ("handleAuthRequests"@, JsonV::Bool(true)),
        ])
    }

    /// The command that enables interception.
    pub fn enable_command(&self) -> (r: CdpCommand)
        ensures
            command_view(Some(r)) == Some(("Fetch.enable"@, Some(self.enable_params_of()))),
    {
        let rt = match &self.resource_type {
            Some(t) => t.clone(),
            None => "Document".to_owned(),
        };
        let mut pattern: Vec<(String, Json)> = Vec::new();
        pattern.push(("urlPattern".to_owned(), str_json("*")));
        pattern.push(("resourceType".to_owned(), Json::Str(rt)));
        pattern.push(("requestStage".to_owned(), str_json("Request")));
        let ghost pe = seq![
            ("urlPattern"@, JsonV::Str("*"@)),
            ("resourceType"@, JsonV::Str(self.resource_type_of())),
            ("requestStage"@, JsonV::Str("Request"@)),
        ];
        let pattern = object_of(pattern, Ghost(pe));
        let mut patterns: Vec<Json> = Vec::new();
        patterns.push(pattern);
        let ghost ae = seq![JsonV::Object(pe)];
        let patterns = array_of(patterns, Ghost(ae));
        let mut m: Vec<(String, Json)> = Vec::new();
        m.push(("patterns".to_owned(), patterns));
        m.push(("handleAuthRequests".to_owned(), Json::Bool(true)));
        let ghost me = seq![
            ("patterns"@, JsonV::Array(ae)),
            ("handleAuthRequests"@, JsonV::Bool(true)),
        ];
        CdpCommand { method: "Fetch.enable".to_owned(), params: Some(object_of(m, Ghost(me))) }
    }

    /// The navigation that triggers the first challenge.
    pub fn prewarm_command(&self) -> (r: CdpCommand)
        ensures
            command_view(Some(r)) == Some(("Page.navigate"@, Some(JsonV::Object(seq![("url"@, JsonV::Str(self.prewarm_url_of()))])))),
    {
        let url = match &self.prewarm_url {
            Some(u) => u.clone(),
            None => "http://api.ipify.org?format=json".to_owned(),
        };
        let mut m: Vec<(String, Json)> = Vec::new();
        m.push(("url".to_owned(), Json::Str(url)));
        let ghost e = seq![("url"@, JsonV::Str(self.prewarm_url_of()))];
        CdpCommand { method: "Page.navigate".to_owned(), params: Some(object_of(m, Ghost(e))) }
    }

    /// The answer to a credential challenge for a request.
    pub open spec fn auth_params_of(&self, request_id: Seq<char>) -> JsonV {
        JsonV::Object(seq![
            ("requestId"@, JsonV::Str(request_id)),
            ("authChallengeResponse"@, JsonV::Object(seq![
                ("response"@, JsonV::Str("ProvideCredentials"@)),
                ("username"@, JsonV::Str(self.username@)),
                ("password"@, JsonV::Str(self.password@)),
            ])),
        ])
    }

    /// What one stream item calls for: a paused request is let through, a
    /// credential challenge is answered with the credentials, other events
    /// are passed over; an error or the end of the stream stops the handler,
    /// and so does the inactivity timeout, after disabling interception.
    pub fn on_fetch_event(&self, event: &FetchEvent) -> (r: ProxyAuthStep)
        ensures
            match event {
                FetchEvent::Event { method, params } => {
                    let id = opt_str(match params { Some(p) => json_get(p@, "requestId"@), None => None });
                    &&& !r.stop
                    &&& command_view(r.command) == if method matches Some(m) && m@ == "Fetch.requestPaused"@ && id is Some {
                        Some(("Fetch.continueRequest"@, Some(JsonV::Object(seq![("requestId"@, JsonV::Str(id->0))]))))
                    } else if method matches Some(m) && m@ == "Fetch.authRequired"@ && id is Some {
                        Some(("Fetch.continueWithAuth"@, Some(self.auth_params_of(id->0))))
                    } else {
                        None
                    }
                },
                FetchEvent::TimedOut => r.stop && command_view(r.command) == Some(("Fetch.disable"@, None::<JsonV>)),
                _ => r.stop && r.command is None,
            },
    {
        match event {
            FetchEvent::Event { method, params } => {
                let id = match params {
                    Some(p) => str_in(p.get("requestId")),
                    None => None,
                };
                let m = match method {
                    Some(m) => m.as_str(),
                    None => return ProxyAuthStep { command: None, stop: false },
                };
                let req = match id {
                    Some(i) => i,
                    None => return ProxyAuthStep { command: None, stop: false },
                };
                if str_eq(m, "Fetch.requestPaused") {
                    let mut o: Vec<(String, Json)> = Vec::new();
                    o.push(("requestId".to_owned(), str_json(req)));
                    let ghost e = seq![("requestId"@, JsonV::Str(req@))];
                    let params = object_of(o, Ghost(e));
                    ProxyAuthStep { command: Some(CdpCommand { method: "Fetch.continueRequest".to_owned(), params: Some(params) }), stop: false }
                } else if str_eq(m, "Fetch.authRequired") {
                    proof { reveal_strlit("Fetch.requestPaused"); reveal_strlit("Fetch.authRequired"); }
                    let mut c: Vec<(String, Json)> = Vec::new();
                    c.push(("response".to_owned(), str_json("ProvideCredentials")));
                    c.push(("username".to_owned(), str_json(self.username.as_str())));
                    c.push(("password".to_owned(), str_json(self.password.as_str())));
                    let ghost ce = seq![
                        ("response"@, JsonV::Str("ProvideCredentials"@)),
                        ("username"@, JsonV::Str(self.username@)),
                        ("password"@, JsonV::Str(self.password@)),
                    ];
                    let challenge = object_of(c, Ghost(ce));
                    let mut o: Vec<(String, Json)> = Vec::new();
                    o.push(("requestId".to_owned(), str_json(req)));
                    o.push(("authChallengeResponse".to_owned(), challenge));
                    let ghost e = seq![
                        ("requestId"@, JsonV::Str(req@)),
                        ("authChallengeResponse"@, JsonV::Object(ce)),
                    ];
                    let params = object_of(o, Ghost(e));
                    ProxyAuthStep { command: Some(CdpCommand { method: "Fetch.continueWithAuth".to_owned(), params: Some(params) }), stop: false }
                } else {
                    ProxyAuthStep { command: None, stop: false }
                }
            },
            FetchEvent::TimedOut => ProxyAuthStep {
                command: Some(CdpCommand { method: "Fetch.disable".to_owned(), params: None }),
                stop: true,
            },
            _ => ProxyAuthStep { command: None, stop: true },
        }
    }
}

} // verus!
