//! The network cache: HTTP requests and WebSocket frames as DevTools reports
//! them, and how each `Network.*` event changes the cache.
use vstd::prelude::*;
use crate::json::{get_in, str_in, json_get, json_str, json_i64, opt_view, owned_view, Json, JsonV};
use crate::strmap::{Duplicate, StrMap};
use crate::text::str_eq;

verus! {

/// The characters of an optional string.
pub open spec fn ostr(o: Option<String>) -> Option<Seq<char>> {
    match o {
        Some(s) => Some(s@),
        None => None,
    }
}

/// The characters of an optional string, or the empty text.
pub open spec fn str_or_empty(o: Option<Seq<char>>) -> Seq<char> {
    match o {
        Some(s) => s,
        None => Seq::empty(),
    }
}

/// One HTTP request and, once it arrives, its response.
pub struct NetworkRequest {
    pub url: String,
    pub method: String,
    pub resource_type: Option<String>,
    pub request_headers: Option<Json>,
    pub request_post_data: Option<String>,
    pub response_status: Option<i64>,
    pub response_status_text: Option<String>,
    pub response_headers: Option<Json>,
    pub response_body: Option<String>,
}

/// The model of a request.
pub struct RequestV {
    pub url: Seq<char>,
    pub method: Seq<char>,
    pub resource_type: Option<Seq<char>>,
    pub request_headers: Option<JsonV>,
    pub request_post_data: Option<Seq<char>>,
    pub response_status: Option<i64>,
    pub response_status_text: Option<Seq<char>>,
    pub response_headers: Option<JsonV>,
    pub response_body: Option<Seq<char>>,
}

impl View for NetworkRequest {
    type V = RequestV;

    open spec fn view(&self) -> RequestV {
        RequestV {
            url: self.url@,
            method: self.method@,
            resource_type: ostr(self.resource_type),
            request_headers: owned_view(self.request_headers),
            request_post_data: ostr(self.request_post_data),
            response_status: self.response_status,
            response_status_text: ostr(self.response_status_text),
            response_headers: owned_view(self.response_headers),
            response_body: ostr(self.response_body),
        }
    }
}

/// Copies an optional string.
pub fn copy_opt_string(o: &Option<String>) -> (r: Option<String>)
    ensures
        ostr(r) == ostr(*o),
{
    match o {
        Some(s) => Some(s.clone()),
        None => None,
    }
}

/// Copies an optional JSON value.
pub fn copy_opt_json(o: &Option<Json>) -> (r: Option<Json>)
    ensures
        owned_view(r) == owned_view(*o),
{
    match o {
        Some(j) => Some(j.duplicate()),
        None => None,
    }
}

/// An owned copy of a borrowed optional string.
pub fn own_opt_str(o: Option<&str>) -> (r: Option<String>)
    ensures
        ostr(r) == match o { Some(s) => Some(s@), None => None::<Seq<char>> },
{
    match o {
        Some(s) => Some(s.to_owned()),
        None => None,
    }
}

/// An owned copy of a borrowed optional JSON value.
pub fn own_opt_json(o: Option<&Json>) -> (r: Option<Json>)
    ensures
        owned_view(r) == opt_view(o),
{
    match o {
        Some(j) => Some(j.duplicate()),
        None => None,
    }
}

/// An owned copy of a borrowed optional string, or the empty string.
pub fn own_or_empty(o: Option<&str>) -> (r: String)
    ensures
        r@ == str_or_empty(match o { Some(s) => Some(s@), None => None::<Seq<char>> }),
{
    match o {
        Some(s) => s.to_owned(),
        None => String::new(),
    }
}

impl Duplicate for NetworkRequest {
    fn duplicate(&self) -> (r: Self) {
        NetworkRequest {
            url: self.url.clone(),
            method: self.method.clone(),
            resource_type: copy_opt_string(&self.resource_type),
            request_headers: copy_opt_json(&self.request_headers),
            request_post_data: copy_opt_string(&self.request_post_data),
            response_status: self.response_status,
            response_status_text: copy_opt_string(&self.response_status_text),
            response_headers: copy_opt_json(&self.response_headers),
            response_body: copy_opt_string(&self.response_body),
        }
    }
}

/// One WebSocket frame.
pub struct WebSocketFrame {
    pub url: String,
    pub payload_data: String,
    pub is_sent: bool,
}

/// The model of a frame.
pub struct FrameV {
    pub url: Seq<char>,
    pub payload_data: Seq<char>,
    pub is_sent: bool,
}

impl View for WebSocketFrame {
    type V = FrameV;

    open spec fn view(&self) -> FrameV {
        FrameV { url: self.url@, payload_data: self.payload_data@, is_sent: self.is_sent }
    }
}

impl WebSocketFrame {
    /// An equal copy.
    pub fn copy(&self) -> (r: Self)
        ensures
            r == *self,
    {
        WebSocketFrame { url: self.url.clone(), payload_data: self.payload_data.clone(), is_sent: self.is_sent }
    }
}

/// The models of a list of frames.
pub open spec fn frames_view(v: Seq<WebSocketFrame>) -> Seq<FrameV> {
    v.map_values(|f: WebSocketFrame| f@)
}

impl Duplicate for Vec<WebSocketFrame> {
    fn duplicate(&self) -> (r: Self) {
        let mut r: Vec<WebSocketFrame> = Vec::new();
        let mut i: usize = 0;
        while i < self.len()
            invariant
                i <= self@.len(),
                r@.len() == i,
                forall|j: int| 0 <= j < i ==> #[trigger] r@[j] == self@[j],
            decreases self@.len() - i,
        {
            r.push(self[i].copy());
            i = i + 1;
        }
        assert(r@ =~= self@);
        r
    }
}

/// The cache of one page's network activity: requests by id, WebSocket
/// URLs by connection id, and each connection's frames in arrival order.
pub struct NetworkState {
    pub requests: StrMap<NetworkRequest>,
    pub ws_connections: StrMap<String>,
    pub ws_frames: StrMap<Vec<WebSocketFrame>>,
}

/// The model of the cache.
pub struct NetworkStateV {
    pub requests: Map<Seq<char>, RequestV>,
    pub ws_connections: Map<Seq<char>, Seq<char>>,
    pub ws_frames: Map<Seq<char>, Seq<FrameV>>,
}

impl View for NetworkState {
    type V = NetworkStateV;

    open spec fn view(&self) -> NetworkStateV {
        NetworkStateV {
            requests: self.requests@.map_values(|r: NetworkRequest| r@),
            ws_connections: self.ws_connections@.map_values(|s: String| s@),
            ws_frames: self.ws_frames@.map_values(|v: Vec<WebSocketFrame>| frames_view(v@)),
        }
    }
}

/// The request that `Network.requestWillBeSent` with parameters `p` records.
pub open spec fn sent_request(p: JsonV) -> Option<(Seq<char>, RequestV)> {
    match (json_str_of(p, "requestId"@), json_get(p, "request"@)) {
        (Some(id), Some(req)) => Some((id, RequestV {
            url: str_or_empty(json_str_of(req, "url"@)),
            method: str_or_empty(json_str_of(req, "method"@)),
            resource_type: None,
            request_headers: json_get(req, "headers"@),
            request_post_data: json_str_of(req, "postData"@),
            response_status: None,
            response_status_text: None,
            response_headers: None,
            response_body: None,
        })),
        _ => None,
    }
}

/// `p.get(key).and_then(as_str)`.
pub open spec fn json_str_of(p: JsonV, key: Seq<char>) -> Option<Seq<char>> {
    match json_get(p, key) {
        Some(v) => json_str(v),
        None => None,
    }
}

/// `p.get(key).and_then(as_i64)`.
pub open spec fn json_i64_of(p: JsonV, key: Seq<char>) -> Option<i64> {
    match json_get(p, key) {
        Some(v) => json_i64(v),
        None => None,
    }
}

/// A request updated with the response that `Network.responseReceived`
/// reports: status, status text and headers replaced, the resource type set
/// when it was not known yet.
pub open spec fn with_response(r: RequestV, r_type: Option<Seq<char>>, res: JsonV) -> RequestV {
    RequestV {
        response_status: json_i64_of(res, "status"@),
        response_status_text: json_str_of(res, "statusText"@),
        response_headers: json_get(res, "headers"@),
        resource_type: if r.resource_type is None { r_type } else { r.resource_type },
        ..r
    }
}

/// The frames of a connection after one more frame.
pub open spec fn frames_after(st: NetworkStateV, id: Seq<char>, frame: FrameV) -> Seq<FrameV> {
    if st.ws_frames.contains_key(id) {
        st.ws_frames[id].push(frame)
    } else {
        seq![frame]
    }
}

/// The frame that `Network.webSocketFrameSent`/`Received` records.
pub open spec fn frame_of(st: NetworkStateV, id: Seq<char>, response: JsonV, is_sent: bool) -> FrameV {
    FrameV {
        url: if st.ws_connections.contains_key(id) { st.ws_connections[id] } else { Seq::empty() },
        payload_data: str_or_empty(json_str_of(response, "payloadData"@)),
        is_sent: is_sent,
    }
}

/// The cache after a frame event.
pub open spec fn after_frame(st: NetworkStateV, p: JsonV, is_sent: bool) -> NetworkStateV {
    match (json_str_of(p, "requestId"@), json_get(p, "response"@)) {
        (Some(id), Some(response)) => NetworkStateV {
            ws_frames: st.ws_frames.insert(id, frames_after(st, id, frame_of(st, id, response, is_sent))),
            ..st
        },
        _ => st,
    }
}

/// The cache after one DevTools event of the `Network` domain; events of other
/// methods, and events without a method or parameters, leave it unchanged.
pub open spec fn network_after(st: NetworkStateV, method: Option<Seq<char>>, params: Option<JsonV>) -> NetworkStateV {
    match (method, params) {
        (Some(m), Some(p)) => {
            if m == "Network.requestWillBeSent"@ {
                match sent_request(p) {
                    Some((id, r)) => NetworkStateV { requests: st.requests.insert(id, r), ..st },
                    None => st,
                }
            } else if m == "Network.responseReceived"@ {
                match (json_str_of(p, "requestId"@), json_get(p, "response"@)) {
                    (Some(id), Some(res)) => if st.requests.contains_key(id) {
                        NetworkStateV {
                            requests: st.requests.insert(id, with_response(st.requests[id], json_str_of(p, "type"@), res)),
                            ..st
                        }
                    } else {
                        st
                    },
                    _ => st,
                }
            } else if m == "Network.webSocketCreated"@ {
                match json_str_of(p, "requestId"@) {
                    Some(id) => NetworkStateV {
                        ws_connections: st.ws_connections.insert(id, str_or_empty(json_str_of(p, "url"@))),
                        ..st
                    },
                    None => st,
                }
            } else if m == "Network.webSocketFrameSent"@ {
                after_frame(st, p, true)
            } else if m == "Network.webSocketFrameReceived"@ {
                after_frame(st, p, false)
            } else {
                st
            }
        },
        _ => st,
    }
}

/// `p.get(key).and_then(|v| v.as_str())` on a value.
fn str_member<'a>(p: &'a Json, key: &str) -> (r: Option<&'a str>)
    ensures
        match r {
            Some(s) => json_str_of(p@, key@) == Some(s@),
            None => json_str_of(p@, key@) is None,
        },
{
    str_in(p.get(key))
}

/// `p.get(key).and_then(|v| v.as_i64())` on a value.
fn i64_member(p: &Json, key: &str) -> (r: Option<i64>)
    ensures
        r == json_i64_of(p@, key@),
{
    match p.get(key) {
        Some(v) => v.as_i64(),
        None => None,
    }
}

impl NetworkState {
    /// Well-formedness of the three maps.
    pub open spec fn wf(&self) -> bool {
        self.requests.wf() && self.ws_connections.wf() && self.ws_frames.wf()
    }

    /// An empty cache.
    pub fn new() -> (s: NetworkState)
        ensures
            s.wf(),
            s@.requests == Map::<Seq<char>, RequestV>::empty(),
            s@.ws_connections == Map::<Seq<char>, Seq<char>>::empty(),
            s@.ws_frames == Map::<Seq<char>, Seq<FrameV>>::empty(),
    {
        let s = NetworkState { requests: StrMap::new(), ws_connections: StrMap::new(), ws_frames: StrMap::new() };
        assert(s@.requests =~= Map::<Seq<char>, RequestV>::empty());
        assert(s@.ws_connections =~= Map::<Seq<char>, Seq<char>>::empty());
        assert(s@.ws_frames =~= Map::<Seq<char>, Seq<FrameV>>::empty());
        s
    }

    /// Records one DevTools event of the `Network` domain.
    pub fn process_network_event(&mut self, method: Option<&str>, params: Option<&Json>)
        requires
            old(self).wf(),
        ensures
            final(self).wf(),
            final(self)@ == network_after(
                old(self)@,
                match method { Some(m) => Some(m@), None => None::<Seq<char>> },
                opt_view(params),
            ),
    {
        let m = match method {
            Some(m) => m,
            None => return,
        };
        let p = match params {
            Some(p) => p,
            None => return,
        };
        let ghost st = self@;
        if str_eq(m, "Network.requestWillBeSent") {
            if let (Some(id), Some(req)) = (str_member(p, "requestId"), p.get("request")) {
                let r = NetworkRequest {
                    url: own_or_empty(str_member(req, "url")),
                    method: own_or_empty(str_member(req, "method")),
                    resource_type: None,
                    request_headers: own_opt_json(req.get("headers")),
                    request_post_data: own_opt_str(str_member(req, "postData")),
                    response_status: None,
                    response_status_text: None,
                    response_headers: None,
                    response_body: None,
                };
                let ghost rv = r@;
                self.requests.insert(id.to_owned(), r);
                proof {
                    assert(self@.requests =~= st.requests.insert(id@, rv));
                }
            }
        } else if str_eq(m, "Network.responseReceived") {
            if let Some(id) = str_member(p, "requestId") {
                let r_type = own_opt_str(str_member(p, "type"));
                if let Some(res) = p.get("response") {
                    if let Some(i) = self.requests.index_of(id) {
                        proof { self.requests.lemma_wf(); }
                        let (_k, old_req) = self.requests.entry_at(i);
                        let resource_type = if old_req.resource_type.is_none() { r_type } else { copy_opt_string(&old_req.resource_type) };
                        let updated = NetworkRequest {
                            url: old_req.url.clone(),
                            method: old_req.method.clone(),
                            resource_type,
                            request_headers: copy_opt_json(&old_req.request_headers),
                            request_post_data: copy_opt_string(&old_req.request_post_data),
                            response_status: i64_member(res, "status"),
                            response_status_text: own_opt_str(str_member(res, "statusText")),
                            response_headers: own_opt_json(res.get("headers")),
                            response_body: copy_opt_string(&old_req.response_body),
                        };
                        let ghost uv = updated@;
                        assert(uv == with_response(st.requests[id@], ostr(r_type), res@));
                        self.requests.replace_value(i, updated);
                        proof {
                            assert(self@.requests =~= st.requests.insert(id@, uv));
                        }
                    }
                }
            }
        } else if str_eq(m, "Network.webSocketCreated") {
            if let Some(id) = str_member(p, "requestId") {
                let url = own_or_empty(str_member(p, "url"));
                let ghost uv = url@;
                self.ws_connections.insert(id.to_owned(), url);
                proof {
                    assert(self@.ws_connections =~= st.ws_connections.insert(id@, uv));
                }
            }
        } else if str_eq(m, "Network.webSocketFrameSent") {
            self.record_frame(p, true);
        } else if str_eq(m, "Network.webSocketFrameReceived") {
            self.record_frame(p, false);
        }
    }

    /// Records a frame event's frame under its connection.
    fn record_frame(&mut self, p: &Json, is_sent: bool)
        requires
            old(self).wf(),
        ensures
            final(self).wf(),
            final(self)@ == after_frame(old(self)@, p@, is_sent),
    {
        let ghost st = self@;
        if let (Some(id), Some(response)) = (str_member(p, "requestId"), p.get("response")) {
            let payload_data = own_or_empty(str_member(response, "payloadData"));
            let url = match self.ws_connections.get(id) {
                Some(u) => u.clone(),
                None => String::new(),
            };
            let frame = WebSocketFrame { url, payload_data, is_sent };
            let ghost fv = frame@;
            assert(fv == frame_of(st, id@, response@, is_sent));
            match self.ws_frames.index_of(id) {
                Some(i) => {
                    proof { self.ws_frames.lemma_wf(); }
                    let mut frames = self.ws_frames.replace_value(i, Vec::new());
                    let ghost before = frames@;
                    frames.push(frame);
                    let ghost fvs = frames_view(frames@);
                    assert(fvs =~= frames_view(before).push(fv));
                    self.ws_frames.replace_value(i, frames);
                    proof {
                        assert(self@.ws_frames =~= st.ws_frames.insert(id@, frames_after(st, id@, fv)));
                    }
                },
                None => {
                    let mut frames: Vec<WebSocketFrame> = Vec::new();
                    frames.push(frame);
                    let ghost fvs = frames_view(frames@);
                    assert(fvs =~= seq![fv]);
                    self.ws_frames.insert(id.to_owned(), frames);
                    proof {
                        assert(self@.ws_frames =~= st.ws_frames.insert(id@, frames_after(st, id@, fv)));
                    }
                },
            }
        }
    }
}


/// An event touches at most the entry of the request or connection it
/// names: every other request, connection and frame list stays as it was.
pub proof fn law_network_event_touches_only_its_id(st: NetworkStateV, method: Option<Seq<char>>, params: Option<JsonV>, k: Seq<char>)
    requires
        params is Some ==> json_str_of(params->0, "requestId"@) != Some(k),
    ensures
        network_after(st, method, params).requests.contains_key(k) == st.requests.contains_key(k),
        st.requests.contains_key(k) ==> network_after(st, method, params).requests[k] == st.requests[k],
        network_after(st, method, params).ws_connections.contains_key(k) == st.ws_connections.contains_key(k),
        st.ws_connections.contains_key(k) ==> network_after(st, method, params).ws_connections[k] == st.ws_connections[k],
        network_after(st, method, params).ws_frames.contains_key(k) == st.ws_frames.contains_key(k),
        st.ws_frames.contains_key(k) ==> network_after(st, method, params).ws_frames[k] == st.ws_frames[k],
{
}


impl NetworkRequest {
    /// Whether the request's body is fetched for a detailed report: it was
    /// answered and its body is not known yet.
    pub fn needs_body(&self) -> (b: bool)
        ensures
            b == (self.response_status is Some && self.response_body is None),
    {
        self.response_status.is_some() && self.response_body.is_none()
    }

    /// Takes the body from a `Network.getResponseBody` result, when it has one.
    pub fn take_body(&mut self, result: Option<&Json>)
        ensures
            final(self)@ == (match opt_str_of(opt_view(result), "body"@) {
                Some(b) => RequestV { response_body: Some(b), ..old(self)@ },
                None => old(self)@,
            }),
    {
        match str_in(get_in(result, "body")) {
            Some(b) => self.response_body = Some(b.to_owned()),
            None => {},
        }
    }
}

/// `opt.get(key).and_then(|v| v.as_str())` on an optional value.
pub open spec fn opt_str_of(j: Option<JsonV>, key: Seq<char>) -> Option<Seq<char>> {
    match j {
        Some(v) => json_str_of(v, key),
        None => None,
    }
}

/// The command that fetches a request's body.
pub fn body_command(request_id: &str) -> (r: crate::proxy_auth::CdpCommand)
    ensures
        crate::proxy_auth::command_view(Some(r)) == Some(("Network.getResponseBody"@, Some(JsonV::Object(seq![("requestId"@, JsonV::Str(request_id@))])))),
{
    let mut m: Vec<(String, Json)> = Vec::new();
    m.push(("requestId".to_owned(), crate::json::str_json(request_id)));
    let ghost e = seq![("requestId"@, JsonV::Str(request_id@))];
    crate::proxy_auth::CdpCommand { method: "Network.getResponseBody".to_owned(), params: Some(crate::json::object_of(m, Ghost(e))) }
}


/// A frame carries the URL of its connection: after `webSocketCreated`
/// registers a connection `id` with a URL, a frame event for `id` (sent or
/// received) records one more frame of `id`, after the ones it had, with
/// that URL, the frame's payload and the direction the event names.
pub proof fn law_frame_carries_its_connection_url(st: NetworkStateV, created: JsonV, m: Seq<char>, p: JsonV, id: Seq<char>, url: Seq<char>)
    requires
        json_str_of(created, "requestId"@) == Some(id),
        json_str_of(created, "url"@) == Some(url),
        m == "Network.webSocketFrameSent"@ || m == "Network.webSocketFrameReceived"@,
        json_str_of(p, "requestId"@) == Some(id),
        json_get(p, "response"@) is Some,
    ensures
        ({
            let mid = network_after(st, Some("Network.webSocketCreated"@), Some(created));
            let after = network_after(mid, Some(m), Some(p));
            &&& mid.ws_connections.contains_key(id)
            &&& mid.ws_connections[id] == url
            &&& after.ws_frames.contains_key(id)
            &&& after.ws_frames[id].len() >= 1
            &&& after.ws_frames[id].drop_last() == (if st.ws_frames.contains_key(id) { st.ws_frames[id] } else { Seq::empty() })
            &&& after.ws_frames[id].last().url == url
            &&& after.ws_frames[id].last().is_sent == (m == "Network.webSocketFrameSent"@)
            &&& after.ws_frames[id].last().payload_data == str_or_empty(json_str_of(json_get(p, "response"@)->0, "payloadData"@))
        }),
{
    reveal_strlit("Network.webSocketCreated");
    reveal_strlit("Network.requestWillBeSent");
    reveal_strlit("Network.responseReceived");
    reveal_strlit("Network.webSocketFrameSent");
    reveal_strlit("Network.webSocketFrameReceived");
    assert("Network.webSocketCreated"@ != "Network.requestWillBeSent"@) by {
        assert("Network.webSocketCreated"@.len() != "Network.requestWillBeSent"@.len());
    }
    assert("Network.webSocketCreated"@ != "Network.responseReceived"@) by {
        assert("Network.webSocketCreated"@[8] != "Network.responseReceived"@[8]);
    }
    assert(m != "Network.requestWillBeSent"@) by {
        assert(m.len() != "Network.requestWillBeSent"@.len());
    }
    assert(m != "Network.responseReceived"@) by {
        assert(m.len() != "Network.responseReceived"@.len());
    }
    assert(m != "Network.webSocketCreated"@) by {
        assert(m.len() != "Network.webSocketCreated"@.len());
    }
    assert("Network.webSocketFrameSent"@ != "Network.webSocketFrameReceived"@) by {
        assert("Network.webSocketFrameSent"@.len() != "Network.webSocketFrameReceived"@.len());
    }
    let mid = network_after(st, Some("Network.webSocketCreated"@), Some(created));
    assert(mid.ws_frames == st.ws_frames);
    let after = network_after(mid, Some(m), Some(p));
    if st.ws_frames.contains_key(id) {
        assert(after.ws_frames[id].drop_last() =~= st.ws_frames[id]);
    } else {
        assert(after.ws_frames[id].drop_last() =~= Seq::<FrameV>::empty());
    }
}

} // verus!
