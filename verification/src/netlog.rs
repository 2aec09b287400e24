//! The `get_network_logs` tool: which cached requests and frames it reports,
//! and the JSON it reports them in.
use vstd::prelude::*;
use crate::json::{array, object_of, lemma_member_views_of, lemma_views_of, member_views_of, object, opt_i64_json, opt_i64_jv, opt_json, opt_jv, opt_str_json, opt_str_jv, owned_view, str_json, views_of, Json, JsonNumber, JsonV, NumberV};
use vstd::utf8::encode_utf8;
use crate::network::{frames_view, ostr, FrameV, NetworkRequest, NetworkState, NetworkStateV, RequestV, WebSocketFrame};
use crate::strmap::{Duplicate, StrMap};
use crate::text::{contains_seq, contains_str, lowercase, str_eq, to_lowercase};

verus! {

/// The arguments of `get_network_logs`.
pub struct GetNetworkLogsTool {
    pub clear: Option<bool>,
    pub type_filter: Option<String>,
    pub url_filter: Option<String>,
    pub ws_direction_filter: Option<String>,
    pub ws_content_filter: Option<String>,
    pub include_details: Option<bool>,
}

/// The filters that the arguments come down to.
pub struct NetworkLogFilter {
    pub want_rest: bool,
    pub want_ws: bool,
    /// Lower-cased; empty for no URL filter.
    pub url_filter: String,
    /// Lower-cased direction: `sent`, `received`, anything else for both.
    pub ws_dir_filter: String,
    /// Lower-cased; empty for no payload filter.
    pub ws_content_filter: String,
    pub include_details: bool,
    pub clear: bool,
}

/// An optional text, or a default.
pub open spec fn text_or(o: Option<String>, d: Seq<char>) -> Seq<char> {
    match o {
        Some(s) => s@,
        None => d,
    }
}

/// An optional flag, or a default.
pub open spec fn flag_or(o: Option<bool>, d: bool) -> bool {
    match o {
        Some(b) => b,
        None => d,
    }
}

/// A request passes the URL filter.
pub open spec fn keeps_request(f: NetworkLogFilter, r: RequestV) -> bool {
    f.url_filter@.len() == 0 || contains_seq(lowercase(r.url), f.url_filter@)
}

/// A frame passes the URL, direction and payload filters.
pub open spec fn keeps_frame(f: NetworkLogFilter, fr: FrameV) -> bool {
    &&& f.url_filter@.len() == 0 || contains_seq(lowercase(fr.url), f.url_filter@)
    &&& !(f.ws_dir_filter@ == "sent"@ && !fr.is_sent)
    &&& !(f.ws_dir_filter@ == "received"@ && fr.is_sent)
    &&& f.ws_content_filter@.len() == 0 || contains_seq(lowercase(fr.payload_data), f.ws_content_filter@)
}

/// The requests reported: none unless REST traffic is wanted, else those
/// that pass the URL filter.
pub open spec fn kept_requests(f: NetworkLogFilter, m: Map<Seq<char>, RequestV>) -> Map<Seq<char>, RequestV> {
    if !f.want_rest {
        Map::empty()
    } else {
        Map::new(|k: Seq<char>| m.contains_key(k) && keeps_request(f, m[k]), |k: Seq<char>| m[k])
    }
}

/// The frames reported for each connection: none unless WebSocket traffic is
/// wanted, else the frames that pass the filters, connections left without a
/// frame dropped.
pub open spec fn kept_frames(f: NetworkLogFilter, m: Map<Seq<char>, Seq<FrameV>>) -> Map<Seq<char>, Seq<FrameV>> {
    if !f.want_ws {
        Map::empty()
    } else {
        Map::new(
            |k: Seq<char>| m.contains_key(k) && m[k].filter(|fr: FrameV| keeps_frame(f, fr)).len() > 0,
            |k: Seq<char>| m[k].filter(|fr: FrameV| keeps_frame(f, fr)),
        )
    }
}

impl GetNetworkLogsTool {
    /// The filters: the traffic type (default `both`, case-insensitive)
    /// selects REST (`rest`, `both`) and WebSocket (`websocket`, `both`)
    /// traffic; URL, direction (default `both`) and payload filters are
    /// lower-cased; details are included and the cache kept unless asked
    /// otherwise.
    pub fn filter(&self) -> (f: NetworkLogFilter)
        ensures
            f.want_rest == (lowercase(text_or(self.type_filter, "both"@)) == "rest"@ || lowercase(text_or(self.type_filter, "both"@)) == "both"@),
            f.want_ws == (lowercase(text_or(self.type_filter, "both"@)) == "websocket"@ || lowercase(text_or(self.type_filter, "both"@)) == "both"@),
            f.url_filter@ == lowercase(text_or(self.url_filter, Seq::empty())),
            f.ws_dir_filter@ == lowercase(text_or(self.ws_direction_filter, "both"@)),
            f.ws_content_filter@ == lowercase(text_or(self.ws_content_filter, Seq::empty())),
            f.include_details == flag_or(self.include_details, true),
            f.clear == flag_or(self.clear, false),
    {
        let t = match &self.type_filter {
            Some(s) => to_lowercase(s.as_str()),
            None => to_lowercase("both"),
        };
        let want_rest = str_eq(t.as_str(), "rest") || str_eq(t.as_str(), "both");
        let want_ws = str_eq(t.as_str(), "websocket") || str_eq(t.as_str(), "both");
        let url_filter = match &self.url_filter {
            Some(s) => to_lowercase(s.as_str()),
            None => to_lowercase(""),
        };
        let ws_dir_filter = match &self.ws_direction_filter {
            Some(s) => to_lowercase(s.as_str()),
            None => to_lowercase("both"),
        };
        let ws_content_filter = match &self.ws_content_filter {
            Some(s) => to_lowercase(s.as_str()),
            None => to_lowercase(""),
        };
        let include_details = match self.include_details {
            Some(b) => b,
            None => true,
        };
        let clear = match self.clear {
            Some(b) => b,
            None => false,
        };
        proof {
            reveal_strlit("");
            assert(""@ =~= Seq::<char>::empty());
        }
        NetworkLogFilter { want_rest, want_ws, url_filter, ws_dir_filter, ws_content_filter, include_details, clear }
    }
}

impl NetworkState {
    /// Copies of the cached requests and frames; with `clear`, the cache then
    /// forgets them (the WebSocket URLs stay).
    pub fn take_logs(&mut self, clear: bool) -> (r: (StrMap<NetworkRequest>, StrMap<Vec<WebSocketFrame>>))
        requires
            old(self).wf(),
        ensures
            final(self).wf(),
            r.0.wf(),
            r.1.wf(),
            r.0@.map_values(|q: NetworkRequest| q@) == old(self)@.requests,
            r.1@.map_values(|v: Vec<WebSocketFrame>| frames_view(v@)) == old(self)@.ws_frames,
            clear ==> final(self)@ == (NetworkStateV {
                requests: Map::empty(),
                ws_frames: Map::empty(),
                ..old(self)@
            }),
            !clear ==> final(self)@ == old(self)@,
    {
        let reqs = self.requests.duplicate_map();
        let ws = self.ws_frames.duplicate_map();
        proof {
            assert(reqs@.map_values(|q: NetworkRequest| q@) =~= self@.requests);
            assert(ws@.map_values(|v: Vec<WebSocketFrame>| frames_view(v@)) =~= self@.ws_frames);
        }
        if clear {
            let ghost st = self@;
            self.requests.clear();
            self.ws_frames.clear();
            proof {
                assert(self@.requests =~= Map::<Seq<char>, RequestV>::empty());
                assert(self@.ws_frames =~= Map::<Seq<char>, Seq<FrameV>>::empty());
                assert(self@.ws_connections == st.ws_connections);
            }
        }
        (reqs, ws)
    }
}

impl NetworkLogFilter {
    /// Whether a request passes the URL filter.
    pub fn keeps_request(&self, r: &NetworkRequest) -> (b: bool)
        ensures
            b == keeps_request(*self, r@),
    {
        if self.url_filter.as_str().is_empty() {
            return true;
        }
        let u = to_lowercase(r.url.as_str());
        contains_str(u.as_str(), self.url_filter.as_str())
    }

    /// Whether a frame passes the URL, direction and payload filters.
    pub fn keeps_frame(&self, fr: &WebSocketFrame) -> (b: bool)
        ensures
            b == keeps_frame(*self, fr@),
    {
        if !self.url_filter.as_str().is_empty() {
            let u = to_lowercase(fr.url.as_str());
            if !contains_str(u.as_str(), self.url_filter.as_str()) {
                return false;
            }
        }
        if str_eq(self.ws_dir_filter.as_str(), "sent") && !fr.is_sent {
            return false;
        }
        if str_eq(self.ws_dir_filter.as_str(), "received") && fr.is_sent {
            return false;
        }
        if !self.ws_content_filter.as_str().is_empty() {
            let p = to_lowercase(fr.payload_data.as_str());
            if !contains_str(p.as_str(), self.ws_content_filter.as_str()) {
                return false;
            }
        }
        true
    }

    /// The frames of one connection that pass the filters, in order.
    pub fn kept_frames_of(&self, frames: &Vec<WebSocketFrame>) -> (r: Vec<WebSocketFrame>)
        ensures
            frames_view(r@) == frames_view(frames@).filter(|fr: FrameV| keeps_frame(*self, fr)),
    {
        let ghost pred = |fr: FrameV| keeps_frame(*self, fr);
        let mut r: Vec<WebSocketFrame> = Vec::new();
        let mut i: usize = 0;
        while i < frames.len()
            invariant
                i <= frames@.len(),
                pred == (|fr: FrameV| keeps_frame(*self, fr)),
                frames_view(r@) == frames_view(frames@).take(i as int).filter(pred),
            decreases frames@.len() - i,
        {
            let ghost prev = frames_view(frames@).take(i as int);
            let ghost next = frames_view(frames@).take(i + 1);
            assert(next.len() == i + 1);
            assert(next.drop_last() =~= prev);
            assert(next.last() == frames@[i as int]@);
            assert(next =~= prev.push(next.last()));
            proof { prev.lemma_filter_push(next.last(), pred); }
            if self.keeps_frame(&frames[i]) {
                let ghost before = r@;
                r.push(frames[i].copy());
                assert(frames_view(r@) =~= frames_view(before).push(frames@[i as int]@));
            }
            i = i + 1;
        }
        assert(frames_view(frames@).take(frames@.len() as int) =~= frames_view(frames@));
        r
    }

    /// The requests to report.
    pub fn kept_requests(&self, m: &StrMap<NetworkRequest>) -> (r: StrMap<NetworkRequest>)
        requires
            m.wf(),
        ensures
            r.wf(),
            r@.map_values(|q: NetworkRequest| q@) == kept_requests(*self, m@.map_values(|q: NetworkRequest| q@)),
    {
        let mut r: StrMap<NetworkRequest> = StrMap::new();
        let ghost mv = m@.map_values(|q: NetworkRequest| q@);
        if !self.want_rest {
            proof { assert(r@.map_values(|q: NetworkRequest| q@) =~= kept_requests(*self, mv)); }
            return r;
        }
        proof { m.lemma_wf(); }
        let n = m.len();
        let mut i: usize = 0;
        while i < n
            invariant
                n == m.entries().len(),
                i <= n,
                m.wf(),
                r.wf(),
                keys_unique_of(m),
                mv == m@.map_values(|q: NetworkRequest| q@),
                forall|k: Seq<char>| #[trigger] r@.contains_key(k) <==>
                    (exists|j: int| 0 <= j < i && m.entries()[j].0 == k) && m@.contains_key(k) && keeps_request(*self, mv[k]),
                forall|k: Seq<char>| #[trigger] r@.contains_key(k) ==> r@[k]@ == mv[k],
            decreases n - i,
        {
            let (k, q) = m.entry_at(i);
            let ghost ki = m.entries()[i as int].0;
            let ghost r_before = r@;
            proof {
                m.lemma_wf();
                assert(m.key_seq()[i as int] == ki);
                assert(m@.contains_key(ki));
                assert(m@[ki] == m.entries()[i as int].1);
                assert(mv[ki] == q@);
                assert forall|j: int| 0 <= j < i implies m.entries()[j].0 != ki by {}
                assert(!r_before.contains_key(ki));
            }
            let keep = self.keeps_request(q);
            if keep {
                r.insert(k.clone(), q.duplicate());
            }
            proof {
                assert forall|k2: Seq<char>| #[trigger] r@.contains_key(k2) <==>
                    (exists|j: int| 0 <= j < i + 1 && m.entries()[j].0 == k2) && m@.contains_key(k2) && keeps_request(*self, mv[k2]) by {
                    if k2 == ki {
                        assert(m.entries()[i as int].0 == k2);
                    } else {
                        if exists|j: int| 0 <= j < i + 1 && m.entries()[j].0 == k2 {
                            let j = choose|j: int| 0 <= j < i + 1 && m.entries()[j].0 == k2;
                            assert(j < i);
                        }
                        assert(r@.contains_key(k2) == r_before.contains_key(k2));
                    }
                }
                assert forall|k2: Seq<char>| #[trigger] r@.contains_key(k2) implies r@[k2]@ == mv[k2] by {
                    if k2 != ki {
                        assert(r_before.contains_key(k2));
                    }
                }
            }
            i = i + 1;
        }
        proof {
            assert(r@.map_values(|q: NetworkRequest| q@) =~= kept_requests(*self, mv)) by {
                assert forall|k: Seq<char>| #[trigger] kept_requests(*self, mv).contains_key(k) implies r@.contains_key(k) by {
                    assert(m@.contains_key(k));
                    assert(m.key_seq().contains(k));
                    let j = choose|j: int| 0 <= j < m.key_seq().len() && m.key_seq()[j] == k;
                    assert(m.entries()[j].0 == k);
                }
            }
        }
        r
    }
}

impl NetworkLogFilter {
    /// The frames to report, connection by connection.
    pub fn kept_frames(&self, m: &StrMap<Vec<WebSocketFrame>>) -> (r: StrMap<Vec<WebSocketFrame>>)
        requires
            m.wf(),
        ensures
            r.wf(),
            r@.map_values(|v: Vec<WebSocketFrame>| frames_view(v@)) == kept_frames(*self, m@.map_values(|v: Vec<WebSocketFrame>| frames_view(v@))),
    {
        let mut r: StrMap<Vec<WebSocketFrame>> = StrMap::new();
        let ghost mv = m@.map_values(|v: Vec<WebSocketFrame>| frames_view(v@));
        let ghost pred = |fr: FrameV| keeps_frame(*self, fr);
        if !self.want_ws {
            proof { assert(r@.map_values(|v: Vec<WebSocketFrame>| frames_view(v@)) =~= kept_frames(*self, mv)); }
            return r;
        }
        proof { m.lemma_wf(); }
        let n = m.len();
        let mut i: usize = 0;
        while i < n
            invariant
                n == m.entries().len(),
                i <= n,
                m.wf(),
                r.wf(),
                self.want_ws,
                pred == (|fr: FrameV| keeps_frame(*self, fr)),
                mv == m@.map_values(|v: Vec<WebSocketFrame>| frames_view(v@)),
                forall|k: Seq<char>| #[trigger] r@.contains_key(k) <==>
                    (exists|j: int| 0 <= j < i && m.entries()[j].0 == k) && m@.contains_key(k) && mv[k].filter(pred).len() > 0,
                forall|k: Seq<char>| #[trigger] r@.contains_key(k) ==> frames_view(r@[k]@) == mv[k].filter(pred),
            decreases n - i,
        {
            let (k, v) = m.entry_at(i);
            let ghost ki = m.entries()[i as int].0;
            let ghost r_before = r@;
            proof {
                m.lemma_wf();
                assert(m.key_seq()[i as int] == ki);
                assert(m@.contains_key(ki));
                assert(m@[ki] == m.entries()[i as int].1);
                assert(mv[ki] == frames_view(v@));
                assert forall|j: int| 0 <= j < i implies m.entries()[j].0 != ki by {}
                assert(!r_before.contains_key(ki));
            }
            let kept = self.kept_frames_of(v);
            let keep = kept.len() > 0;
            if keep {
                r.insert(k.clone(), kept);
            }
            proof {
                assert forall|k2: Seq<char>| #[trigger] r@.contains_key(k2) <==>
                    (exists|j: int| 0 <= j < i + 1 && m.entries()[j].0 == k2) && m@.contains_key(k2) && mv[k2].filter(pred).len() > 0 by {
                    if k2 == ki {
                        assert(m.entries()[i as int].0 == k2);
                    } else {
                        if exists|j: int| 0 <= j < i + 1 && m.entries()[j].0 == k2 {
                            let j = choose|j: int| 0 <= j < i + 1 && m.entries()[j].0 == k2;
                            assert(j < i);
                        }
                        assert(r@.contains_key(k2) == r_before.contains_key(k2));
                    }
                }
                assert forall|k2: Seq<char>| #[trigger] r@.contains_key(k2) implies frames_view(r@[k2]@) == mv[k2].filter(pred) by {
                    if k2 != ki {
                        assert(r_before.contains_key(k2));
                    }
                }
            }
            i = i + 1;
        }
        proof {
            assert(r@.map_values(|v: Vec<WebSocketFrame>| frames_view(v@)) =~= kept_frames(*self, mv)) by {
                assert forall|k: Seq<char>| #[trigger] kept_frames(*self, mv).contains_key(k) implies r@.contains_key(k) by {
                    assert(m@.contains_key(k));
                    assert(m.key_seq().contains(k));
                    let j = choose|j: int| 0 <= j < m.key_seq().len() && m.key_seq()[j] == k;
                    assert(m.entries()[j].0 == k);
                }
            }
        }
        r
    }
}

/// The keys of a map's entries are distinct (a restatement for invariants).
pub open spec fn keys_unique_of(m: &StrMap<NetworkRequest>) -> bool {
    crate::strmap::keys_unique(m.entries())
}

} // verus!

verus! {

/// The full report of a request: every field, `null` where unknown.
pub open spec fn request_details(r: RequestV) -> JsonV {
    JsonV::Object(seq![
        ("url"@, JsonV::Str(r.url)),
        ("method"@, JsonV::Str(r.method)),
        ("resource_type"@, opt_str_jv(r.resource_type)),
        ("request_headers"@, opt_jv(r.request_headers)),
        ("request_post_data"@, opt_str_jv(r.request_post_data)),
        ("response_status"@, opt_i64_jv(r.response_status)),
        ("response_status_text"@, opt_str_jv(r.response_status_text)),
        ("response_headers"@, opt_jv(r.response_headers)),
        ("response_body"@, opt_str_jv(r.response_body)),
    ])
}

/// The summary of a request: URL, method, status, status text, resource type.
pub open spec fn request_summary(r: RequestV) -> JsonV {
    JsonV::Object(seq![
        ("url"@, JsonV::Str(r.url)),
        ("method"@, JsonV::Str(r.method)),
        ("status"@, opt_i64_jv(r.response_status)),
        ("statusText"@, opt_str_jv(r.response_status_text)),
        ("resourceType"@, opt_str_jv(r.resource_type)),
    ])
}

/// The full report of a frame.
pub open spec fn frame_details(f: FrameV) -> JsonV {
    JsonV::Object(seq![
        ("url"@, JsonV::Str(f.url)),
        ("payload_data"@, JsonV::Str(f.payload_data)),
        ("is_sent"@, JsonV::Bool(f.is_sent)),
    ])
}

/// The summary of a frame: URL, direction and payload length in bytes.
pub open spec fn frame_summary(f: FrameV) -> JsonV {
    JsonV::Object(seq![
        ("url"@, JsonV::Str(f.url)),
        ("is_sent"@, JsonV::Bool(f.is_sent)),
        ("payload_len"@, JsonV::Number(NumberV::PosInt(encode_utf8(f.payload_data).len() as u64))),
    ])
}

/// The report of a request.
pub open spec fn request_report_of(details: bool, r: RequestV) -> JsonV {
    if details { request_details(r) } else { request_summary(r) }
}

/// The report of a frame.
pub open spec fn frame_report_of(details: bool, f: FrameV) -> JsonV {
    if details { frame_details(f) } else { frame_summary(f) }
}

/// The report of the requests, keyed by request id in the map's order.
pub open spec fn requests_report_of(details: bool, m: StrMap<NetworkRequest>) -> JsonV {
    JsonV::Object(m.entries().map_values(|e: (Seq<char>, NetworkRequest)| (e.0, request_report_of(details, e.1@))))
}

/// The report of the frames, keyed by connection id in the map's order.
pub open spec fn frames_report_of(details: bool, m: StrMap<Vec<WebSocketFrame>>) -> JsonV {
    JsonV::Object(m.entries().map_values(|e: (Seq<char>, Vec<WebSocketFrame>)|
        (e.0, JsonV::Array(frames_view(e.1@).map_values(|f: FrameV| frame_report_of(details, f))))))
}

/// The whole answer: `requests` when REST traffic is wanted, then
/// `websocket_frames` when WebSocket traffic is wanted.
pub open spec fn logs_report(f: NetworkLogFilter, reqs: StrMap<NetworkRequest>, frames: StrMap<Vec<WebSocketFrame>>) -> JsonV {
    JsonV::Object(
        (if f.want_rest { seq![("requests"@, requests_report_of(f.include_details, reqs))] } else { Seq::empty() })
        + (if f.want_ws { seq![("websocket_frames"@, frames_report_of(f.include_details, frames))] } else { Seq::empty() })
    )
}

/// The report of one request.
pub fn request_report(details: bool, r: &NetworkRequest) -> (j: Json)
    ensures
        j@ == request_report_of(details, r@),
{
    let mut m: Vec<(String, Json)> = Vec::new();
    if details {
        m.push(("url".to_owned(), str_json(r.url.as_str())));
        m.push(("method".to_owned(), str_json(r.method.as_str())));
        m.push(("resource_type".to_owned(), opt_str_json(&r.resource_type)));
        m.push(("request_headers".to_owned(), opt_json(&r.request_headers)));
        m.push(("request_post_data".to_owned(), opt_str_json(&r.request_post_data)));
        m.push(("response_status".to_owned(), opt_i64_json(r.response_status)));
        m.push(("response_status_text".to_owned(), opt_str_json(&r.response_status_text)));
        m.push(("response_headers".to_owned(), opt_json(&r.response_headers)));
        m.push(("response_body".to_owned(), opt_str_json(&r.response_body)));
        let ghost e = seq![
            ("url"@, JsonV::Str(r.url@)),
            ("method"@, JsonV::Str(r.method@)),
            ("resource_type"@, opt_str_jv(ostr(r.resource_type))),
            ("request_headers"@, opt_jv(owned_view(r.request_headers))),
            ("request_post_data"@, opt_str_jv(ostr(r.request_post_data))),
            ("response_status"@, opt_i64_jv(r.response_status)),
            ("response_status_text"@, opt_str_jv(ostr(r.response_status_text))),
            ("response_headers"@, opt_jv(owned_view(r.response_headers))),
            ("response_body"@, opt_str_jv(ostr(r.response_body))),
        ];
        object_of(m, Ghost(e))
    } else {
        m.push(("url".to_owned(), str_json(r.url.as_str())));
        m.push(("method".to_owned(), str_json(r.method.as_str())));
        m.push(("status".to_owned(), opt_i64_json(r.response_status)));
        m.push(("statusText".to_owned(), opt_str_json(&r.response_status_text)));
        m.push(("resourceType".to_owned(), opt_str_json(&r.resource_type)));
        let ghost e = seq![
            ("url"@, JsonV::Str(r.url@)),
            ("method"@, JsonV::Str(r.method@)),
            ("status"@, opt_i64_jv(r.response_status)),
            ("statusText"@, opt_str_jv(ostr(r.response_status_text))),
            ("resourceType"@, opt_str_jv(ostr(r.resource_type))),
        ];
        object_of(m, Ghost(e))
    }
}

/// The report of one frame.
pub fn frame_report(details: bool, f: &WebSocketFrame) -> (j: Json)
    ensures
        j@ == frame_report_of(details, f@),
{
    let mut m: Vec<(String, Json)> = Vec::new();
    if details {
        m.push(("url".to_owned(), str_json(f.url.as_str())));
        m.push(("payload_data".to_owned(), str_json(f.payload_data.as_str())));
        m.push(("is_sent".to_owned(), Json::Bool(f.is_sent)));
        let ghost e = seq![
            ("url"@, JsonV::Str(f.url@)),
            ("payload_data"@, JsonV::Str(f.payload_data@)),
            ("is_sent"@, JsonV::Bool(f.is_sent)),
        ];
        object_of(m, Ghost(e))
    } else {
        let len = f.payload_data.as_str().as_bytes().len();
        m.push(("url".to_owned(), str_json(f.url.as_str())));
        m.push(("is_sent".to_owned(), Json::Bool(f.is_sent)));
        m.push(("payload_len".to_owned(), Json::Number(JsonNumber::PosInt(len as u64))));
        let ghost e = seq![
            ("url"@, JsonV::Str(f.url@)),
            ("is_sent"@, JsonV::Bool(f.is_sent)),
            ("payload_len"@, JsonV::Number(NumberV::PosInt(encode_utf8(f.payload_data@).len() as u64))),
        ];
        object_of(m, Ghost(e))
    }
}

/// The report of the requests.
pub fn requests_report(details: bool, m: &StrMap<NetworkRequest>) -> (j: Json)
    requires
        m.wf(),
    ensures
        j@ == requests_report_of(details, *m),
{
    let ghost expected = m.entries().map_values(|e: (Seq<char>, NetworkRequest)| (e.0, request_report_of(details, e.1@)));
    let n = m.len();
    let mut out: Vec<(String, Json)> = Vec::new();
    let mut i: usize = 0;
    while i < n
        invariant
            n == m.entries().len(),
            m.wf(),
            i <= n,
            out@.len() == i,
            expected == m.entries().map_values(|e: (Seq<char>, NetworkRequest)| (e.0, request_report_of(details, e.1@))),
            forall|j: int| 0 <= j < i ==> #[trigger] expected[j] == (out@[j].0@, out@[j].1@),
        decreases n - i,
    {
        let (k, r) = m.entry_at(i);
        out.push((k.clone(), request_report(details, r)));
        i = i + 1;
    }
    object_of(out, Ghost(expected))
}

/// The report of the frames of one connection.
pub fn frames_array(details: bool, v: &Vec<WebSocketFrame>) -> (j: Json)
    ensures
        j@ == JsonV::Array(frames_view(v@).map_values(|f: FrameV| frame_report_of(details, f))),
{
    let ghost expected = frames_view(v@).map_values(|f: FrameV| frame_report_of(details, f));
    let mut out: Vec<Json> = Vec::new();
    let mut i: usize = 0;
    while i < v.len()
        invariant
            i <= v@.len(),
            out@.len() == i,
            expected == frames_view(v@).map_values(|f: FrameV| frame_report_of(details, f)),
            forall|j: int| 0 <= j < i ==> #[trigger] expected[j] == out@[j]@,
        decreases v@.len() - i,
    {
        out.push(frame_report(details, &v[i]));
        i = i + 1;
    }
    proof {
        lemma_views_of(out@);
        assert(views_of(out@) =~= expected);
    }
    array(out)
}

/// The report of the frames.
pub fn frames_report(details: bool, m: &StrMap<Vec<WebSocketFrame>>) -> (j: Json)
    requires
        m.wf(),
    ensures
        j@ == frames_report_of(details, *m),
{
    let ghost expected = m.entries().map_values(|e: (Seq<char>, Vec<WebSocketFrame>)|
        (e.0, JsonV::Array(frames_view(e.1@).map_values(|f: FrameV| frame_report_of(details, f)))));
    let n = m.len();
    let mut out: Vec<(String, Json)> = Vec::new();
    let mut i: usize = 0;
    while i < n
        invariant
            n == m.entries().len(),
            m.wf(),
            i <= n,
            out@.len() == i,
            expected == m.entries().map_values(|e: (Seq<char>, Vec<WebSocketFrame>)|
                (e.0, JsonV::Array(frames_view(e.1@).map_values(|f: FrameV| frame_report_of(details, f))))),
            forall|j: int| 0 <= j < i ==> #[trigger] expected[j] == (out@[j].0@, out@[j].1@),
        decreases n - i,
    {
        let (k, v) = m.entry_at(i);
        out.push((k.clone(), frames_array(details, v)));
        i = i + 1;
    }
    object_of(out, Ghost(expected))
}

impl NetworkLogFilter {
    /// The answer to a `get_network_logs` call over the reported requests and frames.
    pub fn report(&self, reqs: &StrMap<NetworkRequest>, frames: &StrMap<Vec<WebSocketFrame>>) -> (j: Json)
        requires
            reqs.wf(),
            frames.wf(),
        ensures
            j@ == logs_report(*self, *reqs, *frames),
    {
        let mut out: Vec<(String, Json)> = Vec::new();
        let ghost mut expected: Seq<(Seq<char>, JsonV)> = Seq::empty();
        if self.want_rest {
            out.push(("requests".to_owned(), requests_report(self.include_details, reqs)));
            proof { expected = expected.push(("requests"@, requests_report_of(self.include_details, *reqs))); }
        }
        if self.want_ws {
            out.push(("websocket_frames".to_owned(), frames_report(self.include_details, frames)));
            proof { expected = expected.push(("websocket_frames"@, frames_report_of(self.include_details, *frames))); }
        }
        proof {
            let a: Seq<(Seq<char>, JsonV)> = if self.want_rest { seq![("requests"@, requests_report_of(self.include_details, *reqs))] } else { Seq::empty() };
            let b: Seq<(Seq<char>, JsonV)> = if self.want_ws { seq![("websocket_frames"@, frames_report_of(self.include_details, *frames))] } else { Seq::empty() };
            assert(expected =~= a + b);
        }
        object_of(out, Ghost(expected))
    }
}


/// The direction filter decides which frames are reported.  With WebSocket
/// traffic wanted, every reported frame of a connection is one of its
/// captured frames, received when the filter is `received` and sent when it
/// is `sent`; and every captured frame in the asked direction that passes the
/// URL and payload filters is reported.
pub proof fn law_frames_follow_the_direction_filter(f: NetworkLogFilter, m: Map<Seq<char>, Seq<FrameV>>, k: Seq<char>, fr: FrameV)
    requires
        f.want_ws,
    ensures
        kept_frames(f, m).contains_key(k) && kept_frames(f, m)[k].contains(fr) ==> {
            &&& m.contains_key(k)
            &&& m[k].contains(fr)
            &&& f.ws_dir_filter@ == "received"@ ==> !fr.is_sent
            &&& f.ws_dir_filter@ == "sent"@ ==> fr.is_sent
        },
        ({
            &&& m.contains_key(k)
            &&& m[k].contains(fr)
            &&& f.url_filter@.len() == 0 || contains_seq(lowercase(fr.url), f.url_filter@)
            &&& f.ws_content_filter@.len() == 0 || contains_seq(lowercase(fr.payload_data), f.ws_content_filter@)
            &&& f.ws_dir_filter@ == "received"@ ==> !fr.is_sent
            &&& f.ws_dir_filter@ == "sent"@ ==> fr.is_sent
        }) ==> kept_frames(f, m).contains_key(k) && kept_frames(f, m)[k].contains(fr),
{
    let pred = |x: FrameV| keeps_frame(f, x);
    reveal_strlit("received");
    reveal_strlit("sent");
    if kept_frames(f, m).contains_key(k) && kept_frames(f, m)[k].contains(fr) {
        let kept = m[k].filter(pred);
        assert(kept_frames(f, m)[k] == kept);
        let i = choose|i: int| 0 <= i < kept.len() && kept[i] == fr;
        m[k].lemma_filter_pred(pred, i);
        m[k].lemma_filter_contains_rev(pred, fr);
        assert(keeps_frame(f, fr));
    }
    if m.contains_key(k) && m[k].contains(fr)
        && (f.url_filter@.len() == 0 || contains_seq(lowercase(fr.url), f.url_filter@))
        && (f.ws_content_filter@.len() == 0 || contains_seq(lowercase(fr.payload_data), f.ws_content_filter@))
        && (f.ws_dir_filter@ == "received"@ ==> !fr.is_sent)
        && (f.ws_dir_filter@ == "sent"@ ==> fr.is_sent) {
        let i = choose|i: int| 0 <= i < m[k].len() && m[k][i] == fr;
        if f.ws_dir_filter@ == "sent"@ {
            assert(f.ws_dir_filter@ != "received"@);
        }
        assert(keeps_frame(f, fr));
        m[k].lemma_filter_contains(pred, i);
        m[k].lemma_filter_len(pred);
        let kept = m[k].filter(pred);
        assert(kept.contains(fr));
        assert(kept.len() > 0);
    }
}

} // verus!
