//! The WebMCP cache: tools that pages register (by frame, then by name) and
//! the invocations made of them, and how each `WebMCP.*` event changes it.
use vstd::prelude::*;
use crate::json::{json_array, json_get, opt_get, opt_view, owned_view, Json, JsonV};
use crate::network::{copy_opt_json, copy_opt_string, json_str_of, ostr, own_opt_json, own_opt_str};
use crate::strmap::{Duplicate, StrMap};
use crate::text::str_eq;

verus! {

/// Hints a page attaches to a tool.
pub struct WebmcpAnnotation {
    pub read_only: Option<bool>,
    pub untrusted_content: Option<bool>,
    pub autosubmit: Option<bool>,
}

/// A tool a page registered.
pub struct WebmcpTool {
    pub name: String,
    pub description: String,
    pub input_schema: Json,
    pub annotations: Option<WebmcpAnnotation>,
    pub frame_id: String,
    pub backend_node_id: Option<i64>,
}

/// The model of a tool.
pub struct WebmcpToolV {
    pub name: Seq<char>,
    pub description: Seq<char>,
    pub input_schema: JsonV,
    pub annotations: Option<(Option<bool>, Option<bool>, Option<bool>)>,
    pub frame_id: Seq<char>,
    pub backend_node_id: Option<i64>,
}

/// The model of optional annotations.
pub open spec fn annotations_view(a: Option<WebmcpAnnotation>) -> Option<(Option<bool>, Option<bool>, Option<bool>)> {
    match a {
        Some(x) => Some((x.read_only, x.untrusted_content, x.autosubmit)),
        None => None,
    }
}

impl View for WebmcpTool {
    type V = WebmcpToolV;

    open spec fn view(&self) -> WebmcpToolV {
        WebmcpToolV {
            name: self.name@,
            description: self.description@,
            input_schema: self.input_schema@,
            annotations: annotations_view(self.annotations),
            frame_id: self.frame_id@,
            backend_node_id: self.backend_node_id,
        }
    }
}

impl Duplicate for WebmcpTool {
    fn duplicate(&self) -> (r: Self) {
        WebmcpTool {
            name: self.name.clone(),
            description: self.description.clone(),
            input_schema: self.input_schema.duplicate(),
            annotations: match &self.annotations {
                Some(a) => Some(WebmcpAnnotation { read_only: a.read_only, untrusted_content: a.untrusted_content, autosubmit: a.autosubmit }),
                None => None,
            },
            frame_id: self.frame_id.clone(),
            backend_node_id: self.backend_node_id,
        }
    }
}

/// An invocation of a page tool.  A missing status means it is pending.
pub struct WebmcpInvocation {
    pub tool_name: String,
    pub frame_id: String,
    pub invocation_id: String,
    pub input: String,
    pub status: Option<String>,
    pub output: Option<Json>,
    pub error_text: Option<String>,
}

/// The model of an invocation.
pub struct WebmcpInvocationV {
    pub tool_name: Seq<char>,
    pub frame_id: Seq<char>,
    pub invocation_id: Seq<char>,
    pub input: Seq<char>,
    pub status: Option<Seq<char>>,
    pub output: Option<JsonV>,
    pub error_text: Option<Seq<char>>,
}

impl View for WebmcpInvocation {
    type V = WebmcpInvocationV;

    open spec fn view(&self) -> WebmcpInvocationV {
        WebmcpInvocationV {
            tool_name: self.tool_name@,
            frame_id: self.frame_id@,
            invocation_id: self.invocation_id@,
            input: self.input@,
            status: ostr(self.status),
            output: owned_view(self.output),
            error_text: ostr(self.error_text),
        }
    }
}

impl Duplicate for WebmcpInvocation {
    fn duplicate(&self) -> (r: Self) {
        WebmcpInvocation {
            tool_name: self.tool_name.clone(),
            frame_id: self.frame_id.clone(),
            invocation_id: self.invocation_id.clone(),
            input: self.input.clone(),
            status: copy_opt_string(&self.status),
            output: copy_opt_json(&self.output),
            error_text: copy_opt_string(&self.error_text),
        }
    }
}

/// Whether the WebMCP domain is in use on this connection.
pub enum WebmcpAvailability {
    /// The instance was not launched with the WebMCP preset.
    NotRequested,
    /// The preset was requested but the browser refused `WebMCP.enable`.
    Unsupported,
    /// `WebMCP.enable` succeeded.
    Enabled,
}

/// The WebMCP cache.
pub struct WebmcpState {
    pub tools: StrMap<StrMap<WebmcpTool>>,
    pub invocations: StrMap<WebmcpInvocation>,
    pub availability: WebmcpAvailability,
}

/// The model of one frame's tools.
pub open spec fn frame_tools_view(m: StrMap<WebmcpTool>) -> Map<Seq<char>, WebmcpToolV> {
    m@.map_values(|t: WebmcpTool| t@)
}

/// The model of the tool cache.
pub open spec fn tools_view(m: StrMap<StrMap<WebmcpTool>>) -> Map<Seq<char>, Map<Seq<char>, WebmcpToolV>> {
    m@.map_values(|f: StrMap<WebmcpTool>| frame_tools_view(f))
}

/// The model of the invocation cache.
pub open spec fn invocations_view(m: StrMap<WebmcpInvocation>) -> Map<Seq<char>, WebmcpInvocationV> {
    m@.map_values(|i: WebmcpInvocation| i@)
}

/// The tool cache after registering tools, in order; a tool replaces the
/// one of the same name in the same frame.
pub open spec fn tools_added(m: Map<Seq<char>, Map<Seq<char>, WebmcpToolV>>, ts: Seq<Option<WebmcpToolV>>) -> Map<Seq<char>, Map<Seq<char>, WebmcpToolV>>
    decreases ts.len(),
{
    if ts.len() == 0 {
        m
    } else {
        let m1 = tools_added(m, ts.drop_last());
        match ts.last() {
            Some(t) => m1.insert(t.frame_id, (if m1.contains_key(t.frame_id) { m1[t.frame_id] } else { Map::empty() }).insert(t.name, t)),
            None => m1,
        }
    }
}

/// The tool cache after `WebMCP.toolsRemoved`: each listed tool with a name
/// and a frame id is removed from a frame the cache knows.
pub open spec fn tools_removed(m: Map<Seq<char>, Map<Seq<char>, WebmcpToolV>>, ts: Seq<JsonV>) -> Map<Seq<char>, Map<Seq<char>, WebmcpToolV>>
    decreases ts.len(),
{
    if ts.len() == 0 {
        m
    } else {
        let m1 = tools_removed(m, ts.drop_last());
        match (json_str_of(ts.last(), "name"@), json_str_of(ts.last(), "frameId"@)) {
            (Some(name), Some(frame)) => if m1.contains_key(frame) {
                m1.insert(frame, m1[frame].remove(name))
            } else {
                m1
            },
            _ => m1,
        }
    }
}

/// An invocation after `WebMCP.toolResponded`: status, output and error text
/// replaced by what the event carries.
pub open spec fn responded(inv: WebmcpInvocationV, p: JsonV) -> WebmcpInvocationV {
    WebmcpInvocationV {
        status: json_str_of(p, "status"@),
        output: json_get(p, "output"@),
        error_text: json_str_of(p, "errorText"@),
        ..inv
    }
}

/// The model of the cache: tools and invocations.
pub open spec fn webmcp_view(st: &WebmcpState) -> (Map<Seq<char>, Map<Seq<char>, WebmcpToolV>>, Map<Seq<char>, WebmcpInvocationV>) {
    (tools_view(st.tools), invocations_view(st.invocations))
}

/// The cache after one event of the `WebMCP` domain.  `decoded` holds the
/// tools of a `toolsAdded` event as decoded from its `tools` array (`None`
/// where an entry is not a tool); `invocation` holds the invocation decoded
/// from a `toolInvoked` event's parameters.
pub open spec fn webmcp_after(
    st: (Map<Seq<char>, Map<Seq<char>, WebmcpToolV>>, Map<Seq<char>, WebmcpInvocationV>),
    method: Option<Seq<char>>,
    params: Option<JsonV>,
    decoded: Seq<Option<WebmcpToolV>>,
    invocation: Option<WebmcpInvocationV>,
) -> (Map<Seq<char>, Map<Seq<char>, WebmcpToolV>>, Map<Seq<char>, WebmcpInvocationV>) {
    match (method, params) {
        (Some(m), Some(p)) => if m == "WebMCP.toolsAdded"@ {
            match opt_get(Some(p), "tools"@) {
                Some(JsonV::Array(_)) => (tools_added(st.0, decoded), st.1),
                _ => st,
            }
        } else if m == "WebMCP.toolsRemoved"@ {
            match opt_get(Some(p), "tools"@) {
                Some(JsonV::Array(ts)) => (tools_removed(st.0, ts), st.1),
                _ => st,
            }
        } else if m == "WebMCP.toolInvoked"@ {
            match invocation {
                Some(inv) => (st.0, st.1.insert(inv.invocation_id, inv)),
                None => st,
            }
        } else if m == "WebMCP.toolResponded"@ {
            match json_str_of(p, "invocationId"@) {
                Some(id) => if st.1.contains_key(id) {
                    (st.0, st.1.insert(id, responded(st.1[id], p)))
                } else {
                    st
                },
                None => st,
            }
        } else {
            st
        },
        _ => st,
    }
}

/// The decoded tools' models.
pub open spec fn decoded_view(d: Seq<Option<WebmcpTool>>) -> Seq<Option<WebmcpToolV>> {
    d.map_values(|o: Option<WebmcpTool>| match o { Some(t) => Some(t@), None => None })
}

impl WebmcpState {
    /// Well-formedness: every map has distinct keys, and each invocation is
    /// kept under its own id.
    pub open spec fn wf(&self) -> bool {
        &&& self.tools.wf()
        &&& self.invocations.wf()
        &&& forall|k: Seq<char>| #[trigger] self.tools@.contains_key(k) ==> self.tools@[k].wf()
        &&& forall|k: Seq<char>| #[trigger] self.invocations@.contains_key(k) ==> self.invocations@[k].invocation_id@ == k
    }

    /// An empty cache, with WebMCP not requested.
    pub fn new() -> (s: WebmcpState)
        ensures
            s.wf(),
            webmcp_view(&s).0 == Map::<Seq<char>, Map<Seq<char>, WebmcpToolV>>::empty(),
            webmcp_view(&s).1 == Map::<Seq<char>, WebmcpInvocationV>::empty(),
            s.availability is NotRequested,
    {
        let s = WebmcpState { tools: StrMap::new(), invocations: StrMap::new(), availability: WebmcpAvailability::NotRequested };
        assert(webmcp_view(&s).0 =~= Map::<Seq<char>, Map<Seq<char>, WebmcpToolV>>::empty());
        assert(webmcp_view(&s).1 =~= Map::<Seq<char>, WebmcpInvocationV>::empty());
        s
    }

    /// Registers one tool under its frame and name.
    fn add_tool(&mut self, t: WebmcpTool)
        requires
            old(self).wf(),
        ensures
            final(self).wf(),
            final(self).availability == old(self).availability,
            final(self).invocations == old(self).invocations,
            tools_view(final(self).tools) == {
                let m = tools_view(old(self).tools);
                m.insert(t@.frame_id, (if m.contains_key(t@.frame_id) { m[t@.frame_id] } else { Map::empty() }).insert(t@.name, t@))
            },
    {
        let ghost m = tools_view(self.tools);
        let ghost tv = t@;
        let ghost old_tools = self.tools@;
        match self.tools.index_of(t.frame_id.as_str()) {
            Some(i) => {
                proof { self.tools.lemma_wf(); }
                let ghost fk = self.tools.entries()[i as int].0;
                let mut inner = self.tools.replace_value(i, StrMap::new());
                assert(inner.wf());
                let ghost inner_before = frame_tools_view(inner);
                let name = t.name.clone();
                inner.insert(name, t);
                assert(frame_tools_view(inner) =~= inner_before.insert(tv.name, tv));
                self.tools.replace_value(i, inner);
                proof {
                    assert(tools_view(self.tools) =~= m.insert(tv.frame_id, m[tv.frame_id].insert(tv.name, tv)));
                    assert forall|k: Seq<char>| #[trigger] self.tools@.contains_key(k) implies self.tools@[k].wf() by {
                        if k != fk {
                            assert(old_tools.contains_key(k));
                        }
                    }
                }
            },
            None => {
                let mut inner: StrMap<WebmcpTool> = StrMap::new();
                let name = t.name.clone();
                let frame = t.frame_id.clone();
                inner.insert(name, t);
                assert(frame_tools_view(inner) =~= Map::<Seq<char>, WebmcpToolV>::empty().insert(tv.name, tv));
                self.tools.insert(frame, inner);
                proof {
                    assert(tools_view(self.tools) =~= m.insert(tv.frame_id, Map::<Seq<char>, WebmcpToolV>::empty().insert(tv.name, tv)));
                    assert forall|k: Seq<char>| #[trigger] self.tools@.contains_key(k) implies self.tools@[k].wf() by {
                        if k != tv.frame_id {
                            assert(old_tools.contains_key(k));
                        }
                    }
                }
            },
        }
    }

    /// Removes the tool `name` from frame `frame`, if the frame is known.
    fn remove_tool(&mut self, frame: &str, name: &str)
        requires
            old(self).wf(),
        ensures
            final(self).wf(),
            final(self).availability == old(self).availability,
            final(self).invocations == old(self).invocations,
            tools_view(final(self).tools) == {
                let m = tools_view(old(self).tools);
                if m.contains_key(frame@) { m.insert(frame@, m[frame@].remove(name@)) } else { m }
            },
    {
        let ghost m = tools_view(self.tools);
        let ghost old_tools = self.tools@;
        match self.tools.index_of(frame) {
            Some(i) => {
                proof { self.tools.lemma_wf(); }
                let mut inner = self.tools.replace_value(i, StrMap::new());
                let ghost inner_before = frame_tools_view(inner);
                inner.remove(name);
                assert(frame_tools_view(inner) =~= inner_before.remove(name@));
                self.tools.replace_value(i, inner);
                proof {
                    assert(tools_view(self.tools) =~= m.insert(frame@, m[frame@].remove(name@)));
                    assert forall|k: Seq<char>| #[trigger] self.tools@.contains_key(k) implies self.tools@[k].wf() by {
                        if k != frame@ {
                            assert(old_tools.contains_key(k));
                        }
                    }
                }
            },
            None => {},
        }
    }

    /// Records one event of the `WebMCP` domain; see [`webmcp_after`].
    pub fn process_webmcp_event(
        &mut self,
        method: Option<&str>,
        params: Option<&Json>,
        decoded: Vec<Option<WebmcpTool>>,
        invocation: Option<WebmcpInvocation>,
    )
        requires
            old(self).wf(),
        ensures
            final(self).wf(),
            webmcp_view(final(self)) == webmcp_after(
                webmcp_view(old(self)),
                match method { Some(m) => Some(m@), None => None::<Seq<char>> },
                opt_view(params),
                decoded_view(decoded@),
                match invocation { Some(i) => Some(i@), None => None::<WebmcpInvocationV> },
            ),
            final(self).availability == old(self).availability,
    {
        let m = match method {
            Some(m) => m,
            None => return,
        };
        let p = match params {
            Some(p) => p,
            None => return,
        };
        let ghost st = webmcp_view(self);
        if str_eq(m, "WebMCP.toolsAdded") {
            if let Some(Json::Array(_)) = p.get("tools") {
                let ghost dv = decoded_view(decoded@);
                let mut decoded = decoded;
                let n = decoded.len();
                // Hand the decoded tools over in order.
                let mut i: usize = 0;
                let ghost orig = decoded@;
                assert(decoded@ =~= orig.skip(0));
                proof { assert(tools_added(st.0, dv.take(0)) == st.0) by { assert(dv.take(0) =~= Seq::<Option<WebmcpToolV>>::empty()); } }
                while i < n
                    invariant
                        n == orig.len(),
                        decoded@ == orig.skip(i as int),
                        i <= n,
                        dv == decoded_view(orig),
                        self.wf(),
                        self.invocations == old(self).invocations,
                        self.availability == old(self).availability,
                        tools_view(self.tools) == tools_added(st.0, dv.take(i as int)),
                        st.1 == invocations_view(self.invocations),
                    decreases n - i,
                {
                    assert(decoded@[0] == orig[i as int]);
                    let item = decoded.remove(0);
                    assert(decoded@ =~= orig.skip(i + 1));
                    let ghost next = dv.take(i + 1);
                    assert(next.drop_last() =~= dv.take(i as int));
                    assert(item == orig[i as int]);
                    match item {
                        Some(t) => {
                            self.add_tool(t);
                        },
                        None => {},
                    }
                    i = i + 1;
                }
                assert(dv.take(n as int) =~= dv);
            }
        } else if str_eq(m, "WebMCP.toolsRemoved") {
            if let Some(Json::Array(ts)) = p.get("tools") {
                let ghost tv = crate::json::views_of(ts@);
                proof { crate::json::lemma_views_of(ts@); }
                let mut i: usize = 0;
                assert(tv.take(0) =~= Seq::<JsonV>::empty());
                while i < ts.len()
                    invariant
                        i <= ts@.len(),
                        tv == crate::json::views_of(ts@),
                        tv.len() == ts@.len(),
                        forall|j: int| 0 <= j < ts@.len() ==> #[trigger] tv[j] == ts@[j]@,
                        self.wf(),
                        self.invocations == old(self).invocations,
                        self.availability == old(self).availability,
                        tools_view(self.tools) == tools_removed(st.0, tv.take(i as int)),
                        st.1 == invocations_view(self.invocations),
                    decreases ts@.len() - i,
                {
                    let ghost next = tv.take(i + 1);
                    assert(next.drop_last() =~= tv.take(i as int));
                    assert(next.last() == ts@[i as int]@);
                    let t = &ts[i];
                    match (str_in_member(t, "name"), str_in_member(t, "frameId")) {
                        (Some(name), Some(frame)) => {
                            self.remove_tool(frame, name);
                        },
                        _ => {},
                    }
                    i = i + 1;
                }
                assert(tv.take(ts@.len() as int) =~= tv);
            }
        } else if str_eq(m, "WebMCP.toolInvoked") {
            if let Some(inv) = invocation {
                let ghost iv = inv@;
                let id = inv.invocation_id.clone();
                self.invocations.insert(id, inv);
                assert(invocations_view(self.invocations) =~= st.1.insert(iv.invocation_id, iv));
            }
        } else if str_eq(m, "WebMCP.toolResponded") {
            if let Some(id) = str_in_member(p, "invocationId") {
                if let Some(i) = self.invocations.index_of(id) {
                    proof { self.invocations.lemma_wf(); }
                    let (_k, inv) = self.invocations.entry_at(i);
                    let updated = WebmcpInvocation {
                        tool_name: inv.tool_name.clone(),
                        frame_id: inv.frame_id.clone(),
                        invocation_id: inv.invocation_id.clone(),
                        input: inv.input.clone(),
                        status: own_opt_str(str_in_member(p, "status")),
                        output: own_opt_json(p.get("output")),
                        error_text: own_opt_str(str_in_member(p, "errorText")),
                    };
                    let ghost uv = updated@;
                    assert(uv == responded(st.1[id@], p@));
                    self.invocations.replace_value(i, updated);
                    assert(invocations_view(self.invocations) =~= st.1.insert(id@, uv));
                }
            }
        }
    }
}

/// `p.get(key).and_then(|v| v.as_str())`.
fn str_in_member<'a>(p: &'a Json, key: &str) -> (r: Option<&'a str>)
    ensures
        match r {
            Some(s) => json_str_of(p@, key@) == Some(s@),
            None => json_str_of(p@, key@) is None,
        },
{
    match p.get(key) {
        Some(v) => v.as_str(),
        None => None,
    }
}

} // verus!
