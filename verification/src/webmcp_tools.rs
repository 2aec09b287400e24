//! The WebMCP tools: listing the tools pages registered, invoking one and
//! waiting for its answer, and reporting invocations.
use vstd::prelude::*;
use crate::json::{json_pretty_text, object_of, opt_view, owned_view, parse_json, parsed_json, render, render_pretty, scalar_text, str_json, Json, JsonV};
use crate::network::ostr;
use crate::proxy_auth::{command_view, CdpCommand};
use crate::strmap::{Duplicate, StrMap};
use crate::text::{concat3, str_eq, trim, trimmed};
use crate::webmcp::{WebmcpAvailability, WebmcpInvocation, WebmcpInvocationV, WebmcpState, WebmcpTool, WebmcpToolV};

verus! {

/// The arguments of `webmcp_list_tools`.
pub struct ListWebmcpToolsTool {
    pub instance_id: Option<String>,
}

/// The tools of the frames, frame by frame in registration order, each
/// frame's tools in registration order.
pub open spec fn flat_tools(frames: Seq<StrMap<WebmcpTool>>) -> Seq<WebmcpToolV>
    decreases frames.len(),
{
    if frames.len() == 0 {
        Seq::empty()
    } else {
        flat_tools(frames.drop_last()) + frames.last().value_seq().map_values(|t: WebmcpTool| t@)
    }
}

/// What a listing without tools adds, by availability.
pub open spec fn empty_tools_note(a: WebmcpAvailability) -> Seq<char> {
    match a {
        WebmcpAvailability::NotRequested => "\n\n[Warning] No tools registered. This instance was not launched with the 'WEB_MCP' preset. To enable WebMCP, please restart this instance with the 'WEB_MCP' feature active, or open a new instance requesting the 'WEB_MCP' feature."@,
        WebmcpAvailability::Unsupported => "\n\n[Warning] No tools registered. The 'WEB_MCP' feature was requested, but this Chrome instance does not support or expose the WebMCP CDP domain."@,
        WebmcpAvailability::Enabled => "\n\n[Note] The 'WEB_MCP' preset is active, but the current web page has not registered any tools yet. Make sure you have navigated to a WebMCP-capable page (like https://www.knot.kz/#/agent-tools) and the page has finished loading (try reloading)."@,
    }
}

impl ListWebmcpToolsTool {
    /// Copies of all registered tools, frame by frame.
    pub fn all_tools(st: &WebmcpState) -> (r: Vec<WebmcpTool>)
        requires
            st.wf(),
        ensures
            r@.map_values(|t: WebmcpTool| t@) == flat_tools(st.tools.value_seq()),
    {
        proof { st.tools.lemma_wf(); }
        let n = st.tools.len();
        let ghost frames = st.tools.value_seq();
        let mut out: Vec<WebmcpTool> = Vec::new();
        let mut i: usize = 0;
        assert(frames.take(0) =~= Seq::<StrMap<WebmcpTool>>::empty());
        while i < n
            invariant
                st.wf(),
                frames == st.tools.value_seq(),
                n == frames.len(),
                i <= n,
                out@.map_values(|t: WebmcpTool| t@) == flat_tools(frames.take(i as int)),
            decreases n - i,
        {
            let (k, f) = st.tools.entry_at(i);
            proof {
                st.tools.lemma_wf();
                assert(frames[i as int] == *f);
                assert(st.tools.key_seq()[i as int] == k@);
                assert(st.tools@.contains_key(k@));
                assert(f.wf());
            }
            let ghost before = out@.map_values(|t: WebmcpTool| t@);
            let vals = f.values();
            let mut j: usize = 0;
            while j < vals.len()
                invariant
                    j <= vals@.len(),
                    vals@.len() == f.value_seq().len(),
                    forall|t: int| 0 <= t < vals@.len() ==> #[trigger] vals@[t]@ == f.value_seq()[t]@,
                    out@.map_values(|t: WebmcpTool| t@) == before + f.value_seq().take(j as int).map_values(|t: WebmcpTool| t@),
                decreases vals@.len() - j,
            {
                let ghost b2 = out@.map_values(|t: WebmcpTool| t@);
                out.push(vals[j].duplicate());
                assert(out@.map_values(|t: WebmcpTool| t@) =~= b2.push(f.value_seq()[j as int]@));
                assert(f.value_seq().take(j + 1).map_values(|t: WebmcpTool| t@) =~= f.value_seq().take(j as int).map_values(|t: WebmcpTool| t@).push(f.value_seq()[j as int]@));
                j = j + 1;
            }
            proof {
                assert(f.value_seq().take(vals@.len() as int) =~= f.value_seq());
                assert(frames.take(i + 1).drop_last() =~= frames.take(i as int));
                assert(frames.take(i + 1).last() == *f);
            }
            i = i + 1;
        }
        assert(frames.take(n as int) =~= frames);
        out
    }

    /// The note a listing without tools carries.
    pub fn empty_note(st: &WebmcpState) -> (r: String)
        ensures
            r@ == empty_tools_note(st.availability),
    {
        match st.availability {
            WebmcpAvailability::NotRequested => "\n\n[Warning] No tools registered. This instance was not launched with the 'WEB_MCP' preset. To enable WebMCP, please restart this instance with the 'WEB_MCP' feature active, or open a new instance requesting the 'WEB_MCP' feature.".to_owned(),
            WebmcpAvailability::Unsupported => "\n\n[Warning] No tools registered. The 'WEB_MCP' feature was requested, but this Chrome instance does not support or expose the WebMCP CDP domain.".to_owned(),
            WebmcpAvailability::Enabled => "\n\n[Note] The 'WEB_MCP' preset is active, but the current web page has not registered any tools yet. Make sure you have navigated to a WebMCP-capable page (like https://www.knot.kz/#/agent-tools) and the page has finished loading (try reloading).".to_owned(),
        }
    }
}

/// The availability the connection ends up with: not requested without the
/// preset; with it, enabled when `WebMCP.enable` succeeded, else unsupported.
pub open spec fn availability_of(requested: bool, enable_ok: bool) -> WebmcpAvailability {
    if !requested {
        WebmcpAvailability::NotRequested
    } else if enable_ok {
        WebmcpAvailability::Enabled
    } else {
        WebmcpAvailability::Unsupported
    }
}

/// Records what connecting found out about WebMCP.
pub fn set_availability(st: &mut WebmcpState, requested: bool, enable_ok: bool)
    ensures
        final(st).availability == availability_of(requested, enable_ok),
        final(st).tools == old(st).tools,
        final(st).invocations == old(st).invocations,
{
    st.availability = if !requested {
        WebmcpAvailability::NotRequested
    } else if enable_ok {
        WebmcpAvailability::Enabled
    } else {
        WebmcpAvailability::Unsupported
    };
}

/// The status of an invocation, `Pending` while none was reported.
pub open spec fn status_or_pending(inv: WebmcpInvocationV) -> Seq<char> {
    match inv.status {
        Some(s) => s,
        None => "Pending"@,
    }
}

/// The five members that describe an invocation.
pub open spec fn invocation_members(inv: WebmcpInvocationV) -> Seq<(Seq<char>, JsonV)> {
    seq![
        ("invocationId"@, JsonV::Str(inv.invocation_id)),
        ("toolName"@, JsonV::Str(inv.tool_name)),
        ("frameId"@, JsonV::Str(inv.frame_id)),
        ("input"@, JsonV::Str(inv.input)),
        ("status"@, JsonV::Str(status_or_pending(inv))),
    ]
}

/// Builds the five members that describe an invocation.
fn invocation_json(inv: &WebmcpInvocation) -> (r: Vec<(String, Json)>)
    ensures
        crate::json::member_views_of(r@) == invocation_members(inv@),
{
    let status = match &inv.status {
        Some(s) => s.clone(),
        None => "Pending".to_owned(),
    };
    let mut m: Vec<(String, Json)> = Vec::new();
    m.push(("invocationId".to_owned(), str_json(inv.invocation_id.as_str())));
    m.push(("toolName".to_owned(), str_json(inv.tool_name.as_str())));
    m.push(("frameId".to_owned(), str_json(inv.frame_id.as_str())));
    m.push(("input".to_owned(), str_json(inv.input.as_str())));
    m.push(("status".to_owned(), Json::Str(status)));
    proof {
        crate::json::lemma_member_views_of(m@);
        assert(crate::json::member_views_of(m@) =~= invocation_members(inv@));
    }
    m
}

/// The arguments of `webmcp_get_invocation`.
pub struct GetWebmcpInvocationTool {
    pub invocation_id: String,
}

/// The report of one invocation: its five members, then its output and its
/// error text when it has them.
pub open spec fn invocation_report(inv: WebmcpInvocationV) -> JsonV {
    JsonV::Object(invocation_members(inv)
        + (match inv.output { Some(o) => seq![("output"@, o)], None => Seq::empty() })
        + (match inv.error_text { Some(e) => seq![("errorText"@, JsonV::Str(e))], None => Seq::empty() }))
}

/// The refusal of an unknown invocation id.
pub open spec fn unknown_invocation_text(id: Seq<char>) -> Seq<char> {
    "No WebMCP invocation found with id '"@ + id + "'. The invocation may predate the current Chrome session, or the id is wrong. Use webmcp_list_invocations to see the known invocations."@
}

impl GetWebmcpInvocationTool {
    /// The invocation's report, printed indented.
    pub fn report(&self, st: &WebmcpState) -> (r: Result<String, String>)
        requires
            st.wf(),
        ensures
            match r {
                Ok(t) => st.invocations@.contains_key(self.invocation_id@)
                    && t@ == json_pretty_text(invocation_report(st.invocations@[self.invocation_id@]@)),
                Err(e) => !st.invocations@.contains_key(self.invocation_id@)
                    && e@ == unknown_invocation_text(self.invocation_id@),
            },
    {
        match st.invocations.get(self.invocation_id.as_str()) {
            Some(inv) => {
                let mut m = invocation_json(inv);
                let ghost base = crate::json::member_views_of(m@);
                proof { crate::json::lemma_member_views_of(m@); }
                match &inv.output {
                    Some(o) => m.push(("output".to_owned(), o.duplicate())),
                    None => {},
                }
                match &inv.error_text {
                    Some(e) => m.push(("errorText".to_owned(), str_json(e.as_str()))),
                    None => {},
                }
                let ghost e = match invocation_report(inv@) { JsonV::Object(ms) => ms, _ => Seq::empty() };
                proof {
                    assert(e.len() == m@.len());
                    assert forall|i: int| 0 <= i < e.len() implies #[trigger] e[i] == (m@[i].0@, m@[i].1@) by {
                        if i < 5 {
                            assert(base[i] == (m@[i].0@, m@[i].1@));
                        }
                    }
                }
                let j = object_of(m, Ghost(e));
                Ok(render_pretty(&j))
            },
            None => Err(concat3("No WebMCP invocation found with id '", self.invocation_id.as_str(), "'. The invocation may predate the current Chrome session, or the id is wrong. Use webmcp_list_invocations to see the known invocations.")),
        }
    }
}

/// The arguments of `webmcp_invoke_tool`.
pub struct InvokeWebmcpToolTool {
    pub frame_id: String,
    pub tool_name: String,
    /// A JSON object as text; `{}` when absent.
    pub input: String,
}

/// The input a page tool gets when none is given.
pub fn default_empty_json_object() -> (r: String)
    ensures
        r@ == "{}"@,
{
    "{}".to_owned()
}

/// What a tool input text parses to: an empty object when blank, otherwise
/// the parsed text, which must be an object.
pub open spec fn parsed_input(input: Seq<char>) -> Result<JsonV, Seq<char>> {
    let t = trimmed(input);
    if t.len() == 0 {
        Ok(JsonV::Object(Seq::empty()))
    } else {
        match parsed_json(t) {
            Ok(j) => match j {
                JsonV::Object(_) => Ok(j),
                _ => Err("WebMCP tool input must be a JSON object, got "@ + scalar_text(j)),
            },
            Err(e) => Err("Invalid JSON in input: "@ + e + ". Pass a JSON object string, e.g. \"{}\" or \"{\\\"key\\\":\\\"value\\\"}\"."@),
        }
    }
}

/// Parses a tool input text into a JSON object.
pub fn parse_input_object(input: &str) -> (r: Result<Json, String>)
    ensures
        match r {
            Ok(j) => parsed_input(input@) == Ok::<JsonV, Seq<char>>(j@),
            Err(e) => parsed_input(input@) == Err::<JsonV, Seq<char>>(e@),
        },
{
    let t = trim(input);
    if t.is_empty() {
        return Ok(Json::empty_object());
    }
    match parse_json(t) {
        Ok(j) => {
            if j.is_object() {
                Ok(j)
            } else {
                let shown = render(&j);
                let r = concat3("WebMCP tool input must be a JSON object, got ", shown.as_str(), "");
                proof { reveal_strlit(""); assert(r@ =~= "WebMCP tool input must be a JSON object, got "@ + scalar_text(j@)); }
                Err(r)
            }
        },
        Err(e) => Err(concat3("Invalid JSON in input: ", e.as_str(), ". Pass a JSON object string, e.g. \"{}\" or \"{\\\"key\\\":\\\"value\\\"}\".")),
    }
}

/// How waiting for an invocation stands after a poll.
pub enum PollOutcome {
    /// Keep waiting.
    Wait,
    /// The tool completed; its output, printed indented.
    Completed(String),
    /// The invocation failed, was canceled or timed out; the message.
    Failed(String),
}

/// The refusal once waiting has run out.
pub open spec fn still_pending_text(tool: Seq<char>, id: Seq<char>) -> Seq<char> {
    "Invocation '"@ + tool + "' is still pending after 30s (the page tool may be waiting for user consent, e.g. a confirmation dialog). It has NOT been canceled: use webmcp_get_invocation with invocationId=\""@ + id + "\" to poll its status, or webmcp_list_invocations to see all pending invocations."@
}

impl InvokeWebmcpToolTool {
    /// The `WebMCP.invokeTool` command for the parsed input.
    pub fn invoke_command(&self, input: Json) -> (r: CdpCommand)
        ensures
            command_view(Some(r)) == Some(("WebMCP.invokeTool"@, Some(JsonV::Object(seq![
                ("frameId"@, JsonV::Str(self.frame_id@)),
                ("toolName"@, JsonV::Str(self.tool_name@)),
                ("input"@, input@),
            ])))),
    {
        let ghost iv = input@;
        let mut m: Vec<(String, Json)> = Vec::new();
        m.push(("frameId".to_owned(), str_json(self.frame_id.as_str())));
        m.push(("toolName".to_owned(), str_json(self.tool_name.as_str())));
        m.push(("input".to_owned(), input));
        let ghost e = seq![
            ("frameId"@, JsonV::Str(self.frame_id@)),
            ("toolName"@, JsonV::Str(self.tool_name@)),
            ("input"@, iv),
        ];
        CdpCommand { method: "WebMCP.invokeTool".to_owned(), params: Some(object_of(m, Ghost(e))) }
    }

    /// The invocation id in the command's response.
    pub fn invocation_id_of(resp: Option<&Json>) -> (r: Result<String, String>)
        ensures
            match r {
                Ok(id) => crate::json::opt_str(crate::json::opt_get(opt_view(resp), "invocationId"@)) == Some(id@),
                Err(e) => crate::json::opt_str(crate::json::opt_get(opt_view(resp), "invocationId"@)) is None
                    && e@ == "Did not receive invocationId"@,
            },
    {
        match crate::json::str_in(crate::json::get_in(resp, "invocationId")) {
            Some(id) => Ok(id.to_owned()),
            None => Err("Did not receive invocationId".to_owned()),
        }
    }

    /// One poll, after `attempts` waits: past 300 waits the invocation is
    /// reported as still pending; otherwise a completed invocation gives its
    /// output (an empty object when it has none), an error its text (or
    /// `Unknown error`), a cancellation a refusal; anything else waits on.
    pub fn poll(&self, st: &WebmcpState, invocation_id: &str, attempts: u32) -> (r: PollOutcome)
        requires
            st.wf(),
        ensures
            attempts > 300 ==> (r matches PollOutcome::Failed(m) && m@ == still_pending_text(self.tool_name@, invocation_id@)),
            attempts <= 300 ==> {
                let found = st.invocations@.contains_key(invocation_id@);
                let inv = st.invocations@[invocation_id@]@;
                match r {
                    PollOutcome::Completed(t) => found && inv.status == Some("Completed"@)
                        && t@ == json_pretty_text(match inv.output { Some(o) => o, None => JsonV::Object(Seq::empty()) }),
                    PollOutcome::Failed(m) => found && (
                        (inv.status == Some("Error"@) && m@ == "Tool execution failed: "@ + match inv.error_text { Some(e) => e, None => "Unknown error"@ })
                        || (inv.status == Some("Canceled"@) && m@ == "Tool execution was canceled"@)),
                    PollOutcome::Wait => !found || !(inv.status == Some("Completed"@) || inv.status == Some("Error"@) || inv.status == Some("Canceled"@)),
                }
            },
    {
        if attempts > 300 {
            let head = concat3("Invocation '", self.tool_name.as_str(), "' is still pending after 30s (the page tool may be waiting for user consent, e.g. a confirmation dialog). It has NOT been canceled: use webmcp_get_invocation with invocationId=\"");
            return PollOutcome::Failed(concat3(head.as_str(), invocation_id, "\" to poll its status, or webmcp_list_invocations to see all pending invocations."));
        }
        let inv = match st.invocations.get(invocation_id) {
            Some(i) => i,
            None => return PollOutcome::Wait,
        };
        let status = match &inv.status {
            Some(s) => s.as_str(),
            None => return PollOutcome::Wait,
        };
        if str_eq(status, "Completed") {
            let out = match &inv.output {
                Some(o) => o.duplicate(),
                None => Json::empty_object(),
            };
            PollOutcome::Completed(render_pretty(&out))
        } else if str_eq(status, "Error") {
            let text = match &inv.error_text {
                Some(e) => e.clone(),
                None => "Unknown error".to_owned(),
            };
            let m = concat3("Tool execution failed: ", text.as_str(), "");
            proof { reveal_strlit(""); }
            PollOutcome::Failed(m)
        } else if str_eq(status, "Canceled") {
            PollOutcome::Failed("Tool execution was canceled".to_owned())
        } else {
            PollOutcome::Wait
        }
    }
}


/// Lexicographic order of texts by code point, as `str`'s `Ord` compares
/// them.
pub open spec fn lex_lt(a: Seq<char>, b: Seq<char>) -> bool
    decreases a.len(),
{
    if b.len() == 0 {
        false
    } else if a.len() == 0 {
        true
    } else if a[0] != b[0] {
        a[0] < b[0]
    } else {
        lex_lt(a.drop_first(), b.drop_first())
    }
}

/// The order is transitive.
pub proof fn lemma_lex_trans(a: Seq<char>, b: Seq<char>, c: Seq<char>)
    requires
        lex_lt(a, b),
        lex_lt(b, c),
    ensures
        lex_lt(a, c),
    decreases a.len(),
{
    if a.len() > 0 && b.len() > 0 && c.len() > 0 && a[0] == b[0] && b[0] == c[0] {
        lemma_lex_trans(a.drop_first(), b.drop_first(), c.drop_first());
    }
}

/// The order is total on different texts.
pub proof fn lemma_lex_total(a: Seq<char>, b: Seq<char>)
    requires
        a != b,
    ensures
        lex_lt(a, b) || lex_lt(b, a),
    decreases a.len(),
{
    if a.len() == 0 && b.len() == 0 {
        assert(a =~= b);
    } else if a.len() > 0 && b.len() > 0 && a[0] == b[0] {
        if a.drop_first() =~= b.drop_first() {
            assert(a =~= seq![a[0]] + a.drop_first());
            assert(b =~= seq![b[0]] + b.drop_first());
            assert(a =~= b);
        }
        lemma_lex_total(a.drop_first(), b.drop_first());
    }
}

/// Whether `a` sorts before `b`.
pub fn str_lt(a: &str, b: &str) -> (r: bool)
    ensures
        r == lex_lt(a@, b@),
{
    let ca = crate::text::chars_of(a);
    let cb = crate::text::chars_of(b);
    let mut i: usize = 0;
    assert(a@.skip(0) =~= a@ && b@.skip(0) =~= b@);
    while i < ca.len() && i < cb.len()
        invariant
            ca@ == a@,
            cb@ == b@,
            i <= ca@.len(),
            i <= cb@.len(),
            lex_lt(a@, b@) == lex_lt(a@.skip(i as int), b@.skip(i as int)),
        decreases ca@.len() - i,
    {
        let x = ca[i];
        let y = cb[i];
        assert(a@.skip(i as int)[0] == x && b@.skip(i as int)[0] == y);
        if x != y {
            return x < y;
        }
        assert(a@.skip(i as int).drop_first() =~= a@.skip(i + 1));
        assert(b@.skip(i as int).drop_first() =~= b@.skip(i + 1));
        i = i + 1;
    }
    i < cb.len()
}

/// The arguments of `webmcp_list_invocations`.
pub struct ListWebmcpInvocationsTool {
    /// Only invocations with this status.
    pub status: Option<String>,
}

/// The statuses a filter may name.
pub open spec fn valid_status(s: Seq<char>) -> bool {
    s == "Pending"@ || s == "Completed"@ || s == "Error"@ || s == "Canceled"@
}

/// The id an invocation's entry leads with.
pub open spec fn entry_id(j: JsonV) -> Seq<char> {
    match j {
        JsonV::Object(ms) => if ms.len() > 0 { match ms[0].1 { JsonV::Str(s) => s, _ => Seq::empty() } } else { Seq::empty() },
        _ => Seq::empty(),
    }
}

/// Inserts `k` (with its entry) where it keeps `ids` strictly sorted.
fn insert_sorted(ids: &mut Vec<String>, out: &mut Vec<Json>, k: String, entry: Json)
    requires
        old(ids)@.len() == old(out)@.len(),
        forall|a: int, b: int| 0 <= a < b < old(ids)@.len() ==> lex_lt(#[trigger] old(ids)@[a]@, #[trigger] old(ids)@[b]@),
        forall|t: int| 0 <= t < old(ids)@.len() ==> #[trigger] old(ids)@[t]@ != k@,
    ensures
        exists|p: int| 0 <= p <= old(ids)@.len() && final(ids)@ == old(ids)@.insert(p, k) && final(out)@ == old(out)@.insert(p, entry),
        final(ids)@.len() == final(out)@.len(),
        forall|a: int, b: int| 0 <= a < b < final(ids)@.len() ==> lex_lt(#[trigger] final(ids)@[a]@, #[trigger] final(ids)@[b]@),
{
    let mut p: usize = 0;
    while p < ids.len() && str_lt(ids[p].as_str(), k.as_str())
        invariant
            p <= ids@.len(),
            forall|t: int| 0 <= t < p ==> lex_lt(#[trigger] ids@[t]@, k@),
        decreases ids@.len() - p,
    {
        p = p + 1;
    }
    let ghost old_ids = ids@;
    proof {
        if p < old_ids.len() {
            lemma_lex_total(old_ids[p as int]@, k@);
            assert(lex_lt(k@, old_ids[p as int]@));
            assert forall|t: int| p < t < old_ids.len() implies lex_lt(k@, #[trigger] old_ids[t]@) by {
                lemma_lex_trans(k@, old_ids[p as int]@, old_ids[t]@);
            }
        }
    }
    let ghost kv = k@;
    ids.insert(p, k);
    out.insert(p, entry);
    proof {
        assert forall|a: int, b: int| 0 <= a < b < ids@.len() implies lex_lt(#[trigger] ids@[a]@, #[trigger] ids@[b]@) by {
            if a < p && b < p {
                assert(ids@[a] == old_ids[a] && ids@[b] == old_ids[b]);
            } else if a < p && b == p {
                assert(ids@[a] == old_ids[a]);
            } else if a < p && b > p {
                assert(ids@[a] == old_ids[a] && ids@[b] == old_ids[b - 1]);
                lemma_lex_trans(old_ids[a]@, kv, old_ids[b - 1]@);
            } else if a == p {
                assert(ids@[b] == old_ids[b - 1]);
            } else {
                assert(ids@[a] == old_ids[a - 1] && ids@[b] == old_ids[b - 1]);
            }
        }
    }
}

impl ListWebmcpInvocationsTool {
    /// An invocation passes the filter.
    pub open spec fn wanted(&self, inv: WebmcpInvocationV) -> bool {
        match self.status {
            Some(f) => f@ == status_or_pending(inv),
            None => true,
        }
    }

    /// The entry is that of an invocation that passes the filter.
    pub open spec fn listed_entry(&self, m: Map<Seq<char>, WebmcpInvocation>, j: JsonV) -> bool {
        exists|k: Seq<char>| #[trigger] m.contains_key(k) && self.wanted(m[k]@) && j == JsonV::Object(invocation_members(m[k]@))
    }

    /// `items` lists exactly the invocations that pass the filter, each
    /// once, by increasing id.
    pub open spec fn is_listing(&self, m: Map<Seq<char>, WebmcpInvocation>, items: Seq<JsonV>) -> bool {
        &&& forall|i: int| 0 <= i < items.len() ==> #[trigger] self.listed_entry(m, items[i])
        &&& forall|k: Seq<char>| #[trigger] m.contains_key(k) && self.wanted(m[k]@) ==> items.contains(JsonV::Object(invocation_members(m[k]@)))
        &&& forall|i: int, j: int| 0 <= i < j < items.len() ==> lex_lt(entry_id(#[trigger] items[i]), entry_id(#[trigger] items[j]))
    }

    /// Refuses a filter that names no status.
    pub fn validate(&self) -> (r: Result<(), String>)
        ensures
            r is Ok <==> (self.status is None || valid_status(self.status->0@)),
            r matches Err(e) ==> e@ == "Invalid status filter '"@ + self.status->0@ + "'. Must be one of: Pending, Completed, Error, Canceled"@,
    {
        match &self.status {
            Some(f) => {
                let s = f.as_str();
                if str_eq(s, "Pending") || str_eq(s, "Completed") || str_eq(s, "Error") || str_eq(s, "Canceled") {
                    Ok(())
                } else {
                    Err(concat3("Invalid status filter '", s, "'. Must be one of: Pending, Completed, Error, Canceled"))
                }
            },
            None => Ok(()),
        }
    }

    /// The entries of the invocations that pass the filter, sorted by id.
    #[verifier::rlimit(40)]
    pub fn listing(&self, st: &WebmcpState) -> (r: Vec<Json>)
        requires
            st.wf(),
        ensures
            self.is_listing(st.invocations@, r@.map_values(|j: Json| j@)),
    {
        proof { st.invocations.lemma_wf(); }
        let ghost keys = st.invocations.key_seq();
        let ghost m = st.invocations@;
        let n = st.invocations.len();
        let mut out: Vec<Json> = Vec::new();
        let mut ids: Vec<String> = Vec::new();
        let mut i: usize = 0;
        while i < n
            invariant
                st.wf(),
                keys == st.invocations.key_seq(),
                m == st.invocations@,
                n == keys.len(),
                i <= n,
                out@.len() == ids@.len(),
                forall|t: int| 0 <= t < ids@.len() ==> #[trigger] m.contains_key(ids@[t]@),
                forall|t: int| 0 <= t < ids@.len() ==> self.wanted(m[#[trigger] ids@[t]@]@),
                forall|t: int| 0 <= t < ids@.len() ==> #[trigger] out@[t]@ == JsonV::Object(invocation_members(m[ids@[t]@]@)),
                forall|t: int| 0 <= t < ids@.len() ==> keys.take(i as int).contains(#[trigger] ids@[t]@),
                forall|a: int, b: int| 0 <= a < b < ids@.len() ==> lex_lt(#[trigger] ids@[a]@, #[trigger] ids@[b]@),
                forall|j: int| 0 <= j < i && #[trigger] self.wanted(m[keys[j]]@) ==> ids@.map_values(|s: String| s@).contains(keys[j]),
            decreases n - i,
        {
            let (k, inv) = st.invocations.entry_at(i);
            proof {
                st.invocations.lemma_wf();
                assert(keys[i as int] == k@);
                assert(m.contains_key(k@));
                assert(m[k@] == *inv);
                assert(keys.take(i + 1) =~= keys.take(i as int).push(k@));
                assert forall|t: int| 0 <= t < ids@.len() implies keys.take(i + 1).contains(#[trigger] ids@[t]@) by {
                    let w = choose|w: int| 0 <= w < keys.take(i as int).len() && keys.take(i as int)[w] == ids@[t]@;
                    assert(keys.take(i + 1)[w] == ids@[t]@);
                }
            }
            let status_ok = match &self.status {
                Some(f) => match &inv.status {
                    Some(s) => str_eq(f.as_str(), s.as_str()),
                    None => str_eq(f.as_str(), "Pending"),
                },
                None => true,
            };
            if status_ok {
                proof {
                    assert forall|t: int| 0 <= t < ids@.len() implies #[trigger] ids@[t]@ != k@ by {
                        let w = choose|w: int| 0 <= w < keys.take(i as int).len() && keys.take(i as int)[w] == ids@[t]@;
                        assert(keys[w] == ids@[t]@);
                        assert(st.invocations.entries()[w].0 == keys[w]);
                        assert(st.invocations.entries()[i as int].0 == keys[i as int]);
                    }
                }
                let members = invocation_json(inv);
                let entry = Json::Object(members);
                let kc = k.clone();
                let ghost kg = kc;
                let ghost eg = entry;
                let ghost old_ids = ids@;
                let ghost old_out = out@;
                insert_sorted(&mut ids, &mut out, kc, entry);
                proof {
                    let p = choose|p: int| 0 <= p <= old_ids.len() && ids@ == old_ids.insert(p, kg) && out@ == old_out.insert(p, eg);
                    assert(ids@[p]@ == k@);
                    assert(keys.take(i + 1)[i as int] == k@);
                    assert forall|t: int| 0 <= t < ids@.len() implies #[trigger] m.contains_key(ids@[t]@)
                        && self.wanted(m[ids@[t]@]@)
                        && out@[t]@ == JsonV::Object(invocation_members(m[ids@[t]@]@))
                        && keys.take(i + 1).contains(ids@[t]@) by {
                        if t < p {
                            assert(ids@[t] == old_ids[t] && out@[t] == old_out[t]);
                            assert(m.contains_key(old_ids[t]@));
                        } else if t == p {
                        } else {
                            assert(ids@[t] == old_ids[t - 1] && out@[t] == old_out[t - 1]);
                            assert(m.contains_key(old_ids[t - 1]@));
                        }
                    }
                    let nv = ids@.map_values(|s: String| s@);
                    let ov = old_ids.map_values(|s: String| s@);
                    assert forall|j: int| 0 <= j < i + 1 && #[trigger] self.wanted(m[keys[j]]@) implies nv.contains(keys[j]) by {
                        if j < i {
                            assert(ov.contains(keys[j]));
                            let t = choose|t: int| 0 <= t < ov.len() && ov[t] == keys[j];
                            if t < p {
                                assert(nv[t] == keys[j]);
                            } else {
                                assert(nv[t + 1] == keys[j]);
                            }
                        } else {
                            assert(nv[p] == keys[j]);
                        }
                    }
                }
            } else {
                proof {
                    assert(!self.wanted(m[keys[i as int]]@));
                }
            }
            i = i + 1;
        }
        proof {
            let items = out@.map_values(|j: Json| j@);
            assert(keys.take(n as int) =~= keys);
            assert forall|i: int| 0 <= i < items.len() implies #[trigger] self.listed_entry(st.invocations@, items[i]) by {
                assert(m.contains_key(ids@[i]@));
                assert(self.wanted(m[ids@[i]@]@));
                assert(out@[i]@ == JsonV::Object(invocation_members(m[ids@[i]@]@)));
            }
            assert forall|k: Seq<char>| #[trigger] st.invocations@.contains_key(k) && self.wanted(st.invocations@[k]@) implies
                items.contains(JsonV::Object(invocation_members(st.invocations@[k]@))) by {
                assert(keys.contains(k));
                let j = choose|j: int| 0 <= j < keys.len() && keys[j] == k;
                assert(self.wanted(m[keys[j]]@));
                let iv = ids@.map_values(|s: String| s@);
                assert(iv.contains(keys[j]));
                let t = choose|t: int| 0 <= t < iv.len() && iv[t] == keys[j];
                assert(ids@[t]@ == k);
                assert(out@[t]@ == JsonV::Object(invocation_members(m[ids@[t]@]@)));
                assert(items[t] == out@[t]@);
            }
            assert forall|a: int, b: int| 0 <= a < b < items.len() implies lex_lt(entry_id(#[trigger] items[a]), entry_id(#[trigger] items[b])) by {
                assert(lex_lt(ids@[a]@, ids@[b]@));
                assert(m.contains_key(ids@[a]@));
                assert(m.contains_key(ids@[b]@));
                assert(out@[a]@ == JsonV::Object(invocation_members(m[ids@[a]@]@)));
                assert(out@[b]@ == JsonV::Object(invocation_members(m[ids@[b]@]@)));
            }
        }
        out
    }

    /// The answer: the sorted entries, printed indented.
    pub fn report(&self, st: &WebmcpState) -> (r: Result<String, String>)
        requires
            st.wf(),
        ensures
            r is Ok <==> (self.status is None || valid_status(self.status->0@)),
            r matches Err(e) ==> e@ == "Invalid status filter '"@ + self.status->0@ + "'. Must be one of: Pending, Completed, Error, Canceled"@,
            r matches Ok(t) ==> exists|items: Seq<JsonV>| #[trigger] self.is_listing(st.invocations@, items)
                && t@ == json_pretty_text(JsonV::Array(items)),
    {
        match self.validate() {
            Err(e) => Err(e),
            Ok(()) => {
                let items = self.listing(st);
                let ghost iv = items@.map_values(|j: Json| j@);
                proof {
                    crate::json::lemma_views_of(items@);
                    assert(crate::json::views_of(items@) =~= iv);
                }
                let a = crate::json::array(items);
                Ok(render_pretty(&a))
            },
        }
    }
}

} // verus!
