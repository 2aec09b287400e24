//! The debugger tools: breakpoints, stepping, evaluation on the paused
//! frame and the search through the sources of parsed scripts.
use vstd::prelude::*;
use vstd::string::StringSliceAdditionalSpecFns;
use crate::debugger::DebuggerState;
use crate::json::{array_of, object_of, str_json, Json, JsonNumber, JsonV, NumberV};
use crate::page_tools::bare_command;
use crate::position::{find_line_column, line_column};
use crate::proxy_auth::{command_view, CdpCommand};
use crate::text::{concat3, decimal, trim, trimmed, u64_to_decimal};

verus! {

/// The arguments of `set_breakpoint`.
pub struct SetBreakpointTool {
    pub script_hash: Option<String>,
    pub script_id: Option<String>,
    pub url: Option<String>,
    pub line_number: u32,
    pub column_number: Option<u32>,
}

/// The refusal of a breakpoint without a place.
pub open spec fn no_location_text() -> Seq<char> {
    "Either script_id, url or script_hash must be provided"@
}

/// A line, then the column when given.
pub open spec fn position_members(line: u32, column: Option<u32>) -> Seq<(Seq<char>, JsonV)> {
    seq![("lineNumber"@, JsonV::Number(NumberV::PosInt(line as u64)))]
        + match column {
            Some(c) => seq![("columnNumber"@, JsonV::Number(NumberV::PosInt(c as u64)))],
            None => Seq::empty(),
        }
}

/// Builds a place: one named member, the line, the column when given.
fn place(key: &str, value: &str, line: u32, column: Option<u32>) -> (r: Json)
    ensures
        r@ == JsonV::Object(seq![(key@, JsonV::Str(value@))] + position_members(line, column)),
{
    let mut m: Vec<(String, Json)> = Vec::new();
    m.push((key.to_owned(), str_json(value)));
    m.push(("lineNumber".to_owned(), Json::Number(JsonNumber::PosInt(line as u64))));
    match column {
        Some(c) => m.push(("columnNumber".to_owned(), Json::Number(JsonNumber::PosInt(c as u64)))),
        None => {},
    }
    let ghost e = seq![(key@, JsonV::Str(value@))] + position_members(line, column);
    proof { assert(e.len() == m@.len()); }
    object_of(m, Ghost(e))
}

impl SetBreakpointTool {
    /// The command that sets the breakpoint: by script id when one is
    /// given, else by URL, else by script hash; refused when none is given.
    pub fn command(&self) -> (r: Result<CdpCommand, String>)
        ensures
            r is Err <==> (self.script_id is None && self.url is None && self.script_hash is None),
            match r {
                Ok(c) => command_view(Some(c)) == Some(match (self.script_id, self.url, self.script_hash) {
                    (Some(id), _, _) => ("Debugger.setBreakpoint"@, Some(JsonV::Object(seq![("location"@,
                        JsonV::Object(seq![("scriptId"@, JsonV::Str(id@))] + position_members(self.line_number, self.column_number)))]))),
                    (None, Some(u), _) => ("Debugger.setBreakpointByUrl"@,
                        Some(JsonV::Object(seq![("url"@, JsonV::Str(u@))] + position_members(self.line_number, self.column_number)))),
                    (None, None, Some(h)) => ("Debugger.setBreakpointByUrl"@,
                        Some(JsonV::Object(seq![("scriptHash"@, JsonV::Str(h@))] + position_members(self.line_number, self.column_number)))),
                    (None, None, None) => (Seq::empty(), None),
                }),
                Err(e) => self.script_id is None && self.url is None && self.script_hash is None && e@ == no_location_text(),
            },
    {
        match (&self.script_id, &self.url, &self.script_hash) {
            (Some(id), _, _) => {
                let loc = place("scriptId", id.as_str(), self.line_number, self.column_number);
                let ghost lv = loc@;
                let mut m: Vec<(String, Json)> = Vec::new();
                m.push(("location".to_owned(), loc));
                let ghost e = seq![("location"@, lv)];
                Ok(CdpCommand { method: "Debugger.setBreakpoint".to_owned(), params: Some(object_of(m, Ghost(e))) })
            },
            (None, Some(u), _) => Ok(CdpCommand {
                method: "Debugger.setBreakpointByUrl".to_owned(),
                params: Some(place("url", u.as_str(), self.line_number, self.column_number)),
            }),
            (None, None, Some(h)) => Ok(CdpCommand {
                method: "Debugger.setBreakpointByUrl".to_owned(),
                params: Some(place("scriptHash", h.as_str(), self.line_number, self.column_number)),
            }),
            (None, None, None) => Err("Either script_id, url or script_hash must be provided".to_owned()),
        }
    }
}

/// The arguments of `evaluate_on_call_frame`.
pub struct EvaluateOnCallFrameTool {
    pub expression: String,
}

impl EvaluateOnCallFrameTool {
    /// The evaluation on the frame the debugger paused in; refused when it
    /// is not paused.
    pub fn command(&self, st: &DebuggerState) -> (r: Result<CdpCommand, String>)
        ensures
            match r {
                Ok(c) => st@.paused_call_frame_id is Some && command_view(Some(c)) == Some(("Debugger.evaluateOnCallFrame"@, Some(JsonV::Object(seq![
                    ("callFrameId"@, JsonV::Str(st@.paused_call_frame_id->0)),
                    ("returnByValue"@, JsonV::Bool(true)),
                    ("expression"@, JsonV::Str(self.expression@)),
                ])))),
                Err(e) => st@.paused_call_frame_id is None && e@ == "No active call frame ID stored in debugger state."@,
            },
    {
        match &st.paused_call_frame_id {
            Some(id) => {
                let mut m: Vec<(String, Json)> = Vec::new();
                m.push(("callFrameId".to_owned(), str_json(id.as_str())));
                m.push(("returnByValue".to_owned(), Json::Bool(true)));
                m.push(("expression".to_owned(), str_json(self.expression.as_str())));
                let ghost e = seq![
                    ("callFrameId"@, JsonV::Str(id@)),
                    ("returnByValue"@, JsonV::Bool(true)),
                    ("expression"@, JsonV::Str(self.expression@)),
                ];
                Ok(CdpCommand { method: "Debugger.evaluateOnCallFrame".to_owned(), params: Some(object_of(m, Ghost(e))) })
            },
            None => Err("No active call frame ID stored in debugger state.".to_owned()),
        }
    }
}

/// The arguments of `pause_on_load`.
pub struct PauseOnLoadTool {
    pub instance_id: Option<String>,
    pub tab_id: Option<String>,
}

impl PauseOnLoadTool {
    /// The commands, in order: enable the debugger, plant a `debugger;`
    /// statement in every new document, reload.
    pub fn commands(&self) -> (r: Vec<CdpCommand>)
        ensures
            r@.len() == 3,
            command_view(Some(r@[0])) == Some(("Debugger.enable"@, None::<JsonV>)),
            command_view(Some(r@[1])) == Some(("Page.addScriptToEvaluateOnNewDocument"@, Some(JsonV::Object(seq![("source"@, JsonV::Str("debugger;"@))])))),
            command_view(Some(r@[2])) == Some(("Page.reload"@, None::<JsonV>)),
    {
        let mut r: Vec<CdpCommand> = Vec::new();
        r.push(bare_command("Debugger.enable"));
        let mut m: Vec<(String, Json)> = Vec::new();
        m.push(("source".to_owned(), str_json("debugger;")));
        let ghost e = seq![("source"@, JsonV::Str("debugger;"@))];
        r.push(CdpCommand { method: "Page.addScriptToEvaluateOnNewDocument".to_owned(), params: Some(object_of(m, Ghost(e))) });
        r.push(bare_command("Page.reload"));
        r
    }
}

/// The arguments of `remove_breakpoint`.
pub struct RemoveBreakpointTool {
    pub breakpoint_id: String,
}

impl RemoveBreakpointTool {
    /// The removal command.
    pub fn command(&self) -> (r: CdpCommand)
        ensures
            command_view(Some(r)) == Some(("Debugger.removeBreakpoint"@, Some(JsonV::Object(seq![("breakpointId"@, JsonV::Str(self.breakpoint_id@))])))),
    {
        let mut m: Vec<(String, Json)> = Vec::new();
        m.push(("breakpointId".to_owned(), str_json(self.breakpoint_id.as_str())));
        let ghost e = seq![("breakpointId"@, JsonV::Str(self.breakpoint_id@))];
        CdpCommand { method: "Debugger.removeBreakpoint".to_owned(), params: Some(object_of(m, Ghost(e))) }
    }
}

/// The arguments of `resume`.
pub struct ResumeTool {
    pub instance_id: Option<String>,
}

impl ResumeTool {
    /// The resume command.
    pub fn command(&self) -> (r: CdpCommand)
        ensures
            command_view(Some(r)) == Some(("Debugger.resume"@, None::<JsonV>)),
    {
        bare_command("Debugger.resume")
    }
}

/// The arguments of `step_over`.
pub struct StepOverTool {
    pub instance_id: Option<String>,
    pub tab_id: Option<String>,
}

impl StepOverTool {
    /// The step command.
    pub fn command(&self) -> (r: CdpCommand)
        ensures
            command_view(Some(r)) == Some(("Debugger.stepOver"@, None::<JsonV>)),
    {
        bare_command("Debugger.stepOver")
    }
}

/// The first line feed at or after `from`.
pub open spec fn next_nl(s: Seq<char>, from: int) -> Option<int>
    decreases s.len() - from,
{
    if from < 0 || from >= s.len() {
        None
    } else if s[from] == '\n' {
        Some(from)
    } else {
        next_nl(s, from + 1)
    }
}

/// Where line `n` starts: after the `n`-th line feed.
pub open spec fn line_start(s: Seq<char>, n: nat) -> Option<int>
    decreases n,
{
    if n == 0 {
        Some(0)
    } else {
        match line_start(s, (n - 1) as nat) {
            Some(st) => match next_nl(s, st) {
                Some(k) => Some(k + 1),
                None => None,
            },
            None => None,
        }
    }
}

/// Line `n` of a text as `str::lines` yields it: up to the next line feed,
/// without the carriage return before that line feed; empty when the text
/// has no such line.
pub open spec fn nth_line(s: Seq<char>, n: nat) -> Seq<char> {
    match line_start(s, n) {
        Some(st) => if st < s.len() {
            let e = match next_nl(s, st) { Some(k) => k, None => s.len() as int };
            let piece = s.subrange(st, e);
            if e < s.len() && piece.len() > 0 && piece.last() == '\r' { piece.drop_last() } else { piece }
        } else {
            Seq::empty()
        },
        None => Seq::empty(),
    }
}

proof fn lemma_next_nl_skip(s: Seq<char>, from: int, to: int)
    requires
        0 <= from <= to,
        forall|k: int| from <= k < to ==> s[k] != '\n',
    ensures
        next_nl(s, from) == next_nl(s, to),
    decreases to - from,
{
    if from < to {
        lemma_next_nl_skip(s, from + 1, to);
    }
}

proof fn lemma_next_nl_found(s: Seq<char>, from: int)
    requires
        0 <= from,
        next_nl(s, from) is Some,
    ensures
        from <= next_nl(s, from)->0 < s.len(),
        s[next_nl(s, from)->0] == '\n',
        forall|k: int| from <= k < next_nl(s, from)->0 ==> s[k] != '\n',
    decreases s.len() - from,
{
    if from < s.len() && s[from] != '\n' {
        lemma_next_nl_found(s, from + 1);
    }
}

proof fn lemma_no_line_after(s: Seq<char>, a: nat, b: nat)
    requires
        a <= b,
        line_start(s, a) is None,
    ensures
        line_start(s, b) is None,
    decreases b - a,
{
    if a < b {
        lemma_no_line_after(s, a + 1, b);
    }
}

/// The next line feed at or after `from`, found by scanning.
fn find_nl(c: &Vec<char>, from: usize) -> (r: Option<usize>)
    requires
        from <= c@.len(),
    ensures
        match r {
            Some(k) => next_nl(c@, from as int) == Some(k as int),
            None => next_nl(c@, from as int) is None,
        },
{
    let mut k: usize = from;
    while k < c.len()
        invariant
            from <= k <= c@.len(),
            forall|t: int| from <= t < k ==> c@[t] != '\n',
        decreases c@.len() - k,
    {
        if c[k] == '\n' {
            proof { lemma_next_nl_skip(c@, from as int, k as int); }
            return Some(k);
        }
        k = k + 1;
    }
    proof { lemma_next_nl_skip(c@, from as int, k as int); }
    None
}

/// Line `n` of a text, as `str::lines().nth(n)` gives it, or empty.
pub fn line_of(source: &str, n: u32) -> (r: String)
    ensures
        r@ == nth_line(source@, n as nat),
{
    let c = crate::text::chars_of(source);
    let mut st: usize = 0;
    let mut j: u32 = 0;
    while j < n
        invariant
            c@ == source@,
            j <= n,
            st <= c@.len(),
            line_start(source@, j as nat) == Some(st as int),
        decreases n - j,
    {
        match find_nl(&c, st) {
            Some(k) => {
                proof { lemma_next_nl_found(c@, st as int); }
                st = k + 1;
            },
            None => {
                proof {
                    assert(line_start(source@, (j + 1) as nat) is None);
                    lemma_no_line_after(source@, (j + 1) as nat, n as nat);
                }
                return String::new();
            },
        }
        j = j + 1;
    }
    if st >= c.len() {
        return String::new();
    }
    let e: usize = match find_nl(&c, st) {
        Some(k) => {
            proof { lemma_next_nl_found(c@, st as int); }
            k
        },
        None => c.len(),
    };
    let mut end = e;
    if e < c.len() && e > st && c[e - 1] == '\r' {
        end = e - 1;
    }
    let mut out = String::new();
    let mut i: usize = st;
    while i < end
        invariant
            c@ == source@,
            st <= i <= end <= c@.len(),
            out@ == source@.subrange(st as int, i as int),
        decreases end - i,
    {
        crate::text::push_char(&mut out, c[i]);
        assert(out@ =~= source@.subrange(st as int, i + 1));
        i = i + 1;
    }
    proof {
        let piece = source@.subrange(st as int, e as int);
        if e < c@.len() && e > st && c@[e - 1] == '\r' {
            assert(out@ =~= piece.drop_last());
        } else {
            assert(out@ =~= piece);
        }
    }
    out
}

/// The arguments of `search_scripts`.
pub struct SearchScriptsTool {
    /// The text to look for; `@source` lists the start of every source and
    /// `debug` their lengths.
    pub query: String,
}

/// What the search finds in one script's source.
pub open spec fn script_match(query: Seq<char>, script_id: Seq<char>, hash: Seq<char>, source: &str) -> Option<JsonV> {
    if query == "@source"@ {
        Some(JsonV::Object(seq![
            ("id"@, JsonV::Str(script_id)),
            ("source"@, JsonV::Str(source@.take(if source@.len() < 1000 { source@.len() as int } else { 1000 }))),
        ]))
    } else if query == "debug"@ {
        Some(JsonV::Object(seq![
            ("id"@, JsonV::Str(script_id)),
            ("source_len"@, JsonV::Number(NumberV::PosInt(source.len() as u64))),
        ]))
    } else {
        match line_column(source.spec_bytes(), encode(query)) {
            Some((line, col)) => Some(JsonV::Object(seq![
                ("scriptId"@, JsonV::Str(script_id)),
                ("scriptHash"@, JsonV::Str(hash)),
                ("lineNumber"@, JsonV::Number(NumberV::PosInt(line as u64))),
                ("columnNumber"@, JsonV::Number(NumberV::PosInt(col as u64))),
                ("linePreview"@, JsonV::Str(trimmed(nth_line(source@, line as nat)))),
            ])),
            None => None,
        }
    }
}

/// The UTF-8 bytes of a text.
pub open spec fn encode(s: Seq<char>) -> Seq<u8> {
    vstd::utf8::encode_utf8(s)
}

impl SearchScriptsTool {
    /// The answer to an empty query: how many scripts are cached.
    pub fn cached_message(count: usize) -> (r: String)
        ensures
            r@ == "Total cached scripts: "@ + decimal(count as nat),
    {
        let n = u64_to_decimal(count as u64);
        let r = concat3("Total cached scripts: ", n.as_str(), "");
        proof { reveal_strlit(""); assert(r@ =~= "Total cached scripts: "@ + decimal(count as nat)); }
        r
    }

    /// The command that fetches a script's source.
    pub fn source_command(script_id: &str) -> (r: CdpCommand)
        ensures
            command_view(Some(r)) == Some(("Debugger.getScriptSource"@, Some(JsonV::Object(seq![("scriptId"@, JsonV::Str(script_id@))])))),
    {
        let mut m: Vec<(String, Json)> = Vec::new();
        m.push(("scriptId".to_owned(), str_json(script_id)));
        let ghost e = seq![("scriptId"@, JsonV::Str(script_id@))];
        CdpCommand { method: "Debugger.getScriptSource".to_owned(), params: Some(object_of(m, Ghost(e))) }
    }

    /// What the search finds in one script's source: its start, its length,
    /// or the line and column of the first match with the trimmed line.
    pub fn match_script(&self, script_id: &str, hash: &str, source: &str) -> (r: Option<Json>)
        ensures
            match r {
                Some(j) => script_match(self.query@, script_id@, hash@, source) == Some(j@),
                None => script_match(self.query@, script_id@, hash@, source) is None,
            },
    {
        if crate::text::str_eq(self.query.as_str(), "@source") {
            let c = crate::text::chars_of(source);
            let n: usize = if c.len() < 1000 { c.len() } else { 1000 };
            let mut head = String::new();
            let mut i: usize = 0;
            while i < n
                invariant
                    c@ == source@,
                    n <= c@.len(),
                    i <= n,
                    head@ == source@.take(i as int),
                decreases n - i,
            {
                crate::text::push_char(&mut head, c[i]);
                assert(head@ =~= source@.take(i + 1));
                i = i + 1;
            }
            let mut m: Vec<(String, Json)> = Vec::new();
            m.push(("id".to_owned(), str_json(script_id)));
            m.push(("source".to_owned(), Json::Str(head)));
            let ghost e = seq![
                ("id"@, JsonV::Str(script_id@)),
                ("source"@, JsonV::Str(source@.take(n as int))),
            ];
            return Some(object_of(m, Ghost(e)));
        }
        if crate::text::str_eq(self.query.as_str(), "debug") {
            let mut m: Vec<(String, Json)> = Vec::new();
            m.push(("id".to_owned(), str_json(script_id)));
            m.push(("source_len".to_owned(), Json::Number(JsonNumber::PosInt(source.len() as u64))));
            let ghost e = seq![
                ("id"@, JsonV::Str(script_id@)),
                ("source_len"@, JsonV::Number(NumberV::PosInt(source.len() as u64))),
            ];
            return Some(object_of(m, Ghost(e)));
        }
        match find_line_column(source, self.query.as_str()) {
            Some((line, col)) => {
                let text = line_of(source, line);
                let preview = trim(text.as_str());
                let mut m: Vec<(String, Json)> = Vec::new();
                m.push(("scriptId".to_owned(), str_json(script_id)));
                m.push(("scriptHash".to_owned(), str_json(hash)));
                m.push(("lineNumber".to_owned(), Json::Number(JsonNumber::PosInt(line as u64))));
                m.push(("columnNumber".to_owned(), Json::Number(JsonNumber::PosInt(col as u64))));
                m.push(("linePreview".to_owned(), str_json(preview)));
                let ghost e = seq![
                    ("scriptId"@, JsonV::Str(script_id@)),
                    ("scriptHash"@, JsonV::Str(hash@)),
                    ("lineNumber"@, JsonV::Number(NumberV::PosInt(line as u64))),
                    ("columnNumber"@, JsonV::Number(NumberV::PosInt(col as u64))),
                    ("linePreview"@, JsonV::Str(trimmed(nth_line(source@, line as nat)))),
                ];
                Some(object_of(m, Ghost(e)))
            },
            None => None,
        }
    }

    /// The answer when matches were found and the query is not `debug`:
    /// the matches as indented JSON.
    pub fn matches_report(results: Vec<Json>) -> (r: String)
        ensures
            r@ == crate::json::json_pretty_text(JsonV::Array(crate::json::views_of(results@))),
    {
        let a = crate::json::array(results);
        crate::json::render_pretty(&a)
    }
}

} // verus!
