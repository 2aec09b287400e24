//! The debugger cache (parsed scripts and the frame the page is paused in),
//! and locating a text in a script's source.
use vstd::prelude::*;
use crate::json::{get_in, json_array, json_get, json_str, opt_get, opt_str, opt_view, owned_view, str_in, Json, JsonV};
use crate::network::ostr;
use crate::strmap::{Duplicate, StrMap};
use crate::text::{chars_of, str_eq};
use vstd::string::*;

verus! {

/// A parsed script.
pub struct ScriptInfo {
    pub hash: String,
    pub start_line: i32,
    pub start_column: i32,
}

/// The model of a parsed script.
pub struct ScriptInfoV {
    pub hash: Seq<char>,
    pub start_line: i32,
    pub start_column: i32,
}

impl View for ScriptInfo {
    type V = ScriptInfoV;

    open spec fn view(&self) -> ScriptInfoV {
        ScriptInfoV { hash: self.hash@, start_line: self.start_line, start_column: self.start_column }
    }
}

impl Duplicate for ScriptInfo {
    fn duplicate(&self) -> (r: Self) {
        ScriptInfo { hash: self.hash.clone(), start_line: self.start_line, start_column: self.start_column }
    }
}

/// The debugger cache: scripts by id, and the first call frame of the last pause.
pub struct DebuggerState {
    pub scripts: StrMap<ScriptInfo>,
    pub paused_call_frame_id: Option<String>,
}

/// The model of the debugger cache.
pub struct DebuggerStateV {
    pub scripts: Map<Seq<char>, ScriptInfoV>,
    pub paused_call_frame_id: Option<Seq<char>>,
}

impl View for DebuggerState {
    type V = DebuggerStateV;

    open spec fn view(&self) -> DebuggerStateV {
        DebuggerStateV {
            scripts: self.scripts@.map_values(|s: ScriptInfo| s@),
            paused_call_frame_id: ostr(self.paused_call_frame_id),
        }
    }
}

/// The value of a decimal digit character.
pub open spec fn digit_value(c: char) -> int {
    (c as int) - 48
}

/// The character is an ASCII decimal digit.
pub open spec fn is_digit(c: char) -> bool {
    '0' <= c <= '9'
}

/// The number a run of decimal digits spells.
pub open spec fn digits_value(d: Seq<char>) -> int
    decreases d.len(),
{
    if d.len() == 0 {
        0
    } else {
        digits_value(d.drop_last()) * 10 + digit_value(d.last())
    }
}

/// The digits after an optional sign.
pub open spec fn unsigned_part(s: Seq<char>) -> Seq<char> {
    if s.len() > 0 && (s[0] == '-' || s[0] == '+') {
        s.drop_first()
    } else {
        s
    }
}

/// What `str::parse::<i32>` gives: an optional sign then at least one
/// decimal digit, the value in range; `None` for any other text.
pub open spec fn parsed_i32(s: Seq<char>) -> Option<i32> {
    let d = unsigned_part(s);
    let neg = s.len() > 0 && s[0] == '-';
    if d.len() == 0 || !(forall|i: int| 0 <= i < d.len() ==> is_digit(#[trigger] d[i])) {
        None
    } else {
        let v = if neg { -digits_value(d) } else { digits_value(d) };
        if i32::MIN <= v <= i32::MAX { Some(v as i32) } else { None }
    }
}

/// A longer run of digits spells a number at least as large.
pub proof fn lemma_digits_value_grows(d: Seq<char>, k: int)
    requires
        0 <= k <= d.len(),
        forall|i: int| 0 <= i < d.len() ==> is_digit(#[trigger] d[i]),
    ensures
        0 <= digits_value(d.take(k)) <= digits_value(d),
    decreases d.len(),
{
    if d.len() > 0 {
        if k == d.len() {
            assert(d.take(k) =~= d);
            lemma_digits_value_grows(d.drop_last(), k - 1);
            assert(d.drop_last().take(k - 1) =~= d.take(k - 1));
        } else {
            lemma_digits_value_grows(d.drop_last(), k);
            assert(d.drop_last().take(k) =~= d.take(k));
            assert(is_digit(d[d.len() - 1]));
        }
    } else {
        assert(d.take(k) =~= d);
    }
}

/// Parses a decimal `i32` as `str::parse::<i32>` does.
pub fn parse_i32(s: &str) -> (r: Option<i32>)
    ensures
        r == parsed_i32(s@),
{
    let c = chars_of(s);
    let n = c.len();
    let neg = n > 0 && c[0] == '-';
    let start: usize = if n > 0 && (c[0] == '-' || c[0] == '+') { 1 } else { 0 };
    let ghost d = unsigned_part(s@);
    assert(d =~= c@.subrange(start as int, n as int));
    if start == n {
        return None;
    }
    let mut acc: i64 = 0;
    let mut i: usize = start;
    while i < n
        invariant
            c@ == s@,
            n == c@.len(),
            start <= i <= n,
            d == c@.subrange(start as int, n as int),
            d == unsigned_part(s@),
            forall|j: int| 0 <= j < i - start ==> is_digit(#[trigger] d[j]),
            acc == digits_value(d.take(i - start)),
            0 <= acc <= 2147483648,
        decreases n - i,
    {
        let ch = c[i];
        if !('0' <= ch && ch <= '9') {
            assert(!is_digit(d[i - start]));
            return None;
        }
        let v: i64 = (ch as u32 - 48) as i64;
        assert(d.take(i - start + 1).drop_last() =~= d.take(i - start));
        assert(d.take(i - start + 1).last() == ch);
        acc = acc * 10 + v;
        assert(acc == digits_value(d.take(i - start + 1)));
        if acc > 2147483648 {
            proof {
                if forall|j: int| 0 <= j < d.len() ==> is_digit(#[trigger] d[j]) {
                    lemma_digits_value_grows(d, i - start + 1);
                }
            }
            return None;
        }
        i = i + 1;
    }
    assert(d.take(n - start) =~= d);
    if neg {
        Some((-acc) as i32)
    } else if acc > 2147483647 {
        None
    } else {
        Some(acc as i32)
    }
}

/// `value.as_ref().and_then(|p| p.get(name)).and_then(|v| v.as_str())`.
pub fn extract_from_value<'a>(value: &'a Option<Json>, param_name: &str) -> (r: Option<&'a str>)
    ensures
        match r {
            Some(s) => opt_str(opt_get(owned_view(*value), param_name@)) == Some(s@),
            None => opt_str(opt_get(owned_view(*value), param_name@)) is None,
        },
{
    str_in(get_in(value.as_ref(), param_name))
}

/// The text of a parameter of an event.
pub open spec fn param_str(params: Option<JsonV>, key: Seq<char>) -> Option<Seq<char>> {
    opt_str(opt_get(params, key))
}

/// A parameter read as text and parsed as an `i32`, 0 when absent or not a number.
pub open spec fn parsed_or_zero(o: Option<Seq<char>>) -> i32 {
    match o {
        Some(t) => match parsed_i32(t) {
            Some(v) => v,
            None => 0,
        },
        None => 0,
    }
}

/// The id of the first call frame of a pause, if there is one.
pub open spec fn first_frame_id(params: Option<JsonV>) -> Option<Seq<char>> {
    match opt_get(params, "callFrames"@) {
        Some(JsonV::Array(frames)) => if frames.len() > 0 {
            match json_get(frames[0], "callFrameId"@) {
                Some(v) => json_str(v),
                None => None,
            }
        } else {
            None
        },
        _ => None,
    }
}

/// The cache after one event of the `Debugger` domain: a parsed script with
/// an id and a hash is recorded (start line and column read from text
/// parameters, 0 when absent or unreadable); a pause records the id of its
/// first call frame; anything else leaves the cache unchanged.
pub open spec fn debugger_after(st: DebuggerStateV, method: Option<Seq<char>>, params: Option<JsonV>) -> DebuggerStateV {
    match method {
        Some(m) => if m == "Debugger.scriptParsed"@ {
            match (param_str(params, "scriptId"@), param_str(params, "hash"@)) {
                (Some(id), Some(hash)) => DebuggerStateV {
                    scripts: st.scripts.insert(id, ScriptInfoV {
                        hash: hash,
                        start_line: parsed_or_zero(param_str(params, "startLine"@)),
                        start_column: parsed_or_zero(param_str(params, "startColumn"@)),
                    }),
                    ..st
                },
                _ => st,
            }
        } else if m == "Debugger.paused"@ {
            match first_frame_id(params) {
                Some(id) => DebuggerStateV { paused_call_frame_id: Some(id), ..st },
                None => st,
            }
        } else {
            st
        },
        None => st,
    }
}

/// A text parameter parsed as an `i32`, 0 when absent or not a number.
fn parse_or_zero(o: Option<&str>) -> (v: i32)
    ensures
        v == parsed_or_zero(match o { Some(t) => Some(t@), None => None::<Seq<char>> }),
{
    match o {
        Some(t) => match parse_i32(t) {
            Some(v) => v,
            None => 0,
        },
        None => 0,
    }
}

impl DebuggerState {
    /// Well-formedness of the script map.
    pub open spec fn wf(&self) -> bool {
        self.scripts.wf()
    }

    /// An empty cache.
    pub fn new() -> (s: DebuggerState)
        ensures
            s.wf(),
            s@.scripts == Map::<Seq<char>, ScriptInfoV>::empty(),
            s@.paused_call_frame_id is None,
    {
        let s = DebuggerState { scripts: StrMap::new(), paused_call_frame_id: None };
        assert(s@.scripts =~= Map::<Seq<char>, ScriptInfoV>::empty());
        s
    }

    /// Records one event of the `Debugger` domain.
    pub fn process_debugger_event(&mut self, method: Option<&str>, params: &Option<Json>)
        requires
            old(self).wf(),
        ensures
            final(self).wf(),
            final(self)@ == debugger_after(
                old(self)@,
                match method { Some(m) => Some(m@), None => None::<Seq<char>> },
                owned_view(*params),
            ),
    {
        let m = match method {
            Some(m) => m,
            None => return,
        };
        let ghost st = self@;
        if str_eq(m, "Debugger.scriptParsed") {
            if let (Some(id), Some(hash)) = (extract_from_value(params, "scriptId"), extract_from_value(params, "hash")) {
                let info = ScriptInfo {
                    hash: hash.to_owned(),
                    start_line: parse_or_zero(extract_from_value(params, "startLine")),
                    start_column: parse_or_zero(extract_from_value(params, "startColumn")),
                };
                let ghost iv = info@;
                self.scripts.insert(id.to_owned(), info);
                proof {
                    assert(self@.scripts =~= st.scripts.insert(id@, iv));
                }
            }
        } else if str_eq(m, "Debugger.paused") {
            let frames = match params {
                Some(p) => p.get("callFrames"),
                None => None,
            };
            if let Some(Json::Array(frames)) = frames {
                if frames.len() > 0 {
                    proof { crate::json::lemma_views_of(frames@); }
                    if let Some(id) = str_in(frames[0].get("callFrameId")) {
                        self.paused_call_frame_id = Some(id.to_owned());
                    }
                }
            }
        }
    }
}

} // verus!
