//! The console cache: messages from `Log.entryAdded`, console API calls and
//! uncaught exceptions, in arrival order.
use vstd::prelude::*;
use crate::json::{json_get, json_number, json_str, lemma_views_of, number_view, scalar_text, render, views_of, Json, JsonNumber, JsonV, NumberV};
use crate::network::{json_i64_of, json_str_of, ostr, own_opt_str, own_or_empty, str_or_empty};
use crate::text::{lowercase, str_eq, to_lowercase};
use vstd::string::*;

verus! {

/// One console message.  The timestamp is the number DevTools sent, if it
/// sent one (read as 0 otherwise).
pub struct ConsoleMessage {
    pub source: String,
    pub level: String,
    pub text: String,
    pub timestamp: Option<JsonNumber>,
    pub url: Option<String>,
    pub line_number: Option<i64>,
}

/// The model of a message.
pub struct ConsoleMessageV {
    pub source: Seq<char>,
    pub level: Seq<char>,
    pub text: Seq<char>,
    pub timestamp: Option<NumberV>,
    pub url: Option<Seq<char>>,
    pub line_number: Option<i64>,
}

/// The model of an optional number.
pub open spec fn opt_number(o: Option<JsonNumber>) -> Option<NumberV> {
    match o {
        Some(n) => Some(number_view(n)),
        None => None,
    }
}

impl View for ConsoleMessage {
    type V = ConsoleMessageV;

    open spec fn view(&self) -> ConsoleMessageV {
        ConsoleMessageV {
            source: self.source@,
            level: self.level@,
            text: self.text@,
            timestamp: opt_number(self.timestamp),
            url: ostr(self.url),
            line_number: self.line_number,
        }
    }
}

/// The console cache.
pub struct LogState {
    pub messages: Vec<ConsoleMessage>,
}

/// The models of a list of messages.
pub open spec fn messages_view(v: Seq<ConsoleMessage>) -> Seq<ConsoleMessageV> {
    v.map_values(|m: ConsoleMessage| m@)
}

/// `p.get(key)` when it is a number.
pub open spec fn number_of(p: JsonV, key: Seq<char>) -> Option<NumberV> {
    match json_get(p, key) {
        Some(v) => json_number(v),
        None => None,
    }
}

/// The text one console API argument contributes: its value (strings as
/// they are, numbers and booleans printed), else its description, else its
/// printed value; an argument with neither value nor description gives none.
pub open spec fn arg_text_of(arg: JsonV) -> Option<Seq<char>> {
    match json_get(arg, "value"@) {
        Some(val) => match json_str(val) {
            Some(s) => Some(s),
            None => if val is Number || val is Bool {
                Some(scalar_text(val))
            } else {
                match json_str_of(arg, "description"@) {
                    Some(d) => Some(d),
                    None => Some(scalar_text(val)),
                }
            },
        },
        None => json_str_of(arg, "description"@),
    }
}

/// The texts of a list of arguments.
pub open spec fn arg_parts(args: Seq<JsonV>) -> Seq<Seq<char>>
    decreases args.len(),
{
    if args.len() == 0 {
        Seq::empty()
    } else {
        let rest = arg_parts(args.drop_last());
        match arg_text_of(args.last()) {
            Some(p) => rest.push(p),
            None => rest,
        }
    }
}

/// Texts joined by a separator.
pub open spec fn join(parts: Seq<Seq<char>>, sep: Seq<char>) -> Seq<char>
    decreases parts.len(),
{
    if parts.len() == 0 {
        Seq::empty()
    } else if parts.len() == 1 {
        parts[0]
    } else {
        join(parts.drop_last(), sep) + sep + parts.last()
    }
}

/// The text of a console API call: its arguments' texts joined by spaces.
pub open spec fn console_text_of(p: JsonV) -> Seq<char> {
    match json_get(p, "args"@) {
        Some(JsonV::Array(args)) => join(arg_parts(args), " "@),
        _ => Seq::empty(),
    }
}

/// The message an event adds, if any.
pub open spec fn logged_message(method: Seq<char>, p: JsonV) -> Option<ConsoleMessageV> {
    if method == "Log.entryAdded"@ {
        match json_get(p, "entry"@) {
            Some(entry) => Some(ConsoleMessageV {
                source: str_or_empty(json_str_of(entry, "source"@)),
                level: str_or_empty(json_str_of(entry, "level"@)),
                text: str_or_empty(json_str_of(entry, "text"@)),
                timestamp: number_of(entry, "timestamp"@),
                url: json_str_of(entry, "url"@),
                line_number: json_i64_of(entry, "lineNumber"@),
            }),
            None => None,
        }
    } else if method == "Runtime.consoleAPICalled"@ {
        Some(ConsoleMessageV {
            source: "console-api"@,
            level: str_or_empty(json_str_of(p, "type"@)),
            text: console_text_of(p),
            timestamp: number_of(p, "timestamp"@),
            url: None,
            line_number: None,
        })
    } else if method == "Runtime.exceptionThrown"@ {
        match json_get(p, "exceptionDetails"@) {
            Some(details) => Some(ConsoleMessageV {
                source: "exception"@,
                level: "error"@,
                text: match json_get(details, "exception"@) {
                    Some(exc) => match json_str_of(exc, "description"@) {
                        Some(d) => d,
                        None => str_or_empty(json_str_of(details, "text"@)),
                    },
                    None => str_or_empty(json_str_of(details, "text"@)),
                },
                timestamp: number_of(p, "timestamp"@),
                url: json_str_of(details, "url"@),
                line_number: json_i64_of(details, "lineNumber"@),
            }),
            None => None,
        }
    } else {
        None
    }
}

/// The messages after one event of the `Log` or `Runtime` domain.
pub open spec fn log_after(msgs: Seq<ConsoleMessageV>, method: Option<Seq<char>>, params: Option<JsonV>) -> Seq<ConsoleMessageV> {
    match (method, params) {
        (Some(m), Some(p)) => match logged_message(m, p) {
            Some(msg) => msgs.push(msg),
            None => msgs,
        },
        _ => msgs,
    }
}

/// `p.get(key)` as a number.
fn number_member(p: &Json, key: &str) -> (r: Option<JsonNumber>)
    ensures
        opt_number(r) == number_of(p@, key@),
{
    match p.get(key) {
        Some(v) => v.as_number(),
        None => None,
    }
}

fn str_member<'a>(p: &'a Json, key: &str) -> (r: Option<&'a str>)
    ensures
        match r {
            Some(s) => json_str_of(p@, key@) == Some(s@),
            None => json_str_of(p@, key@) is None,
        },
{
    match p.get(key) {
        Some(v) => v.as_str(),
        None => None,
    }
}

fn i64_member(p: &Json, key: &str) -> (r: Option<i64>)
    ensures
        r == json_i64_of(p@, key@),
{
    match p.get(key) {
        Some(v) => v.as_i64(),
        None => None,
    }
}

/// The text one argument contributes.
pub fn arg_part(arg: &Json) -> (r: Option<String>)
    ensures
        ostr(r) == arg_text_of(arg@),
{
    match arg.get("value") {
        Some(val) => match val.as_str() {
            Some(s) => Some(s.to_owned()),
            None => if val.is_number() || val.is_boolean() {
                Some(render(val))
            } else {
                match str_member(arg, "description") {
                    Some(d) => Some(d.to_owned()),
                    None => Some(render(val)),
                }
            },
        },
        None => own_opt_str(str_member(arg, "description")),
    }
}

/// Texts joined by a separator.
pub fn join_texts(parts: &Vec<String>, sep: &str) -> (r: String)
    ensures
        r@ == join(parts@.map_values(|s: String| s@), sep@),
{
    let ghost pv = parts@.map_values(|s: String| s@);
    let mut r = String::new();
    let mut i: usize = 0;
    while i < parts.len()
        invariant
            i <= parts@.len(),
            pv == parts@.map_values(|s: String| s@),
            r@ == join(pv.take(i as int), sep@),
        decreases parts@.len() - i,
    {
        let ghost next = pv.take(i + 1);
        assert(next.drop_last() =~= pv.take(i as int));
        if i > 0 {
            r.append(sep);
        } else {
            assert(pv.take(0) =~= Seq::<Seq<char>>::empty());
        }
        r.append(parts[i].as_str());
        proof {
            if i == 0 {
                assert(r@ =~= next[0]);
            }
        }
        i = i + 1;
    }
    assert(pv.take(parts@.len() as int) =~= pv);
    r
}

/// The text of a console API call.
pub fn console_text(p: &Json) -> (r: String)
    ensures
        r@ == console_text_of(p@),
{
    match p.get("args") {
        Some(Json::Array(args)) => {
            let ghost av = views_of(args@);
            proof { lemma_views_of(args@); }
            let mut parts: Vec<String> = Vec::new();
            let mut i: usize = 0;
            while i < args.len()
                invariant
                    i <= args@.len(),
                    av == views_of(args@),
                    av.len() == args@.len(),
                    forall|j: int| 0 <= j < args@.len() ==> #[trigger] av[j] == args@[j]@,
                    parts@.map_values(|s: String| s@) == arg_parts(av.take(i as int)),
                decreases args@.len() - i,
            {
                let ghost next = av.take(i + 1);
                assert(next.drop_last() =~= av.take(i as int));
                assert(next.last() == args@[i as int]@);
                let part = arg_part(&args[i]);
                match part {
                    Some(s) => {
                        let ghost before = parts@;
                        parts.push(s);
                        assert(parts@.map_values(|s: String| s@) =~= before.map_values(|s: String| s@).push(parts@.last()@));
                    },
                    None => {},
                }
                i = i + 1;
            }
            assert(av.take(args@.len() as int) =~= av);
            join_texts(&parts, " ")
        },
        _ => String::new(),
    }
}

impl LogState {
    /// An empty cache.
    pub fn new() -> (s: LogState)
        ensures
            messages_view(s.messages@) == Seq::<ConsoleMessageV>::empty(),
    {
        let s = LogState { messages: Vec::new() };
        assert(messages_view(s.messages@) =~= Seq::<ConsoleMessageV>::empty());
        s
    }

    /// Records one event of the `Log` or `Runtime` domain.
    pub fn process_log_event(&mut self, method: Option<&str>, params: Option<&Json>)
        ensures
            messages_view(final(self).messages@) == log_after(
                messages_view(old(self).messages@),
                match method { Some(m) => Some(m@), None => None::<Seq<char>> },
                match params { Some(p) => Some(p@), None => None::<JsonV> },
            ),
    {
        let m = match method {
            Some(m) => m,
            None => return,
        };
        let p = match params {
            Some(p) => p,
            None => return,
        };
        let msg = if str_eq(m, "Log.entryAdded") {
            match p.get("entry") {
                Some(entry) => ConsoleMessage {
                    source: own_or_empty(str_member(entry, "source")),
                    level: own_or_empty(str_member(entry, "level")),
                    text: own_or_empty(str_member(entry, "text")),
                    timestamp: number_member(entry, "timestamp"),
                    url: own_opt_str(str_member(entry, "url")),
                    line_number: i64_member(entry, "lineNumber"),
                },
                None => return,
            }
        } else if str_eq(m, "Runtime.consoleAPICalled") {
            ConsoleMessage {
                source: "console-api".to_owned(),
                level: own_or_empty(str_member(p, "type")),
                text: console_text(p),
                timestamp: number_member(p, "timestamp"),
                url: None,
                line_number: None,
            }
        } else if str_eq(m, "Runtime.exceptionThrown") {
            match p.get("exceptionDetails") {
                Some(details) => {
                    let text = match details.get("exception") {
                        Some(exc) => match str_member(exc, "description") {
                            Some(d) => d.to_owned(),
                            None => own_or_empty(str_member(details, "text")),
                        },
                        None => own_or_empty(str_member(details, "text")),
                    };
                    ConsoleMessage {
                        source: "exception".to_owned(),
                        level: "error".to_owned(),
                        text,
                        timestamp: number_member(p, "timestamp"),
                        url: own_opt_str(str_member(details, "url")),
                        line_number: i64_member(details, "lineNumber"),
                    }
                },
                None => return,
            }
        } else {
            return;
        };
        let ghost before = self.messages@;
        self.messages.push(msg);
        assert(messages_view(self.messages@) =~= messages_view(before).push(self.messages@.last()@));
    }
}


/// A copy of a message.
pub fn copy_message(m: &ConsoleMessage) -> (r: ConsoleMessage)
    ensures
        r@ == m@,
{
    ConsoleMessage {
        source: m.source.clone(),
        level: m.level.clone(),
        text: m.text.clone(),
        timestamp: match &m.timestamp {
            Some(t) => Some(t.copy()),
            None => None,
        },
        url: match &m.url {
            Some(u) => Some(u.clone()),
            None => None,
        },
        line_number: m.line_number,
    }
}

/// The arguments of `get_console_logs`.
pub struct GetConsoleLogsTool {
    pub instance_id: Option<String>,
    pub tab_id: Option<String>,
    /// Empty the cache after reading it.
    pub clear: Option<bool>,
    /// Only messages of this level, compared in lower case.
    pub level_filter: Option<String>,
}

/// The messages whose level matches the filter, ignoring case; all of them
/// without a filter.
pub open spec fn level_filtered(ms: Seq<ConsoleMessageV>, level: Option<Seq<char>>) -> Seq<ConsoleMessageV>
    decreases ms.len(),
{
    if ms.len() == 0 {
        ms
    } else {
        let rest = level_filtered(ms.drop_last(), level);
        match level {
            Some(l) => if lowercase(ms.last().level) == lowercase(l) { rest.push(ms.last()) } else { rest },
            None => rest.push(ms.last()),
        }
    }
}

impl GetConsoleLogsTool {
    /// Reads the cache: the messages of the level asked for, in order; the
    /// cache is emptied when asked to.
    pub fn take(&self, st: &mut LogState) -> (r: Vec<ConsoleMessage>)
        ensures
            messages_view(r@) == level_filtered(messages_view(old(st).messages@), ostr(self.level_filter)),
            self.clear == Some(true) ==> final(st).messages@.len() == 0,
            self.clear != Some(true) ==> final(st).messages@ == old(st).messages@,
    {
        let wanted = match &self.level_filter {
            Some(l) => Some(to_lowercase(l.as_str())),
            None => None,
        };
        let ghost all = messages_view(st.messages@);
        let mut out: Vec<ConsoleMessage> = Vec::new();
        let mut i: usize = 0;
        assert(all.take(0) =~= Seq::<ConsoleMessageV>::empty());
        while i < st.messages.len()
            invariant
                all == messages_view(st.messages@),
                i <= st.messages@.len(),
                match wanted {
                    Some(w) => self.level_filter is Some && w@ == lowercase(self.level_filter->0@),
                    None => self.level_filter is None,
                },
                messages_view(out@) == level_filtered(all.take(i as int), ostr(self.level_filter)),
            decreases st.messages@.len() - i,
        {
            let m = &st.messages[i];
            proof {
                assert(all.take(i + 1).drop_last() =~= all.take(i as int));
                assert(all.take(i + 1).last() == m@);
            }
            let keep = match &wanted {
                Some(w) => {
                    let lv = to_lowercase(m.level.as_str());
                    str_eq(lv.as_str(), w.as_str())
                },
                None => true,
            };
            if keep {
                let ghost before = messages_view(out@);
                out.push(copy_message(m));
                assert(messages_view(out@) =~= before.push(m@));
            }
            i = i + 1;
        }
        assert(all.take(st.messages@.len() as int) =~= all);
        match self.clear {
            Some(true) => st.messages.clear(),
            _ => {},
        }
        out
    }
}


/// A console call is kept with the level the page gave it: a
/// `Runtime.consoleAPICalled` event whose parameters carry a string `type`
/// adds exactly one message, after the ones already kept, from the console
/// API and with that `type` as its level.
pub proof fn law_console_call_keeps_its_level(msgs: Seq<ConsoleMessageV>, p: JsonV, t: Seq<char>)
    requires
        json_str_of(p, "type"@) == Some(t),
    ensures
        log_after(msgs, Some("Runtime.consoleAPICalled"@), Some(p)).len() == msgs.len() + 1,
        log_after(msgs, Some("Runtime.consoleAPICalled"@), Some(p)).drop_last() == msgs,
        log_after(msgs, Some("Runtime.consoleAPICalled"@), Some(p)).last().level == t,
        log_after(msgs, Some("Runtime.consoleAPICalled"@), Some(p)).last().source == "console-api"@,
{
    reveal_strlit("Runtime.consoleAPICalled");
    reveal_strlit("Log.entryAdded");
    assert("Runtime.consoleAPICalled"@ != "Log.entryAdded"@) by {
        assert("Runtime.consoleAPICalled"@.len() != "Log.entryAdded"@.len());
    }
    let after = log_after(msgs, Some("Runtime.consoleAPICalled"@), Some(p));
    assert(after.drop_last() =~= msgs);
}


/// Log entries and exceptions keep their level too: a `Log.entryAdded`
/// whose entry carries a string `level` and `text` adds one message with
/// that level and text, and a `Runtime.exceptionThrown` with details adds
/// one message at level `error`; the messages before are kept.
pub proof fn law_entries_and_exceptions_keep_their_level(msgs: Seq<ConsoleMessageV>, p: JsonV, lvl: Seq<char>, text: Seq<char>)
    ensures
        (json_get(p, "entry"@) matches Some(e) && json_str_of(e, "level"@) == Some(lvl) && json_str_of(e, "text"@) == Some(text)) ==> {
            let after = log_after(msgs, Some("Log.entryAdded"@), Some(p));
            &&& after.len() == msgs.len() + 1
            &&& after.drop_last() == msgs
            &&& after.last().level == lvl
            &&& after.last().text == text
        },
        json_get(p, "exceptionDetails"@) is Some ==> {
            let after = log_after(msgs, Some("Runtime.exceptionThrown"@), Some(p));
            &&& after.len() == msgs.len() + 1
            &&& after.drop_last() == msgs
            &&& after.last().level == "error"@
            &&& after.last().source == "exception"@
        },
{
    reveal_strlit("Runtime.exceptionThrown");
    reveal_strlit("Runtime.consoleAPICalled");
    reveal_strlit("Log.entryAdded");
    assert("Runtime.exceptionThrown"@ != "Log.entryAdded"@) by {
        assert("Runtime.exceptionThrown"@.len() != "Log.entryAdded"@.len());
    }
    assert("Runtime.exceptionThrown"@ != "Runtime.consoleAPICalled"@) by {
        assert("Runtime.exceptionThrown"@.len() != "Runtime.consoleAPICalled"@.len());
    }
    assert(log_after(msgs, Some("Log.entryAdded"@), Some(p)).drop_last() =~= msgs
        || json_get(p, "entry"@) is None);
    assert(log_after(msgs, Some("Runtime.exceptionThrown"@), Some(p)).drop_last() =~= msgs
        || json_get(p, "exceptionDetails"@) is None);
}

} // verus!
